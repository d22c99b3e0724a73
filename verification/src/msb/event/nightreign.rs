//! Event-type discriminants of Nightreign, and its plain event-data shapes.

use vstd::prelude::*;

verus! {

/// An event record's type discriminant. `Unknown` stands for ids this
/// library has not seen; new ids are expected as the game receives updates.
#[derive(Copy, Clone, Debug, PartialEq, Eq, Structural)]
pub enum EventType {
    Other,
    Treasure,
    Generator,
    ObjAct,
    PlatoonInfo,
    PatrolInfo,
    Mount,
    BirdTravelInfo,
    TalkInfo,
    GroupBattleInfo,
    Unknown,
}

impl EventType {
    /// The named discriminants, in declaration order.
    pub fn variants() -> (r: Vec<(EventType, &'static str)>)
        ensures
            r@.len() == 10,
            r@[0].0 == EventType::Other && r@[0].1@ == "Other"@,
            r@[1].0 == EventType::Treasure && r@[1].1@ == "Treasure"@,
            r@[2].0 == EventType::Generator && r@[2].1@ == "Generator"@,
            r@[3].0 == EventType::ObjAct && r@[3].1@ == "ObjAct"@,
            r@[4].0 == EventType::PlatoonInfo && r@[4].1@ == "PlatoonInfo"@,
            r@[5].0 == EventType::PatrolInfo && r@[5].1@ == "PatrolInfo"@,
            r@[6].0 == EventType::Mount && r@[6].1@ == "Mount"@,
            r@[7].0 == EventType::BirdTravelInfo && r@[7].1@ == "BirdTravelInfo"@,
            r@[8].0 == EventType::TalkInfo && r@[8].1@ == "TalkInfo"@,
            r@[9].0 == EventType::GroupBattleInfo && r@[9].1@ == "GroupBattleInfo"@,
    {
        let mut v: Vec<(EventType, &'static str)> = Vec::new();
        v.push((EventType::Other, "Other"));
        v.push((EventType::Treasure, "Treasure"));
        v.push((EventType::Generator, "Generator"));
        v.push((EventType::ObjAct, "ObjAct"));
        v.push((EventType::PlatoonInfo, "PlatoonInfo"));
        v.push((EventType::PatrolInfo, "PatrolInfo"));
        v.push((EventType::Mount, "Mount"));
        v.push((EventType::BirdTravelInfo, "BirdTravelInfo"));
        v.push((EventType::TalkInfo, "TalkInfo"));
        v.push((EventType::GroupBattleInfo, "GroupBattleInfo"));
        v
    }
}

/// The discriminant a stored type id names; unseen ids are expected as the
/// game receives updates and map to the explicit unknown variant.
pub open spec fn event_type_of_id(v: i32) -> EventType {
    match v {
        -1 => EventType::Other,
        4 => EventType::Treasure,
        5 => EventType::Generator,
        7 => EventType::ObjAct,
        15 => EventType::PlatoonInfo,
        20 => EventType::PatrolInfo,
        21 => EventType::Mount,
        25 => EventType::BirdTravelInfo,
        26 => EventType::TalkInfo,
        27 => EventType::GroupBattleInfo,
        _ => EventType::Unknown,
    }
}

impl From<i32> for EventType {
    fn from(v: i32) -> (r: Self) {
        match v {
            -1 => EventType::Other,
            4 => EventType::Treasure,
            5 => EventType::Generator,
            7 => EventType::ObjAct,
            15 => EventType::PlatoonInfo,
            20 => EventType::PatrolInfo,
            21 => EventType::Mount,
            25 => EventType::BirdTravelInfo,
            26 => EventType::TalkInfo,
            27 => EventType::GroupBattleInfo,
            _ => EventType::Unknown,
        }
    }
}

impl vstd::std_specs::convert::FromSpecImpl<i32> for EventType {
    open spec fn obeys_from_spec() -> bool {
        true
    }

    open spec fn from_spec(v: i32) -> Self {
        event_type_of_id(v)
    }
}

/// The stored data of a bird-travel event: no fields are known yet.
#[derive(Copy, Clone, Debug, PartialEq, Eq, Structural)]
pub struct EventDataBirdTravelInfo {}

} // verus!
