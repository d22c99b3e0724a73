//! Part-type discriminants of Elden Ring, and its plain part-data shapes.

use vstd::prelude::*;

use crate::msb::MsbError;

verus! {

/// A parts record's type discriminant. `Unknown` stands for ids this
/// library has not seen; new ids are expected as the game receives updates.
#[derive(Copy, Clone, Debug, PartialEq, Eq, Structural)]
pub enum PartType {
    MapPiece,
    Enemy,
    Player,
    Collision,
    DummyAsset,
    DummyEnemy,
    ConnectCollision,
    Asset,
    Unknown,
}

impl PartType {
    /// The named discriminants, in declaration order.
    pub fn variants() -> (r: Vec<(PartType, &'static str)>)
        ensures
            r@.len() == 8,
            r@[0].0 == PartType::MapPiece && r@[0].1@ == "MapPiece"@,
            r@[1].0 == PartType::Enemy && r@[1].1@ == "Enemy"@,
            r@[2].0 == PartType::Player && r@[2].1@ == "Player"@,
            r@[3].0 == PartType::Collision && r@[3].1@ == "Collision"@,
            r@[4].0 == PartType::DummyAsset && r@[4].1@ == "DummyAsset"@,
            r@[5].0 == PartType::DummyEnemy && r@[5].1@ == "DummyEnemy"@,
            r@[6].0 == PartType::ConnectCollision && r@[6].1@ == "ConnectCollision"@,
            r@[7].0 == PartType::Asset && r@[7].1@ == "Asset"@,
    {
        let mut v: Vec<(PartType, &'static str)> = Vec::new();
        v.push((PartType::MapPiece, "MapPiece"));
        v.push((PartType::Enemy, "Enemy"));
        v.push((PartType::Player, "Player"));
        v.push((PartType::Collision, "Collision"));
        v.push((PartType::DummyAsset, "DummyAsset"));
        v.push((PartType::DummyEnemy, "DummyEnemy"));
        v.push((PartType::ConnectCollision, "ConnectCollision"));
        v.push((PartType::Asset, "Asset"));
        v
    }
}

/// The discriminant a stored type id names; unseen ids are expected as the
/// game receives updates and map to the explicit unknown variant.
pub open spec fn part_type_of_id(v: i32) -> PartType {
    match v {
        0 => PartType::MapPiece,
        2 => PartType::Enemy,
        4 => PartType::Player,
        5 => PartType::Collision,
        9 => PartType::DummyAsset,
        10 => PartType::DummyEnemy,
        11 => PartType::ConnectCollision,
        13 => PartType::Asset,
        _ => PartType::Unknown,
    }
}

impl From<i32> for PartType {
    fn from(v: i32) -> (r: Self) {
        match v {
            0 => PartType::MapPiece,
            2 => PartType::Enemy,
            4 => PartType::Player,
            5 => PartType::Collision,
            9 => PartType::DummyAsset,
            10 => PartType::DummyEnemy,
            11 => PartType::ConnectCollision,
            13 => PartType::Asset,
            _ => PartType::Unknown,
        }
    }
}

impl vstd::std_specs::convert::FromSpecImpl<i32> for PartType {
    open spec fn obeys_from_spec() -> bool {
        true
    }

    open spec fn from_spec(v: i32) -> Self {
        part_type_of_id(v)
    }
}

/// The stored data of an asset part: the layout is not decoded yet.
#[derive(Copy, Clone, Debug, PartialEq, Eq, Structural)]
pub struct PartDataAsset {}

impl PartDataAsset {
    /// Read an asset part's stored data. The layout is not decoded yet, so
    /// every slice is accepted.
    pub fn from_slice(data: &[u8]) -> (r: Result<Self, MsbError>)
        ensures
            r == Result::<PartDataAsset, MsbError>::Ok(PartDataAsset {  }),
    {
        let _ = data;
        Ok(Self {  })
    }
}

} // verus!
