//! Point-type discriminants of Nightreign, and its plain point-data shapes.

use vstd::prelude::*;

verus! {

/// A point record's type discriminant. `Unknown` stands for ids this
/// library has not seen; new ids are expected as the game receives updates.
#[derive(Copy, Clone, Debug, PartialEq, Eq, Structural)]
pub enum PointType {
    Other,
    EnvironmentMapPoint,
    RespawnPoint,
    Sound,
    Sfx,
    WindSfx,
    SpawnPoint,
    EnvironmentMapEffectBox,
    Connection,
    MufflingBox,
    MufflingPortal,
    SoundRegion,
    PatrolRoute,
    MapPoint,
    WeatherOverride,
    GroupDefeatReward,
    Hitset,
    WeatherCreateAssetPoint,
    EnvironmentMapOutput,
    MountJump,
    Dummy,
    FallPreventionRemoval,
    MapAttachPoint,
    BirdTravelRoute,
    ClearPersonInfoPoint,
    SuddenDeathArea,
    UserEdgeEliminationInterior,
    UserEdgeEliminationExterior,
    Unknown,
}

impl PointType {
    /// The named discriminants, in declaration order.
    pub fn variants() -> (r: Vec<(PointType, &'static str)>)
        ensures
            r@.len() == 28,
            r@[0].0 == PointType::Other && r@[0].1@ == "Other"@,
            r@[1].0 == PointType::EnvironmentMapPoint && r@[1].1@ == "EnvironmentMapPoint"@,
            r@[2].0 == PointType::RespawnPoint && r@[2].1@ == "RespawnPoint"@,
            r@[3].0 == PointType::Sound && r@[3].1@ == "Sound"@,
            r@[4].0 == PointType::Sfx && r@[4].1@ == "Sfx"@,
            r@[5].0 == PointType::WindSfx && r@[5].1@ == "WindSfx"@,
            r@[6].0 == PointType::SpawnPoint && r@[6].1@ == "SpawnPoint"@,
            r@[7].0 == PointType::EnvironmentMapEffectBox && r@[7].1@ == "EnvironmentMapEffectBox"@,
            r@[8].0 == PointType::Connection && r@[8].1@ == "Connection"@,
            r@[9].0 == PointType::MufflingBox && r@[9].1@ == "MufflingBox"@,
            r@[10].0 == PointType::MufflingPortal && r@[10].1@ == "MufflingPortal"@,
            r@[11].0 == PointType::SoundRegion && r@[11].1@ == "SoundRegion"@,
            r@[12].0 == PointType::PatrolRoute && r@[12].1@ == "PatrolRoute"@,
            r@[13].0 == PointType::MapPoint && r@[13].1@ == "MapPoint"@,
            r@[14].0 == PointType::WeatherOverride && r@[14].1@ == "WeatherOverride"@,
            r@[15].0 == PointType::GroupDefeatReward && r@[15].1@ == "GroupDefeatReward"@,
            r@[16].0 == PointType::Hitset && r@[16].1@ == "Hitset"@,
            r@[17].0 == PointType::WeatherCreateAssetPoint && r@[17].1@ == "WeatherCreateAssetPoint"@,
            r@[18].0 == PointType::EnvironmentMapOutput && r@[18].1@ == "EnvironmentMapOutput"@,
            r@[19].0 == PointType::MountJump && r@[19].1@ == "MountJump"@,
            r@[20].0 == PointType::Dummy && r@[20].1@ == "Dummy"@,
            r@[21].0 == PointType::FallPreventionRemoval && r@[21].1@ == "FallPreventionRemoval"@,
            r@[22].0 == PointType::MapAttachPoint && r@[22].1@ == "MapAttachPoint"@,
            r@[23].0 == PointType::BirdTravelRoute && r@[23].1@ == "BirdTravelRoute"@,
            r@[24].0 == PointType::ClearPersonInfoPoint && r@[24].1@ == "ClearPersonInfoPoint"@,
            r@[25].0 == PointType::SuddenDeathArea && r@[25].1@ == "SuddenDeathArea"@,
            r@[26].0 == PointType::UserEdgeEliminationInterior && r@[26].1@ == "UserEdgeEliminationInterior"@,
            r@[27].0 == PointType::UserEdgeEliminationExterior && r@[27].1@ == "UserEdgeEliminationExterior"@,
    {
        let mut v: Vec<(PointType, &'static str)> = Vec::new();
        v.push((PointType::Other, "Other"));
        v.push((PointType::EnvironmentMapPoint, "EnvironmentMapPoint"));
        v.push((PointType::RespawnPoint, "RespawnPoint"));
        v.push((PointType::Sound, "Sound"));
        v.push((PointType::Sfx, "Sfx"));
        v.push((PointType::WindSfx, "WindSfx"));
        v.push((PointType::SpawnPoint, "SpawnPoint"));
        v.push((PointType::EnvironmentMapEffectBox, "EnvironmentMapEffectBox"));
        v.push((PointType::Connection, "Connection"));
        v.push((PointType::MufflingBox, "MufflingBox"));
        v.push((PointType::MufflingPortal, "MufflingPortal"));
        v.push((PointType::SoundRegion, "SoundRegion"));
        v.push((PointType::PatrolRoute, "PatrolRoute"));
        v.push((PointType::MapPoint, "MapPoint"));
        v.push((PointType::WeatherOverride, "WeatherOverride"));
        v.push((PointType::GroupDefeatReward, "GroupDefeatReward"));
        v.push((PointType::Hitset, "Hitset"));
        v.push((PointType::WeatherCreateAssetPoint, "WeatherCreateAssetPoint"));
        v.push((PointType::EnvironmentMapOutput, "EnvironmentMapOutput"));
        v.push((PointType::MountJump, "MountJump"));
        v.push((PointType::Dummy, "Dummy"));
        v.push((PointType::FallPreventionRemoval, "FallPreventionRemoval"));
        v.push((PointType::MapAttachPoint, "MapAttachPoint"));
        v.push((PointType::BirdTravelRoute, "BirdTravelRoute"));
        v.push((PointType::ClearPersonInfoPoint, "ClearPersonInfoPoint"));
        v.push((PointType::SuddenDeathArea, "SuddenDeathArea"));
        v.push((PointType::UserEdgeEliminationInterior, "UserEdgeEliminationInterior"));
        v.push((PointType::UserEdgeEliminationExterior, "UserEdgeEliminationExterior"));
        v
    }
}

/// The discriminant a stored type id names; unseen ids are expected as the
/// game receives updates and map to the explicit unknown variant.
pub open spec fn point_type_of_id(v: i32) -> PointType {
    match v {
        -1 => PointType::Other,
        2 => PointType::EnvironmentMapPoint,
        3 => PointType::RespawnPoint,
        4 => PointType::Sound,
        5 => PointType::Sfx,
        6 => PointType::WindSfx,
        8 => PointType::SpawnPoint,
        17 => PointType::EnvironmentMapEffectBox,
        21 => PointType::Connection,
        28 => PointType::MufflingBox,
        29 => PointType::MufflingPortal,
        30 => PointType::SoundRegion,
        32 => PointType::PatrolRoute,
        33 => PointType::MapPoint,
        35 => PointType::WeatherOverride,
        37 => PointType::GroupDefeatReward,
        40 => PointType::Hitset,
        42 => PointType::WeatherCreateAssetPoint,
        44 => PointType::EnvironmentMapOutput,
        46 => PointType::MountJump,
        48 => PointType::Dummy,
        49 => PointType::FallPreventionRemoval,
        54 => PointType::MapAttachPoint,
        55 => PointType::BirdTravelRoute,
        56 => PointType::ClearPersonInfoPoint,
        57 => PointType::SuddenDeathArea,
        58 => PointType::UserEdgeEliminationInterior,
        59 => PointType::UserEdgeEliminationExterior,
        _ => PointType::Unknown,
    }
}

impl From<i32> for PointType {
    fn from(v: i32) -> (r: Self) {
        match v {
            -1 => PointType::Other,
            2 => PointType::EnvironmentMapPoint,
            3 => PointType::RespawnPoint,
            4 => PointType::Sound,
            5 => PointType::Sfx,
            6 => PointType::WindSfx,
            8 => PointType::SpawnPoint,
            17 => PointType::EnvironmentMapEffectBox,
            21 => PointType::Connection,
            28 => PointType::MufflingBox,
            29 => PointType::MufflingPortal,
            30 => PointType::SoundRegion,
            32 => PointType::PatrolRoute,
            33 => PointType::MapPoint,
            35 => PointType::WeatherOverride,
            37 => PointType::GroupDefeatReward,
            40 => PointType::Hitset,
            42 => PointType::WeatherCreateAssetPoint,
            44 => PointType::EnvironmentMapOutput,
            46 => PointType::MountJump,
            48 => PointType::Dummy,
            49 => PointType::FallPreventionRemoval,
            54 => PointType::MapAttachPoint,
            55 => PointType::BirdTravelRoute,
            56 => PointType::ClearPersonInfoPoint,
            57 => PointType::SuddenDeathArea,
            58 => PointType::UserEdgeEliminationInterior,
            59 => PointType::UserEdgeEliminationExterior,
            _ => PointType::Unknown,
        }
    }
}

impl vstd::std_specs::convert::FromSpecImpl<i32> for PointType {
    open spec fn obeys_from_spec() -> bool {
        true
    }

    open spec fn from_spec(v: i32) -> Self {
        point_type_of_id(v)
    }
}

/// The stored data of this point kind: no fields are known yet.
#[derive(Copy, Clone, Debug, PartialEq, Eq, Structural)]
pub struct PointDataRespawnPoint {}

/// The stored data of this point kind: no fields are known yet.
#[derive(Copy, Clone, Debug, PartialEq, Eq, Structural)]
pub struct PointDataMapAttachPoint {}

/// The stored data of this point kind: no fields are known yet.
#[derive(Copy, Clone, Debug, PartialEq, Eq, Structural)]
pub struct PointDataBirdTravelRoute {}

/// The stored data of this point kind: no fields are known yet.
#[derive(Copy, Clone, Debug, PartialEq, Eq, Structural)]
pub struct PointDataClearPersonInfoPoint {}

/// The stored data of this point kind: no fields are known yet.
#[derive(Copy, Clone, Debug, PartialEq, Eq, Structural)]
pub struct PointDataSuddenDeathArea {}

/// The stored data of this point kind: no fields are known yet.
#[derive(Copy, Clone, Debug, PartialEq, Eq, Structural)]
pub struct PointDataUserEdgeEliminationInterior {}

/// The stored data of this point kind: no fields are known yet.
#[derive(Copy, Clone, Debug, PartialEq, Eq, Structural)]
pub struct PointDataUserEdgeEliminationExterior {}

} // verus!
