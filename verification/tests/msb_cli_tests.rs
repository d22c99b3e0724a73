use dvdbnd::cli;
use dvdbnd::msb::event;
use dvdbnd::msb::model::ModelType;
use dvdbnd::msb::parts;
use dvdbnd::msb::point;
use dvdbnd::msb::route::RouteType;
use dvdbnd::vfs;

#[test]
fn elden_ring_event_types_map_from_ids() {
    assert_eq!(event::elden_ring::EventType::from(-1), event::elden_ring::EventType::Other);
    assert_eq!(event::elden_ring::EventType::from(4), event::elden_ring::EventType::Treasure);
    assert_eq!(event::elden_ring::EventType::from(24), event::elden_ring::EventType::RetryPoint);
    assert_eq!(event::elden_ring::EventType::from(99), event::elden_ring::EventType::Unknown);
}

#[test]
fn elden_ring_event_variants_list_all_named_types() {
    let v = event::elden_ring::EventType::variants();
    assert_eq!(v.len(), 11);
    assert_eq!(v[0], (event::elden_ring::EventType::Other, "Other"));
    assert_eq!(v[1], (event::elden_ring::EventType::Treasure, "Treasure"));
    assert_eq!(v[10], (event::elden_ring::EventType::RetryPoint, "RetryPoint"));
}

#[test]
fn nightreign_event_types_map_from_ids() {
    assert_eq!(event::nightreign::EventType::from(25), event::nightreign::EventType::BirdTravelInfo);
    assert_eq!(event::nightreign::EventType::from(27), event::nightreign::EventType::GroupBattleInfo);
    assert_eq!(event::nightreign::EventType::from(10), event::nightreign::EventType::Unknown);
    let v = event::nightreign::EventType::variants();
    assert_eq!(v.len(), 10);
    assert_eq!(v[7], (event::nightreign::EventType::BirdTravelInfo, "BirdTravelInfo"));
    let _ = event::nightreign::EventDataBirdTravelInfo {};
}

#[test]
fn event_type_wrapper_tags_by_game() {
    let a = event::EventType::EldenRing(event::elden_ring::EventType::Mount);
    let b = event::EventType::Nightreign(event::nightreign::EventType::Mount);
    assert_ne!(a, b);
}

#[test]
fn part_types_map_from_ids() {
    assert_eq!(parts::elden_ring::PartType::from(0), parts::elden_ring::PartType::MapPiece);
    assert_eq!(parts::elden_ring::PartType::from(13), parts::elden_ring::PartType::Asset);
    assert_eq!(parts::elden_ring::PartType::from(3), parts::elden_ring::PartType::Unknown);
    let v = parts::elden_ring::PartType::variants();
    assert_eq!(v.len(), 8);
    assert_eq!(v[7], (parts::elden_ring::PartType::Asset, "Asset"));
}

#[test]
fn part_data_asset_accepts_any_slice() {
    assert!(parts::elden_ring::PartDataAsset::from_slice(&[]).is_ok());
    assert!(parts::elden_ring::PartDataAsset::from_slice(&[1, 2, 3]).is_ok());
}

#[test]
fn point_types_map_from_ids() {
    assert_eq!(point::nightreign::PointType::from(3), point::nightreign::PointType::RespawnPoint);
    assert_eq!(
        point::nightreign::PointType::from(59),
        point::nightreign::PointType::UserEdgeEliminationExterior
    );
    assert_eq!(point::nightreign::PointType::from(7), point::nightreign::PointType::Unknown);
    let v = point::nightreign::PointType::variants();
    assert_eq!(v.len(), 28);
    assert_eq!(v[2], (point::nightreign::PointType::RespawnPoint, "RespawnPoint"));
    assert_eq!(
        v[27],
        (point::nightreign::PointType::UserEdgeEliminationExterior, "UserEdgeEliminationExterior")
    );
}

#[test]
fn placeholder_record_shapes_exist() {
    let _ = point::nightreign::PointDataRespawnPoint {};
    let _ = point::nightreign::PointDataMapAttachPoint {};
    let _ = point::nightreign::PointDataBirdTravelRoute {};
    let _ = point::nightreign::PointDataClearPersonInfoPoint {};
    let _ = point::nightreign::PointDataSuddenDeathArea {};
    let _ = point::nightreign::PointDataUserEdgeEliminationInterior {};
    let _ = point::nightreign::PointDataUserEdgeEliminationExterior {};
    assert_eq!(ModelType::Unknown, ModelType::Unknown);
    assert_eq!(RouteType::Unknown, RouteType::Unknown);
}

#[test]
fn cli_game_type_converts_to_filesystem_game_type() {
    assert_eq!(vfs::GameType::from(cli::GameType::ErPc), vfs::GameType::EldenRing);
    assert_eq!(vfs::GameType::from(cli::GameType::NrPc), vfs::GameType::Nightreign);
}

#[test]
fn per_game_fixed_locations() {
    assert_eq!(cli::key_directory(cli::GameType::ErPc), "keys/er_pc");
    assert_eq!(cli::key_directory(cli::GameType::NrPc), "keys/nr_pc");
    assert_eq!(cli::output_game_ext(cli::GameType::ErPc), "er-pc");
    assert_eq!(cli::output_game_ext(cli::GameType::NrPc), "nr-pc");
    let er = cli::archive_names(vfs::GameType::EldenRing);
    assert_eq!(
        er,
        vec!["Data0", "Data1", "Data2", "Data3", "DLC", "sd/sd", "sd/sd_dlc02"]
    );
    let nr = cli::archive_names(vfs::GameType::Nightreign);
    assert_eq!(nr, vec!["Data0", "Data1", "Data2", "Data3", "sd/sd"]);
}

#[test]
fn archive_stem_takes_the_final_component() {
    assert_eq!(cli::archive_stem("sd/sd"), "sd");
    assert_eq!(cli::archive_stem("Data0"), "Data0");
    assert_eq!(cli::archive_stem("a\\b/c"), "c");
}

#[test]
fn cli_action_carries_plain_values() {
    let action = cli::Action::Extract {
        recursive: true,
        filter: Some("chr".to_string()),
        output_path: "./extract".to_string(),
    };
    match action {
        cli::Action::Extract { recursive, filter, output_path } => {
            assert!(recursive);
            assert_eq!(filter.as_deref(), Some("chr"));
            assert_eq!(output_path, "./extract");
        }
        _ => panic!("expected the extract action"),
    }
    let c = cli::Cli {
        game_path: "/games/er".to_string(),
        game_type: cli::GameType::ErPc,
        command: cli::Action::Repl,
    };
    assert_eq!(c.game_type, cli::GameType::ErPc);
    assert_eq!(cli::AssetType::Bnd, cli::AssetType::Bnd);
    assert!(matches!(c.command, cli::Action::Repl));
}
