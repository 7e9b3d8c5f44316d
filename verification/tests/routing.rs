use journey_planner::capacity::wormhole_jump_mass;
use journey_planner::error::criticalerror;
use journey_planner::error::inputerror;
use journey_planner::error::loadingerror;
use journey_planner::error::routingerror;
use journey_planner::error::ErrorCategory;
use journey_planner::format::hhmmss;
use journey_planner::format::route_pastable;
use journey_planner::graph::get_graph;
use journey_planner::graph::Connection;
use journey_planner::graph::RouteGraph;
use journey_planner::nevereq::NeverEq;
use journey_planner::route::find_route;
use journey_planner::route::RouteFilter;
use journey_planner::system::class_code;
use journey_planner::system::class_from_code;
use journey_planner::system::System;
use journey_planner::system::SystemClass;
use journey_planner::tripwire::SystemOrClass;
use journey_planner::tripwire::TripwireRefresh;
use journey_planner::tripwire::TripwireWormhole;
use journey_planner::tripwire::WormholeLife;
use journey_planner::tripwire::WormholeMass;

fn system(id: u32, name: &str, class: SystemClass, neighbours: Vec<u32>) -> System {
    System { id, name: name.to_string(), security: 5, class, neighbours }
}

// Locations {A,B,C,D} with permanent links A-B and B-C, and an ephemeral
// link B<->D with signatures ABC-123 / XYZ-789, stable on both counts, of a
// type whose capacity is 375.
fn scenario_systems() -> Vec<System> {
    vec![
        system(1, "A", SystemClass::Highsec, vec![2]),
        system(2, "B", SystemClass::Highsec, vec![3]),
        system(3, "C", SystemClass::Lowsec, vec![]),
        system(4, "D", SystemClass::C1, vec![]),
    ]
}

fn scenario_tripwire() -> TripwireRefresh {
    TripwireRefresh {
        wormholes: vec![TripwireWormhole {
            from_system: 2,
            to_system: SystemOrClass::SpecificSystem(4),
            from_signature: Some("ABC-123".to_string()),
            to_signature: Some("XYZ-789".to_string()),
            wormhole_type: Some("A239".to_string()),
            life_time: 1704067200,
            life: WormholeLife::Stable,
            mass: WormholeMass::Stable,
        }],
        signature_count: 2,
        signature_time: 1704067200,
    }
}

fn scenario_graph() -> NeverEq<RouteGraph> {
    get_graph(scenario_systems(), Some(scenario_tripwire()), None).unwrap()
}

fn open_filter() -> RouteFilter {
    RouteFilter {
        avoid_systems: vec![],
        ship_size: 1,
        exclude_lowsec: false,
        exclude_nullsec: false,
        exclude_voc: false,
        exclude_eol: false,
    }
}

#[test]
fn avoided_destination_is_a_routing_error() {
    let graph = scenario_graph();
    let systems = scenario_systems();
    let mut filter = open_filter();
    filter.avoid_systems = vec![systems[3].clone()];
    let err = find_route(&graph.value, &systems[0], &systems[3], &filter).unwrap_err();
    assert_eq!(err.category, ErrorCategory::Routing);
    assert_eq!(err.description, "To system not in graph. It was probably removed by the filtering rules.");
}

#[test]
fn route_through_gates_with_avoided_system_elsewhere() {
    let graph = scenario_graph();
    let systems = scenario_systems();
    let mut filter = open_filter();
    filter.avoid_systems = vec![systems[3].clone()];
    let route = find_route(&graph.value, &systems[0], &systems[2], &filter).unwrap();
    assert_eq!(route.len(), 2);
    assert_eq!(route[0].0.id, 2);
    assert!(matches!(route[0].1, Connection::Gate));
    assert_eq!(route[1].0.id, 3);
    assert!(matches!(route[1].1, Connection::Gate));
}

#[test]
fn oversized_ship_excludes_the_wormhole() {
    // Size selector 1000 exceeds the wormhole's capacity 375, so the only
    // edge to D disappears.
    let graph = scenario_graph();
    let systems = scenario_systems();
    let mut filter = open_filter();
    filter.ship_size = 1000;
    let err = find_route(&graph.value, &systems[0], &systems[3], &filter).unwrap_err();
    assert_eq!(err.category, ErrorCategory::Routing);
    assert_eq!(err.description, "No path between the systems");
}

#[test]
fn small_ship_routes_through_the_wormhole() {
    let graph = scenario_graph();
    let systems = scenario_systems();
    let filter = open_filter();
    let route = find_route(&graph.value, &systems[0], &systems[3], &filter).unwrap();
    assert_eq!(route.len(), 2);
    assert_eq!(route[0].0.id, 2);
    assert!(matches!(route[0].1, Connection::Gate));
    assert_eq!(route[1].0.id, 4);
    match &route[1].1 {
        Connection::Wormhole(w) => {
            assert_eq!(w.signature.as_deref(), Some("ABC-123"));
            assert_eq!(w.other_signature.as_deref(), Some("XYZ-789"));
            assert_eq!(w.jump_mass, Some(375));
            assert_eq!(w.life, WormholeLife::Stable);
            assert_eq!(w.mass, WormholeMass::Stable);
        },
        Connection::Gate => panic!("expected a wormhole into D"),
    }
}

#[test]
fn reverse_wormhole_edge_has_swapped_signatures() {
    let graph = scenario_graph();
    let systems = scenario_systems();
    let filter = open_filter();
    let route = find_route(&graph.value, &systems[3], &systems[0], &filter).unwrap();
    assert_eq!(route.len(), 2);
    assert_eq!(route[0].0.id, 2);
    match &route[0].1 {
        Connection::Wormhole(w) => {
            assert_eq!(w.signature.as_deref(), Some("XYZ-789"));
            assert_eq!(w.other_signature.as_deref(), Some("ABC-123"));
            assert_eq!(w.jump_mass, Some(375));
        },
        Connection::Gate => panic!("expected a wormhole out of D"),
    }
}

#[test]
fn excluding_lowsec_removes_the_endpoint() {
    let graph = scenario_graph();
    let systems = scenario_systems();
    let mut filter = open_filter();
    filter.exclude_lowsec = true;
    let err = find_route(&graph.value, &systems[0], &systems[2], &filter).unwrap_err();
    assert_eq!(err.category, ErrorCategory::Routing);
    assert_eq!(err.description, "To system not in graph. It was probably removed by the filtering rules.");
}

#[test]
fn excluding_end_of_life_removes_the_wormhole() {
    let mut tripwire = scenario_tripwire();
    tripwire.wormholes[0].life = WormholeLife::EOL;
    let graph = get_graph(scenario_systems(), Some(tripwire), None).unwrap();
    let systems = scenario_systems();
    let mut filter = open_filter();
    filter.exclude_eol = true;
    let err = find_route(&graph.value, &systems[0], &systems[3], &filter).unwrap_err();
    assert_eq!(err.description, "No path between the systems");
}

#[test]
fn excluding_very_unstable_removes_the_wormhole() {
    let mut tripwire = scenario_tripwire();
    tripwire.wormholes[0].mass = WormholeMass::VOC;
    let graph = get_graph(scenario_systems(), Some(tripwire), None).unwrap();
    let systems = scenario_systems();
    let mut filter = open_filter();
    filter.exclude_voc = true;
    let err = find_route(&graph.value, &systems[0], &systems[3], &filter).unwrap_err();
    assert_eq!(err.description, "No path between the systems");
}

#[test]
fn wormhole_without_capacity_is_kept_for_any_ship() {
    let mut tripwire = scenario_tripwire();
    tripwire.wormholes[0].wormhole_type = None;
    let graph = get_graph(scenario_systems(), Some(tripwire), None).unwrap();
    let systems = scenario_systems();
    let mut filter = open_filter();
    filter.ship_size = 1000000;
    let route = find_route(&graph.value, &systems[0], &systems[3], &filter).unwrap();
    assert_eq!(route.len(), 2);
}

#[test]
fn parallel_edges_on_the_path_are_a_critical_error() {
    // A wormhole between B and C parallel to their gate link, so two edges
    // connect one consecutive pair of the path.
    let tripwire = TripwireRefresh {
        wormholes: vec![TripwireWormhole {
            from_system: 2,
            to_system: SystemOrClass::SpecificSystem(3),
            from_signature: Some("AAA-111".to_string()),
            to_signature: Some("BBB-222".to_string()),
            wormhole_type: None,
            life_time: 1704067200,
            life: WormholeLife::Stable,
            mass: WormholeMass::Stable,
        }],
        signature_count: 2,
        signature_time: 1704067200,
    };
    let graph = get_graph(scenario_systems(), Some(tripwire), None).unwrap();
    let systems = scenario_systems();
    let filter = open_filter();
    let err = find_route(&graph.value, &systems[0], &systems[2], &filter).unwrap_err();
    assert_eq!(err.category, ErrorCategory::Critical);
    assert_eq!(err.description, "Cannot find edge connecting nodes in graph");
}

#[test]
fn the_route_has_the_fewest_hops() {
    // Three gate hops from A to D, or one wormhole straight across: the
    // single-hop route wins.
    let sde = vec![
        system(1, "A", SystemClass::Highsec, vec![2]),
        system(2, "B", SystemClass::Highsec, vec![3]),
        system(3, "C", SystemClass::Highsec, vec![4]),
        system(4, "D", SystemClass::C1, vec![]),
    ];
    let tripwire = TripwireRefresh {
        wormholes: vec![TripwireWormhole {
            from_system: 1,
            to_system: SystemOrClass::SpecificSystem(4),
            from_signature: Some("DIR-111".to_string()),
            to_signature: Some("DIR-222".to_string()),
            wormhole_type: None,
            life_time: 1704067200,
            life: WormholeLife::Stable,
            mass: WormholeMass::Stable,
        }],
        signature_count: 2,
        signature_time: 1704067200,
    };
    let graph = get_graph(sde.clone(), Some(tripwire), None).unwrap();
    let route = find_route(&graph.value, &sde[0], &sde[3], &open_filter()).unwrap();
    assert_eq!(route.len(), 1);
    assert_eq!(route[0].0.id, 4);
    assert!(matches!(route[0].1, Connection::Wormhole(_)));
}

#[test]
fn routing_to_the_start_is_an_empty_route() {
    let graph = scenario_graph();
    let systems = scenario_systems();
    let filter = open_filter();
    let route = find_route(&graph.value, &systems[0], &systems[0], &filter).unwrap();
    assert_eq!(route.len(), 0);
}

#[test]
fn unknown_gate_neighbour_is_a_critical_error() {
    let sde = vec![system(1, "A", SystemClass::Highsec, vec![42])];
    let err = get_graph(sde, None, None).unwrap_err();
    assert_eq!(err.category, ErrorCategory::Critical);
    assert_eq!(err.description, "Gate to system 42 missing from static data");
}

#[test]
fn unknown_wormhole_endpoint_is_a_critical_error() {
    let tripwire = TripwireRefresh {
        wormholes: vec![TripwireWormhole {
            from_system: 99,
            to_system: SystemOrClass::SpecificSystem(1),
            from_signature: Some("AAA-111".to_string()),
            to_signature: None,
            wormhole_type: None,
            life_time: 1704067200,
            life: WormholeLife::Stable,
            mass: WormholeMass::Stable,
        }],
        signature_count: 1,
        signature_time: 1704067200,
    };
    let err = get_graph(vec![system(1, "A", SystemClass::Highsec, vec![])], Some(tripwire), None)
        .unwrap_err();
    assert_eq!(err.category, ErrorCategory::Critical);
    assert_eq!(err.description, "Wormhole system 99 missing from static data");
}

#[test]
fn class_destination_adds_no_edges() {
    let tripwire = TripwireRefresh {
        wormholes: vec![TripwireWormhole {
            from_system: 1,
            to_system: SystemOrClass::Class5,
            from_signature: Some("AAA-111".to_string()),
            to_signature: None,
            wormhole_type: None,
            life_time: 1704067200,
            life: WormholeLife::Stable,
            mass: WormholeMass::Stable,
        }],
        signature_count: 1,
        signature_time: 1704067200,
    };
    // A graph with one node and an unanchored wormhole builds fine.
    assert!(get_graph(vec![system(1, "A", SystemClass::Highsec, vec![])], Some(tripwire), None).is_ok());
}

#[test]
fn pastable_route_interleaves_names_and_signatures() {
    let graph = scenario_graph();
    let systems = scenario_systems();
    let filter = open_filter();
    let route = find_route(&graph.value, &systems[0], &systems[3], &filter).unwrap();
    assert_eq!(route_pastable(&route), "> B > ABC   (2 jumps)");
}

#[test]
fn pastable_route_ending_on_gates_names_the_last_system() {
    let graph = scenario_graph();
    let systems = scenario_systems();
    let filter = open_filter();
    let route = find_route(&graph.value, &systems[0], &systems[2], &filter).unwrap();
    assert_eq!(route_pastable(&route), "> C   (2 jumps)");
}

#[test]
fn pastable_route_of_an_empty_route() {
    let route: Vec<(System, Connection)> = vec![];
    assert_eq!(route_pastable(&route), ">    (0 jumps)");
}

#[test]
fn duration_rendering() {
    assert_eq!(hhmmss(0), "00:00:00");
    assert_eq!(hhmmss(3661), "01:01:01");
    assert_eq!(hhmmss(-61), "-00:01:01");
    assert_eq!(hhmmss(366100), "101:41:40");
}

#[test]
fn capacity_table_entries() {
    assert_eq!(wormhole_jump_mass("A239"), Some(375));
    assert_eq!(wormhole_jump_mass("K329"), Some(2000));
    assert_eq!(wormhole_jump_mass("J377"), Some(62000));
    assert_eq!(wormhole_jump_mass("Q003"), Some(5));
    assert_eq!(wormhole_jump_mass("GATE"), None);
    assert_eq!(wormhole_jump_mass("a239"), None);
    assert_eq!(wormhole_jump_mass(""), None);
}

#[test]
fn class_codes_round_trip() {
    assert_eq!(class_from_code(7), Some(SystemClass::Highsec));
    assert_eq!(class_from_code(12), Some(SystemClass::Thera));
    assert_eq!(class_from_code(50), Some(SystemClass::Zarzakh));
    assert_eq!(class_from_code(10), None);
    assert_eq!(class_code(SystemClass::C13), 13);
    assert_eq!(class_code(class_from_code(25).unwrap()), 25);
}

#[test]
fn error_constructors_carry_their_category() {
    assert_eq!(loadingerror("a".to_string()).category, ErrorCategory::Loading);
    assert_eq!(inputerror("b".to_string()).category, ErrorCategory::Input);
    assert_eq!(routingerror("c".to_string()).category, ErrorCategory::Routing);
    assert_eq!(criticalerror("d".to_string()).category, ErrorCategory::Critical);
}

#[test]
fn never_eq_never_compares_equal() {
    let a = NeverEq { value: 1u32 };
    let b = NeverEq { value: 1u32 };
    assert!(a != b);
    assert!(a != a.clone());
}

#[test]
fn systems_compare_by_id_alone() {
    let a = system(1, "A", SystemClass::Highsec, vec![]);
    let also_a = system(1, "Renamed", SystemClass::Nullsec, vec![2, 3]);
    let b = system(2, "B", SystemClass::Highsec, vec![]);
    assert_eq!(a, also_a);
    assert!(a != b);
}
