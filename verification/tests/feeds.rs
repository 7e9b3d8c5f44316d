use journey_planner::eve_scout::eve_scout_refresh_from_wormholes;
use journey_planner::eve_scout::EveScoutWormhole;
use journey_planner::refresh::apply_refresh;
use journey_planner::refresh::Tracker;
use journey_planner::text::parse_u32;
use journey_planner::text::u64_to_dec;
use journey_planner::tripwire::tripwire_refresh_from_raw;
use journey_planner::tripwire::SystemOrClass;
use journey_planner::tripwire::TripwireRaw;
use journey_planner::tripwire::TripwireRefresh;
use journey_planner::tripwire::TripwireSignatureRaw;
use journey_planner::tripwire::TripwireWormholeRaw;
use journey_planner::tripwire::WormholeLife;
use journey_planner::tripwire::WormholeMass;

// 2024-01-02 00:00:00 UTC.
const NOW: i64 = 1704153600;

fn sig(system_id: Option<&str>, signature_id: Option<&str>, life_time: &str, modified_time: &str) -> TripwireSignatureRaw {
    TripwireSignatureRaw {
        system_id: system_id.map(|s| s.to_string()),
        signature_id: signature_id.map(|s| s.to_string()),
        life_time: life_time.to_string(),
        modified_time: modified_time.to_string(),
    }
}

fn wh(initial_id: &str, secondary_id: &str, wormhole_type: Option<&str>, life: &str, mass: &str) -> TripwireWormholeRaw {
    TripwireWormholeRaw {
        initial_id: initial_id.to_string(),
        secondary_id: secondary_id.to_string(),
        wormhole_type: wormhole_type.map(|s| s.to_string()),
        life: life.to_string(),
        mass: mass.to_string(),
    }
}

fn raw_with(
    sigs: Vec<(&str, TripwireSignatureRaw)>,
    whs: Vec<(&str, TripwireWormholeRaw)>,
) -> TripwireRaw {
    TripwireRaw {
        signatures: Some(sigs.into_iter().map(|(k, v)| (k.to_string(), v)).collect()),
        wormholes: Some(whs.into_iter().map(|(k, v)| (k.to_string(), v)).collect()),
    }
}

#[test]
fn fresh_stable_wormhole_is_accepted_stable() {
    // Created one hour ago: well under the twenty-hour end-of-life bound.
    let raw = raw_with(
        vec![
            ("s1", sig(Some("30000002"), Some("abc-123"), "2024-01-01 23:00:00", "2024-01-01 23:00:00")),
            ("s2", sig(Some("30000004"), Some("xyz-789"), "2024-01-01 23:00:00", "2024-01-01 23:30:00")),
        ],
        vec![("w1", wh("s1", "s2", Some("A239"), "stable", "stable"))],
    );
    let out = tripwire_refresh_from_raw(&raw, None, NOW).unwrap();
    assert_eq!(out.wormholes.len(), 1);
    let w = &out.wormholes[0];
    assert_eq!(w.from_system, 30000002);
    assert!(matches!(w.to_system, SystemOrClass::SpecificSystem(30000004)));
    // Labels are folded to upper case.
    assert_eq!(w.from_signature.as_deref(), Some("ABC-123"));
    assert_eq!(w.to_signature.as_deref(), Some("XYZ-789"));
    assert_eq!(w.wormhole_type.as_deref(), Some("A239"));
    assert_eq!(w.life, WormholeLife::Stable);
    assert_eq!(w.mass, WormholeMass::Stable);
    // The creation time is the later of the two endpoints'.
    assert_eq!(w.life_time, NOW - 3600);
    // The marker: two signatures, latest modification.
    assert_eq!(out.signature_count, 2);
    assert_eq!(out.signature_time, NOW - 1800);
}

#[test]
fn stable_wormhole_at_twenty_hours_is_end_of_life() {
    let raw = raw_with(
        vec![
            ("s1", sig(Some("30000002"), Some("AAA"), "2024-01-01 04:00:00", "2024-01-01 04:00:00")),
            ("s2", sig(Some("30000004"), Some("BBB"), "2024-01-01 04:00:00", "2024-01-01 04:00:00")),
        ],
        vec![("w1", wh("s1", "s2", None, "stable", "destab"))],
    );
    let out = tripwire_refresh_from_raw(&raw, None, NOW).unwrap();
    assert_eq!(out.wormholes.len(), 1);
    assert_eq!(out.wormholes[0].life, WormholeLife::EOL);
    assert_eq!(out.wormholes[0].mass, WormholeMass::Destab);
}

#[test]
fn critical_wormhole_is_end_of_life_and_very_unstable() {
    let raw = raw_with(
        vec![
            ("s1", sig(Some("30000002"), Some("AAA"), "2024-01-01 23:00:00", "2024-01-01 23:00:00")),
            ("s2", sig(Some("30000004"), Some("BBB"), "2024-01-01 23:00:00", "2024-01-01 23:00:00")),
        ],
        vec![("w1", wh("s1", "s2", None, "critical", "critical"))],
    );
    let out = tripwire_refresh_from_raw(&raw, None, NOW).unwrap();
    assert_eq!(out.wormholes[0].life, WormholeLife::EOL);
    assert_eq!(out.wormholes[0].mass, WormholeMass::VOC);
}

#[test]
fn wormhole_older_than_a_day_is_dropped() {
    let raw = raw_with(
        vec![
            ("s1", sig(Some("30000002"), Some("AAA"), "2023-12-31 23:00:00", "2024-01-01 00:00:00")),
            ("s2", sig(Some("30000004"), Some("BBB"), "2023-12-31 23:00:00", "2024-01-01 00:00:00")),
        ],
        vec![("w1", wh("s1", "s2", None, "critical", "stable"))],
    );
    let out = tripwire_refresh_from_raw(&raw, None, NOW).unwrap();
    assert_eq!(out.wormholes.len(), 0);
    assert_eq!(out.signature_count, 2);
}

#[test]
fn wormhole_with_no_label_on_either_end_is_dropped() {
    let raw = raw_with(
        vec![
            ("s1", sig(Some("30000002"), None, "2024-01-01 23:00:00", "2024-01-01 23:00:00")),
            ("s2", sig(Some("30000004"), Some("???"), "2024-01-01 23:00:00", "2024-01-01 23:00:00")),
        ],
        vec![("w1", wh("s1", "s2", None, "stable", "stable"))],
    );
    let out = tripwire_refresh_from_raw(&raw, None, NOW).unwrap();
    assert_eq!(out.wormholes.len(), 0);
}

#[test]
fn gates_are_dropped_by_type_and_by_reserved_label() {
    let raw = raw_with(
        vec![
            ("s1", sig(Some("30000002"), Some("AAA"), "2024-01-01 23:00:00", "2024-01-01 23:00:00")),
            ("s2", sig(Some("30000004"), Some("BBB"), "2024-01-01 23:00:00", "2024-01-01 23:00:00")),
            ("s3", sig(Some("5"), Some("gat"), "2024-01-01 23:00:00", "2024-01-01 23:00:00")),
        ],
        vec![
            ("w1", wh("s1", "s2", Some("GATE"), "stable", "stable")),
            ("w2", wh("s1", "s3", None, "stable", "stable")),
        ],
    );
    let out = tripwire_refresh_from_raw(&raw, None, NOW).unwrap();
    assert_eq!(out.wormholes.len(), 0);
}

#[test]
fn placeholder_type_codes_mean_no_type() {
    let raw = raw_with(
        vec![
            ("s1", sig(Some("30000002"), Some("AAA"), "2024-01-01 23:00:00", "2024-01-01 23:00:00")),
            ("s2", sig(Some("30000004"), Some("BBB"), "2024-01-01 23:00:00", "2024-01-01 23:00:00")),
        ],
        vec![("w1", wh("s1", "s2", Some("????"), "stable", "stable"))],
    );
    let out = tripwire_refresh_from_raw(&raw, None, NOW).unwrap();
    assert_eq!(out.wormholes[0].wormhole_type, None);
}

#[test]
fn unknown_source_system_skips_the_record() {
    // The initial endpoint reports only a class of space, not a system.
    let raw = raw_with(
        vec![
            ("s1", sig(Some("5"), Some("AAA"), "2024-01-01 23:00:00", "2024-01-01 23:00:00")),
            ("s2", sig(Some("31000001"), Some("BBB"), "2024-01-01 23:00:00", "2024-01-01 23:00:00")),
        ],
        vec![("w1", wh("s1", "s2", None, "stable", "stable"))],
    );
    let out = tripwire_refresh_from_raw(&raw, None, NOW).unwrap();
    assert_eq!(out.wormholes.len(), 0);
}

#[test]
fn bad_life_status_is_an_error() {
    let raw = raw_with(
        vec![
            ("s1", sig(Some("30000002"), Some("AAA"), "2024-01-01 23:00:00", "2024-01-01 23:00:00")),
            ("s2", sig(Some("30000004"), Some("BBB"), "2024-01-01 23:00:00", "2024-01-01 23:00:00")),
        ],
        vec![("w1", wh("s1", "s2", None, "wobbly", "stable"))],
    );
    let err = tripwire_refresh_from_raw(&raw, None, NOW).unwrap_err();
    assert_eq!(err, "Tripwire wormhole life is not stable or critical for w1");
}

#[test]
fn bad_mass_status_is_an_error() {
    let raw = raw_with(
        vec![
            ("s1", sig(Some("30000002"), Some("AAA"), "2024-01-01 23:00:00", "2024-01-01 23:00:00")),
            ("s2", sig(Some("30000004"), Some("BBB"), "2024-01-01 23:00:00", "2024-01-01 23:00:00")),
        ],
        vec![("w1", wh("s1", "s2", None, "stable", "heavy"))],
    );
    let err = tripwire_refresh_from_raw(&raw, None, NOW).unwrap_err();
    assert_eq!(err, "Tripwire wormhole mass is not stable, destab or critical for w1");
}

#[test]
fn missing_signature_reference_is_an_error() {
    let raw = raw_with(
        vec![("s1", sig(Some("30000002"), Some("AAA"), "2024-01-01 23:00:00", "2024-01-01 23:00:00"))],
        vec![("w1", wh("s1", "s9", None, "stable", "stable"))],
    );
    let err = tripwire_refresh_from_raw(&raw, None, NOW).unwrap_err();
    assert_eq!(err, "Tripwire secondary signature details missing from w1");
}

#[test]
fn bad_timestamps_are_errors() {
    let raw = raw_with(
        vec![("s1", sig(Some("30000002"), Some("AAA"), "yesterday", "2024-01-01 23:00:00"))],
        vec![],
    );
    let err = tripwire_refresh_from_raw(&raw, None, NOW).unwrap_err();
    assert_eq!(err, "Tripwire lifeTime format wrong");

    let raw = raw_with(
        vec![("s1", sig(Some("30000002"), Some("AAA"), "2024-01-01 23:00:00", "later"))],
        vec![],
    );
    let err = tripwire_refresh_from_raw(&raw, None, NOW).unwrap_err();
    assert_eq!(err, "Tripwire modifiedTime format wrong");
}

#[test]
fn bad_system_id_is_an_error() {
    let raw = raw_with(
        vec![("s1", sig(Some("Jita"), Some("AAA"), "2024-01-01 23:00:00", "2024-01-01 23:00:00"))],
        vec![],
    );
    let err = tripwire_refresh_from_raw(&raw, None, NOW).unwrap_err();
    assert_eq!(err, "Tripwire systemID format wrong");
}

#[test]
fn missing_wormhole_map_is_an_error() {
    let raw = TripwireRaw { signatures: Some(vec![]), wormholes: None };
    let err = tripwire_refresh_from_raw(&raw, None, NOW).unwrap_err();
    assert_eq!(err, "Tripwire wormholes not present");
}

#[test]
fn no_changes_reply_keeps_the_previous_marker() {
    let previous = TripwireRefresh { wormholes: vec![], signature_count: 7, signature_time: 1234 };
    let raw = TripwireRaw { signatures: None, wormholes: None };
    let out = tripwire_refresh_from_raw(&raw, Some(&previous), NOW).unwrap();
    assert_eq!(out.wormholes.len(), 0);
    assert_eq!(out.signature_count, 7);
    assert_eq!(out.signature_time, 1234);
    // Such a reply compares equal to the previous refresh, so a cache that
    // compares snapshots sees it as "no change".
    assert_eq!(out, previous);
}

#[test]
fn no_changes_reply_without_previous_state_is_an_error() {
    let raw = TripwireRaw { signatures: None, wormholes: None };
    let err = tripwire_refresh_from_raw(&raw, None, NOW).unwrap_err();
    assert_eq!(err, "Tripwire signatures not present in initial refresh");
}

#[test]
fn system_or_class_codes() {
    assert!(matches!(SystemOrClass::from(None), SystemOrClass::Unknown));
    assert!(matches!(SystemOrClass::from(Some(0)), SystemOrClass::Nullsec));
    assert!(matches!(SystemOrClass::from(Some(1)), SystemOrClass::Lowsec));
    assert!(matches!(SystemOrClass::from(Some(2)), SystemOrClass::Highsec));
    assert!(matches!(SystemOrClass::from(Some(9)), SystemOrClass::Class13));
    assert!(matches!(SystemOrClass::from(Some(10)), SystemOrClass::Pochven));
    assert!(matches!(SystemOrClass::from(Some(31000001)), SystemOrClass::SpecificSystem(31000001)));
}

fn scout(in_id: u32, out_id: u32, updated_at: &str) -> EveScoutWormhole {
    EveScoutWormhole {
        out_system_id: out_id,
        out_signature: "OUT-111".to_string(),
        in_system_id: in_id,
        in_signature: "IN-222".to_string(),
        remaining_hours: 12,
        wh_type: "K329".to_string(),
        updated_at: updated_at.to_string(),
    }
}

#[test]
fn scout_refresh_counts_and_takes_latest_update() {
    let out = eve_scout_refresh_from_wormholes(vec![
        scout(2, 4, "2024-01-01T00:00:00.000Z"),
        scout(2, 5, "2024-01-02T00:00:00.000Z"),
    ])
    .unwrap();
    assert_eq!(out.signature_count, 2);
    assert_eq!(out.signature_time, 1704153600);
    assert_eq!(out.wormholes.len(), 2);
}

#[test]
fn scout_refresh_of_empty_payload_is_epoch() {
    let out = eve_scout_refresh_from_wormholes(vec![]).unwrap();
    assert_eq!(out.signature_count, 0);
    assert_eq!(out.signature_time, 0);
}

#[test]
fn scout_bad_update_time_is_an_error() {
    let err = eve_scout_refresh_from_wormholes(vec![scout(2, 4, "2024-01-01 00:00:00")]).unwrap_err();
    assert_eq!(err, "EvE-Scout failed to parse wormhole updated_at");
}

#[test]
fn successful_refresh_replaces_state_and_clears_error() {
    let tracker = Tracker { update_time: Some(10), update_error: Some("old".to_string()) };
    let (state, tracker) = apply_refresh(Some(1u32), tracker, Ok(2u32), 99);
    assert_eq!(state, Some(2));
    assert_eq!(tracker.update_time, Some(99));
    assert_eq!(tracker.update_error, None);
}

#[test]
fn failed_refresh_keeps_state_and_attaches_error() {
    let tracker = Tracker { update_time: Some(10), update_error: None };
    let (state, tracker) = apply_refresh(Some(1u32), tracker, Err("down".to_string()), 99);
    assert_eq!(state, Some(1));
    assert_eq!(tracker.update_time, Some(10));
    assert_eq!(tracker.update_error.as_deref(), Some("down"));
}

#[test]
fn failed_first_refresh_has_no_state() {
    let tracker: Tracker<String> = Tracker { update_time: None, update_error: None };
    let (state, tracker) = apply_refresh(None::<u32>, tracker, Err("down".to_string()), 99);
    assert_eq!(state, None);
    assert_eq!(tracker.update_time, None);
    assert_eq!(tracker.update_error.as_deref(), Some("down"));
}

#[test]
fn parse_u32_accepts_decimal_and_rejects_the_rest() {
    assert_eq!(parse_u32("123"), Some(123));
    assert_eq!(parse_u32("+7"), Some(7));
    assert_eq!(parse_u32("0"), Some(0));
    assert_eq!(parse_u32("4294967295"), Some(u32::MAX));
    assert_eq!(parse_u32("4294967296"), None);
    assert_eq!(parse_u32(""), None);
    assert_eq!(parse_u32("+"), None);
    assert_eq!(parse_u32("-1"), None);
    assert_eq!(parse_u32("12a"), None);
    assert_eq!(parse_u32("Jita"), None);
}

#[test]
fn decimal_rendering() {
    assert_eq!(u64_to_dec(0), "0");
    assert_eq!(u64_to_dec(7), "7");
    assert_eq!(u64_to_dec(375), "375");
    assert_eq!(u64_to_dec(18446744073709551615), "18446744073709551615");
}
