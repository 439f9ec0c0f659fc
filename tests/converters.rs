use modem_telemetry::{
    convert_rsrp_to_rssi, csq_percentage, distance_from_timing_advance, get_band_lte, get_bar,
    hex_to_decimal, parse_bandwidth,
};
use modem_telemetry::converters::{rsrp_dbm, rsrq_db, sinr_db};

#[test]
fn quality_percentage_over_codes() {
    assert_eq!(csq_percentage(0), 0);
    assert_eq!(csq_percentage(11), 35);
    assert_eq!(csq_percentage(30), 96);
    assert_eq!(csq_percentage(31), 100);
    assert_eq!(csq_percentage(32), 0);
    assert_eq!(csq_percentage(99), 0);
    assert_eq!(csq_percentage(-1), 0);
    for q in 0..=30 {
        let p = csq_percentage(q);
        assert_eq!(p, q * 100 / 31);
        assert!((0..=96).contains(&p));
    }
}

#[test]
fn bar_levels() {
    assert_eq!(get_bar(100, 0, 100), "█████");
    assert_eq!(get_bar(150, 0, 100), "█████");
    assert_eq!(get_bar(80, 0, 100), "████░");
    assert_eq!(get_bar(50, 0, 100), "███░░");
    assert_eq!(get_bar(30, 0, 100), "██░░░");
    assert_eq!(get_bar(10, 0, 100), "█░░░░");
    assert_eq!(get_bar(-1, 0, 100), "█░░░░");
    assert_eq!(get_bar(-92, -120, -50), "██░░░");
    assert_eq!(get_bar(5, 5, 5), "█████");
}

#[test]
fn bar_level_never_drops_as_value_grows() {
    let filled = |v: i32| get_bar(v, -110, -25).chars().filter(|c| *c == '█').count();
    let mut last = 0;
    for v in -130..0 {
        let f = filled(v);
        assert!(f >= last && f <= 5);
        last = f;
    }
    assert_eq!(last, 5);
}

#[test]
fn rssi_from_rsrp_and_bandwidth() {
    assert_eq!(convert_rsrp_to_rssi(-92, 2), Some(-67));
    assert_eq!(convert_rsrp_to_rssi(-92, 5), Some(-61));
    assert_eq!(convert_rsrp_to_rssi(-100, 0), Some(-81));
    assert_eq!(convert_rsrp_to_rssi(-92, 9), Some(-113));
    assert_eq!(convert_rsrp_to_rssi(-10, 3), Some(17));
    assert_eq!(convert_rsrp_to_rssi(i32::MAX, 5), Some(i32::MAX));
}

#[test]
fn rsrp_derivation() {
    assert_eq!(rsrp_dbm(49), -92);
    assert_eq!(rsrq_db(17), -12);
    assert_eq!(sinr_db(-4), -2);
    assert_eq!(sinr_db(-5), -2);
    assert_eq!(sinr_db(i32::MIN), -1073741824);
}

#[test]
fn timing_advance_distance() {
    assert_eq!(hex_to_decimal("0x00000003"), Ok(3));
    assert_eq!(distance_from_timing_advance(3), 234);
    assert_eq!(distance_from_timing_advance(4), 313);
    assert_eq!(distance_from_timing_advance(0), 0);
    assert_eq!(distance_from_timing_advance(-4), -313);
}

#[test]
fn hex_reading() {
    assert_eq!(hex_to_decimal("0x000005DC"), Ok(1500));
    assert_eq!(hex_to_decimal("1a"), Ok(26));
    assert_eq!(hex_to_decimal("0x0x1A"), Ok(26));
    assert_eq!(hex_to_decimal("0x7FFFFFFF"), Ok(i32::MAX));
    assert!(hex_to_decimal("0xFFFFFFFF").is_err());
    assert!(hex_to_decimal("0x").is_err());
    assert!(hex_to_decimal("zz").is_err());
    assert!(hex_to_decimal("").is_err());
}

#[test]
fn band_lookup() {
    assert_eq!(get_band_lte(0), "B1");
    assert_eq!(get_band_lte(1500), "B3");
    assert_eq!(get_band_lte(1949), "B3");
    assert_eq!(get_band_lte(6200), "B20");
    assert_eq!(get_band_lte(2700), "Unknown");
    assert_eq!(get_band_lte(39649), "B40");
    assert_eq!(get_band_lte(-1), "Unknown");
}

#[test]
fn bandwidth_labels() {
    assert_eq!(parse_bandwidth("5,3"), "20, 10");
    assert_eq!(parse_bandwidth("0"), "1.4");
    assert_eq!(parse_bandwidth("1,2,4"), "3, 5, 15");
    assert_eq!(parse_bandwidth(""), "Unknown");
    assert_eq!(parse_bandwidth("7,"), "Unknown, Unknown");
}
