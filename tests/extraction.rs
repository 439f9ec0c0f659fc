use modem_telemetry::{aggregation_fields, get_modem_info, AtRegexps, NetworkMode};

static TEST_STRING: &str = "+CGMI: \"Fibocom\"\r\n\r\nOK\r\n\
    +FMM: \"L850 LTE Module\",\"L850\"\r\n\
    +GTPKGVER: \"18500.5001.00.05.27.30_5001.05.001.035\"\r\n\r\nOK\r\n\
    +CFSN: \"D1M2LG1EA3\"\r\n\r\nOK\r\n\
    +CGSN: \"015550006919978\"\r\n\r\nOK\r\n\
    +CIMI: 220033400995562\r\n\r\nOK\r\n\
    +CCID: 89381030000328789401\r\n\r\nOK\r\n\
    +COPS: 0,0,\"mt:s\",7\r\n\r\nOK\r\n\
    +CGCONTRDP: 1,6,\"3gnet.mnc003.mcc220.gprs\",\"10.179.248.170.255.0.0.0\",\"10.179.248.171\",\"172.22.23.175\",\"172.21.8.175\",\"\",\"\",0\r\n\r\n\
    +CGCONTRDP: 1,6,\"3gnet.mnc003.mcc220.gprs\",\"10.179.248.170.255.0.0.0\",\"10.179.248.171\",\"172.22.23.175\",\"172.22.23.175\",\"\",\"\",0\r\n\r\n\
    +CGCONTRDP: 1,6,\"3gnet.mnc003.mcc220.gprs\",\"10.179.248.170.255.0.0.0\",\"10.179.248.171\",\"172.22.23.175\",\"172.21.8.175\",\"\",\"\",0\r\n\r\n\
    OK\r\n\
    AT+CSQ?\r\r\n+CSQ: 11,2\r\n\r\nOK\r\n\
    AT+XCCINFO?; +XLEC?; +XMCI=1\r\r\n\
    +XCCINFO: 0,220,03,\"00009C03\",3,103,\"FFFF\",1,\"FF\",\"4E91\",0,0,0,0,0,0,0,0\r\n\r\n\
    +XLEC: 0,2,5,3,BAND_LTE_3\r\n\r\n\
    +XMCI: 4,220,03,\"0x4E91\",\"0x00009C03\",\"0x0062\",\"0x000005DC\",\"0x00004C2C\",\"0xFFFFFFFF\",49,17,-4,\"0x00000003\",\"0x00000000\"\r\n\r\n\
    +XMCI: 5,000,000,\"0xFFFE\",\"0xFFFFFFFF\",\"0x0061\",\"0x000005DC\",\"0xFFFFFFFF\",\"0xFFFFFFFF\",42,2,255,\"0x7FFFFFFF\",\"0x00000000\"\r\n\r\n\
    +XMCI: 5,000,000,\"0xFFFE\",\"0xFFFFFFFF\",\"0x006A\",\"0x000005DC\",\"0xFFFFFFFF\",\"0xFFFFFFFF\",43,8,255,\"0x7FFFFFFF\",\"0x00000000\"\r\n\r\n\
    OK\r\n\r\n\
    +XACT: 4,2,1,1,2,4,5,8,101,102,103,104,105,107,108,112,113,117,118,119,120,126,128,129,130,141,166\r\n";

fn cap(p: &modem_telemetry::grammar::Pattern, k: usize) -> String {
    p.capture(TEST_STRING, k, k).unwrap()
}

#[test]
fn test_cgmi_regex() {
    let g = AtRegexps::new();
    assert_eq!(cap(&g.cgmi_regex, 1), "Fibocom");
}

#[test]
fn test_fmm_regex() {
    let g = AtRegexps::new();
    assert_eq!(cap(&g.fmm_regex, 1), "L850 LTE Module");
    let info = get_modem_info(&g, TEST_STRING);
    assert_eq!(info.model_code, "L850");
}

#[test]
fn test_gtpkgver_regex() {
    let g = AtRegexps::new();
    assert_eq!(cap(&g.gtpkgver_regex, 1), "18500.5001.00.05.27.30_5001.05.001.035");
}

#[test]
fn test_cfsn_regex() {
    let g = AtRegexps::new();
    assert_eq!(cap(&g.cfsn_regex, 1), "D1M2LG1EA3");
}

#[test]
fn test_cgsn_regex() {
    let g = AtRegexps::new();
    assert_eq!(cap(&g.cgsn_regex, 1), "015550006919978");
}

#[test]
fn test_cimi_regex() {
    let g = AtRegexps::new();
    assert_eq!(cap(&g.cimi_regex, 1), "220033400995562");
}

#[test]
fn test_ccid_regex() {
    let g = AtRegexps::new();
    assert_eq!(cap(&g.ccid_regex, 1), "89381030000328789401");
}

#[test]
fn test_cops_regex() {
    let g = AtRegexps::new();
    assert_eq!(cap(&g.cops_regex, 5), "mt:s");
    assert_eq!(cap(&g.cops_regex, 7), "7");
}

#[test]
fn test_cgcontrdp_regex() {
    let g = AtRegexps::new();
    let p = &g.cgcontrdp_regex;
    assert_eq!(cap(p, 1), "1");
    assert_eq!(cap(p, 3), "6");
    assert_eq!(cap(p, 5), "3gnet.mnc003.mcc220.gprs");
    assert_eq!(p.capture(TEST_STRING, 7, 13).unwrap(), "10.179.248.170");
    assert_eq!(p.capture(TEST_STRING, 15, 21).unwrap(), "255.0.0.0");
    assert_eq!(cap(p, 23), "10.179.248.171");
    assert_eq!(cap(p, 25), "172.22.23.175");
    assert_eq!(cap(p, 27), "172.21.8.175");
    assert_eq!(cap(p, 29), "");
    assert_eq!(cap(p, 31), "");
    assert_eq!(cap(p, 33), "0");
}

#[test]
fn test_csq_regex() {
    let g = AtRegexps::new();
    assert_eq!(cap(&g.csq_regex, 1), "11");
    assert_eq!(cap(&g.csq_regex, 3), "2");
}

#[test]
fn test_xlec_regex() {
    let g = AtRegexps::new();
    let (cells, bw, band) = aggregation_fields(&g, TEST_STRING).unwrap();
    assert_eq!(cells, "2");
    assert_eq!(bw, "5,3");
    assert_eq!(band, "3");
}

#[test]
fn test_xmci_regex() {
    let g = AtRegexps::new();
    let p = &g.xmci4_regex;
    assert_eq!(cap(p, 1), "4");
    assert_eq!(cap(p, 3), "220");
    assert_eq!(cap(p, 5), "03");
    assert_eq!(cap(p, 7), "0x4E91");
    assert_eq!(cap(p, 9), "0x00009C03");
    assert_eq!(cap(p, 11), "0x0062");
    assert_eq!(cap(p, 13), "0x000005DC");
    assert_eq!(cap(p, 15), "0x00004C2C");
    assert_eq!(cap(p, 17), "0xFFFFFFFF");
    assert_eq!(cap(p, 19), "49");
    assert_eq!(cap(p, 21), "17");
    assert_eq!(p.capture(TEST_STRING, 23, 24).unwrap(), "-4");
    assert_eq!(cap(p, 26), "0x00000003");
    assert_eq!(cap(p, 28), "0x00000000");
}

#[test]
fn test_xact() {
    let g = AtRegexps::new();
    let info = get_modem_info(&g, TEST_STRING);
    assert!(info.umts_enabled, "UMTS должен быть включен");
    assert!(info.lte_enabled, "LTE должен быть включен");
    assert_eq!(info.enabled_umts_bands, vec![1, 2, 4, 5, 8]);
    assert_eq!(
        info.enabled_lte_bands,
        vec![1, 2, 3, 4, 5, 7, 8, 12, 13, 17, 18, 19, 20, 26, 28, 29, 30, 41, 66]
    );
}

#[test]
fn xact_lte_only_with_empty_unused_field() {
    let g = AtRegexps::new();
    let info = get_modem_info(&g, "+XACT: 2,2,,101,103,120");
    assert!(!info.umts_enabled);
    assert!(info.lte_enabled);
    assert!(info.enabled_umts_bands.is_empty());
    assert_eq!(info.enabled_lte_bands, vec![1, 3, 20]);
}

#[test]
fn xact_both_modes_limited_bands() {
    let g = AtRegexps::new();
    let info = get_modem_info(&g, "+XACT: 4,2,1,1,2,4,5,8,101,103,120");
    assert!(info.umts_enabled);
    assert!(info.lte_enabled);
    assert_eq!(info.enabled_umts_bands, vec![1, 2, 4, 5, 8]);
    assert_eq!(info.enabled_lte_bands, vec![1, 3, 20]);
}

#[test]
fn xact_other_flag_codes() {
    let g = AtRegexps::new();
    let info = get_modem_info(&g, "+XACT: 1,1,1,2,5");
    assert!(!info.umts_enabled);
    assert!(!info.lte_enabled);
    assert_eq!(info.enabled_umts_bands, vec![2, 5]);
    assert!(info.enabled_lte_bands.is_empty());
}

#[test]
fn fixture_round_trip() {
    let g = AtRegexps::new();
    let info = get_modem_info(&g, TEST_STRING);
    assert_eq!(info.manufacturer, "Fibocom");
    assert_eq!(info.model, "L850 LTE Module");
    assert_eq!(info.model_code, "L850");
    assert_eq!(info.fw_version, "18500.5001.00.05.27.30_5001.05.001.035");
    assert_eq!(info.serial_number, "D1M2LG1EA3");
    assert_eq!(info.imei, "015550006919978");
    assert_eq!(info.imsi, "220033400995562");
    assert_eq!(info.iccid, "89381030000328789401");
    assert_eq!(info.operator, "mt:s");
    assert_eq!(info.mode, NetworkMode::Lte);
    assert_eq!(info.ip, "10.179.248.170");
    assert_eq!(info.mask, "255.0.0.0");
    assert_eq!(info.dns_prim, "10.179.248.171");
    assert_eq!(info.dns_sec, "172.22.23.175");
    assert_eq!(info.gw, "172.21.8.175");
    assert_eq!(info.csq, 11);
    assert_eq!(info.csq_perc, 35);
    assert_eq!(info.rsrp, -92);
    assert_eq!(info.rsrq, -12);
    assert_eq!(info.sinr, -2);
    assert_eq!(info.distance, 234);
    assert_eq!(info.dluarfnc, 1500);
}

#[test]
fn fixture_carriers_stay_aligned() {
    let g = AtRegexps::new();
    let info = get_modem_info(&g, TEST_STRING);
    assert_eq!(info.ci_x, vec![0x9C03, 0, 0]);
    assert_eq!(info.pci_x, vec![0x62, 0x61, 0x6A]);
    assert_eq!(info.earfcn_x, vec![1500, 1500, 1500]);
    assert_eq!(info.rsrp_x, vec![-92, -99, -98]);
    assert_eq!(info.rsrq_x, vec![-12, -19, -16]);
    assert_eq!(info.sinr_x, vec![-2, 127, 127]);
}

#[test]
fn aggregation_count_mismatch_falls_back_to_channels() {
    let g = AtRegexps::new();
    let info = get_modem_info(&g, TEST_STRING);
    assert_eq!(info.band, "B3@20MHz B3@10MHz ");
    assert_eq!(info.rssi, -61);
}

#[test]
fn aggregation_with_one_band_per_cell() {
    let g = AtRegexps::new();
    let info = get_modem_info(&g, "+XLEC: 0,2,5,3,BAND_LTE_3,7\r\n");
    assert_eq!(info.band, "B3@20MHz B7@10MHz ");
    assert_eq!(info.rssi, 30);
}

#[test]
fn empty_replies_leave_defaults() {
    let g = AtRegexps::new();
    let info = get_modem_info(&g, "");
    assert_eq!(info.manufacturer, "");
    assert_eq!(info.ip, "---");
    assert_eq!(info.mode, NetworkMode::Unknown);
    assert_eq!(info.csq, 0);
    assert_eq!(info.csq_perc, 0);
    assert_eq!(info.band, "");
    assert!(info.ci_x.is_empty());
    assert!(info.enabled_lte_bands.is_empty());
}

#[test]
fn malformed_numbers_read_as_zero() {
    let g = AtRegexps::new();
    let info = get_modem_info(&g, "+CSQ: 99999999999,2\r\n");
    assert_eq!(info.csq, 0);
    assert_eq!(info.csq_perc, 0);
}

#[test]
fn band_from_first_carrier_without_aggregation() {
    let g = AtRegexps::new();
    let text = "+XMCI: 4,220,03,\"0x4E91\",\"0x00009C03\",\"0x0062\",\"0x00001838\",\"0x00004C2C\",\"0xFFFFFFFF\",49,17,-4,\"0x00000003\",\"0x00000000\"";
    let info = get_modem_info(&g, text);
    assert_eq!(info.band, "B20@UnknownMHz");
    assert_eq!(info.rssi, 0);
    assert_eq!(info.dluarfnc, 6200);
}

#[test]
fn grammar_agrees_with_regex_on_fixture() {
    let re = regex::Regex::new(r#"\+XMCI: (?P<type>[45]),(?P<mcc>\d+),(?P<mnc>\d+),"(?P<tac>[^"]*)","(?P<ci_x>[^"]*)","(?P<pci_x>[^"]*)","(?P<dl>[^"]*)","(?P<ul>[^"]*)","(?P<pl>[^"]*)",(?P<rsrp>\d+),(?P<rsrq>\d+),(?P<sinr>-?\d+),"(?P<ta>[^"]*)","(?P<cqi>[^"]*)""#).unwrap();
    let pcis: Vec<i32> = re
        .captures_iter(TEST_STRING)
        .map(|c| i32::from_str_radix(c.name("pci_x").unwrap().as_str().trim_start_matches("0x"), 16).unwrap_or(0))
        .collect();
    let g = AtRegexps::new();
    let info = get_modem_info(&g, TEST_STRING);
    assert_eq!(info.pci_x, pcis);
    let cops = regex::Regex::new(r#"\+COPS: (\d),(\d),"([^"]*)",(\d)"#).unwrap();
    assert_eq!(cops.captures(TEST_STRING).unwrap().get(3).unwrap().as_str(), info.operator);
}
