use std::collections::BTreeSet;
use modem_telemetry::{save_bands_command, toggle_band, BandsConfig, BandsSelectorActive, Modem};

fn as_set(v: &[usize]) -> BTreeSet<usize> {
    v.iter().copied().collect()
}

#[test]
fn toggle_on_then_off_restores_bands() {
    let before = vec![1, 3, 20];
    let mut bands = before.clone();
    toggle_band(&mut bands, 7);
    assert_eq!(bands, vec![1, 3, 20, 7]);
    toggle_band(&mut bands, 7);
    assert_eq!(bands, before);
}

#[test]
fn toggle_off_then_on_restores_band_set() {
    let before = vec![1, 3, 20];
    let mut bands = before.clone();
    toggle_band(&mut bands, 3);
    assert_eq!(bands, vec![1, 20]);
    toggle_band(&mut bands, 3);
    assert_eq!(as_set(&bands), as_set(&before));
}

#[test]
fn selected_band_toggles_and_out_of_range_is_ignored() {
    let caps = Modem::new("L850");
    let mut config = BandsConfig { loaded: true, umts: vec![], lte: vec![3] };
    config.toggle_selected(BandsSelectorActive::LTEBandsSelector, &caps, 2);
    assert_eq!(config.lte, Vec::<usize>::new());
    config.toggle_selected(BandsSelectorActive::UMTSBandsSelector, &caps, 1);
    assert_eq!(config.umts, vec![2]);
    config.toggle_selected(BandsSelectorActive::UMTSBandsSelector, &caps, 99);
    assert_eq!(config.umts, vec![2]);
    let unknown = Modem::new("X999");
    config.toggle_selected(BandsSelectorActive::LTEBandsSelector, &unknown, 0);
    assert!(config.lte.is_empty());
}

#[test]
fn capability_lookup() {
    let caps = Modem::new("L850");
    assert_eq!(caps.manufacturer, "Fibocom");
    assert_eq!(caps.supported_umts_bands, vec![1, 2, 4, 5, 8]);
    assert_eq!(caps.supported_lte_bands.len(), 19);
    let none = Modem::new("L850 LTE Module");
    assert!(none.supported_umts_bands.is_empty());
    assert!(none.supported_lte_bands.is_empty());
}

#[test]
fn band_commands() {
    assert_eq!(save_bands_command(&vec![], &vec![7, 3]), "AT+XACT=2,,,107,103");
    assert_eq!(save_bands_command(&vec![1, 8], &vec![]), "AT+XACT=1,,,1,8");
    assert_eq!(save_bands_command(&vec![1], &vec![20]), "AT+XACT=4,2,,1,120");
    assert_eq!(save_bands_command(&vec![], &vec![]), "AT+XACT=4,2,,0");
}

#[test]
fn selector_switches_lists() {
    assert_eq!(BandsSelectorActive::UMTSBandsSelector.toggled(), BandsSelectorActive::LTEBandsSelector);
    assert_eq!(BandsSelectorActive::LTEBandsSelector.toggled(), BandsSelectorActive::UMTSBandsSelector);
}
