//! Telemetry of a cellular modem polled over a serial link with AT commands: the
//! grammar of its replies, the derived signal metrics, the band configuration and
//! the state store that serialises every change of the application state.
pub mod at_grammar;
pub mod bands;
pub mod bars;
pub mod converters;
pub mod grammar;
pub mod modem_info;
pub mod state_store;
pub mod supported_modems;
pub mod terminator;
pub mod text;
pub mod transport;
pub mod ui_state;

pub use at_grammar::AtRegexps;
pub use bands::{save_bands_command, toggle_band, BandsConfig, BandsSelectorActive};
pub use bars::get_bar;
pub use converters::{
    convert_rsrp_to_rssi, csq_percentage, distance_from_timing_advance, get_band_lte,
    hex_to_decimal, parse_bandwidth,
};
pub use modem_info::{aggregation_fields, get_modem_info, ModemInfo, NetworkMode};
pub use state_store::{Action, ConnectionStatus, State, StateStore, StoreEffect, StoreMode};
pub use supported_modems::{Modem, ModemSpecs};
pub use terminator::Interrupted;
pub use ui_state::{CursorPosition, LineEditor, SelectedTab, TerminalData};
