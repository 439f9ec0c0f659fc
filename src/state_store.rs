//! The state store: the single writer of the application state. Each action is
//! turned into the next state and the effect that the caller carries out.
use vstd::prelude::*;
use crate::modem_info::ModemInfo;
use crate::terminator::Interrupted;

verus! {

/// The baud rate of the serial link.
pub const BAUD_RATE: u32 = 115200;

/// The state of the link to the modem, as the user sees it.
#[derive(Clone, Debug)]
pub enum ConnectionStatus {
    Disconnected,
    Connecting,
    Connected,
    Errored(String),
}

/// The application state, of which consumers receive snapshots.
#[derive(Clone, Debug)]
pub struct State {
    pub port_name: String,
    pub baud_rate: u32,
    pub modem_info: ModemInfo,
    /// The raw reply to the last interactive command.
    pub terminal_user_output: String,
    pub status: ConnectionStatus,
}

impl State {
    /// The state before any action: no port, no telemetry, disconnected.
    pub fn new() -> (r: State)
        ensures
            r.port_name@.len() == 0,
            r.baud_rate == BAUD_RATE,
            r.modem_info.is_blank(),
            r.terminal_user_output@.len() == 0,
            r.status is Disconnected,
    {
        State {
            port_name: String::new(),
            baud_rate: BAUD_RATE,
            modem_info: ModemInfo::default(),
            terminal_user_output: String::new(),
            status: ConnectionStatus::Disconnected,
        }
    }
}

/// What consumers and the poller ask of the store.
pub enum Action {
    /// Open this port and start polling it.
    SetPortName(String),
    /// The poller read new telemetry.
    UpdateStateFromModem(ModemInfo),
    /// A polling cycle failed with this transport error.
    PollFailed(String),
    /// Run this command on the current port and keep its reply.
    ExecuteModemCommand(String),
    /// Shut down.
    Exit,
}

/// The store's own phase.
#[derive(Clone, Copy, Debug, PartialEq, Eq, Structural)]
pub enum StoreMode {
    /// No port selected yet.
    Idle,
    /// A port is selected and its poller runs.
    Polling,
    /// Shutting down: nothing changes any more.
    ShuttingDown,
}

/// What the caller does after the store took in an action.
pub enum StoreEffect {
    /// Broadcast the new state.
    Broadcast,
    /// Start the poller on this port, then broadcast the new state.
    StartPoller(String),
    /// Run `command` on `port`, then hand its reply (or error text) to `finish_command`.
    RunCommand { port: String, command: String },
    /// Broadcast this interrupt and stop every loop.
    Shutdown(Interrupted),
    /// Nothing.
    Ignore,
}

/// The store: the canonical state and the phase it is in.
pub struct StateStore {
    pub state: State,
    pub mode: StoreMode,
}

impl StateStore {
    pub fn new() -> (r: StateStore)
        ensures
            r.mode == StoreMode::Idle,
            r.state.port_name@.len() == 0,
            r.state.baud_rate == BAUD_RATE,
            r.state.modem_info.is_blank(),
            r.state.terminal_user_output@.len() == 0,
            r.state.status is Disconnected,
    {
        StateStore { state: State::new(), mode: StoreMode::Idle }
    }

    /// Takes in one action: changes the state as it asks and says what to do next.
    /// After shutdown every action is ignored; a second port is not taken while polling.
    pub fn handle_action(&mut self, action: Action) -> (effect: StoreEffect)
        ensures
            old(self).mode == StoreMode::ShuttingDown ==> {
                &&& *final(self) == *old(self)
                &&& effect is Ignore
            },
            old(self).mode != StoreMode::ShuttingDown ==> match action {
                Action::SetPortName(port) => if old(self).mode == StoreMode::Idle {
                    &&& final(self).mode == StoreMode::Polling
                    &&& final(self).state.port_name == port
                    &&& final(self).state.status is Connecting
                    &&& final(self).state.baud_rate == old(self).state.baud_rate
                    &&& final(self).state.modem_info == old(self).state.modem_info
                    &&& final(self).state.terminal_user_output
                        == old(self).state.terminal_user_output
                    &&& effect == StoreEffect::StartPoller(port)
                } else {
                    &&& *final(self) == *old(self)
                    &&& effect is Broadcast
                },
                Action::UpdateStateFromModem(info) => {
                    &&& final(self).mode == old(self).mode
                    &&& final(self).state.modem_info == info
                    &&& final(self).state.status is Connected
                    &&& final(self).state.port_name == old(self).state.port_name
                    &&& final(self).state.baud_rate == old(self).state.baud_rate
                    &&& final(self).state.terminal_user_output
                        == old(self).state.terminal_user_output
                    &&& effect is Broadcast
                },
                Action::PollFailed(msg) => {
                    &&& final(self).mode == old(self).mode
                    &&& final(self).state.status == ConnectionStatus::Errored(msg)
                    &&& final(self).state.modem_info == old(self).state.modem_info
                    &&& final(self).state.port_name == old(self).state.port_name
                    &&& final(self).state.baud_rate == old(self).state.baud_rate
                    &&& final(self).state.terminal_user_output
                        == old(self).state.terminal_user_output
                    &&& effect is Broadcast
                },
                Action::ExecuteModemCommand(command) => {
                    &&& *final(self) == *old(self)
                    &&& effect == StoreEffect::RunCommand {
                        port: old(self).state.port_name,
                        command,
                    }
                },
                Action::Exit => {
                    &&& final(self).mode == StoreMode::ShuttingDown
                    &&& final(self).state == old(self).state
                    &&& effect == StoreEffect::Shutdown(Interrupted::UserInt)
                },
            },
    {
        if self.mode == StoreMode::ShuttingDown {
            return StoreEffect::Ignore;
        }
        match action {
            Action::SetPortName(port) => {
                if self.mode == StoreMode::Idle {
                    self.mode = StoreMode::Polling;
                    self.state.status = ConnectionStatus::Connecting;
                    let effect_port = port.clone();
                    self.state.port_name = port;
                    StoreEffect::StartPoller(effect_port)
                } else {
                    StoreEffect::Broadcast
                }
            },
            Action::UpdateStateFromModem(info) => {
                self.state.modem_info = info;
                self.state.status = ConnectionStatus::Connected;
                StoreEffect::Broadcast
            },
            Action::PollFailed(msg) => {
                self.state.status = ConnectionStatus::Errored(msg);
                StoreEffect::Broadcast
            },
            Action::ExecuteModemCommand(command) => {
                StoreEffect::RunCommand { port: self.state.port_name.clone(), command }
            },
            Action::Exit => {
                self.mode = StoreMode::ShuttingDown;
                StoreEffect::Shutdown(Interrupted::UserInt)
            },
        }
    }

    /// Keeps the reply of an interactive command; telemetry is left as it is.
    pub fn finish_command(&mut self, reply: String) -> (effect: StoreEffect)
        ensures
            old(self).mode == StoreMode::ShuttingDown ==> {
                &&& *final(self) == *old(self)
                &&& effect is Ignore
            },
            old(self).mode != StoreMode::ShuttingDown ==> {
                &&& final(self).state.terminal_user_output == reply
                &&& final(self).mode == old(self).mode
                &&& final(self).state.modem_info == old(self).state.modem_info
                &&& final(self).state.port_name == old(self).state.port_name
                &&& final(self).state.baud_rate == old(self).state.baud_rate
                &&& final(self).state.status == old(self).state.status
                &&& effect is Broadcast
            },
    {
        if self.mode == StoreMode::ShuttingDown {
            return StoreEffect::Ignore;
        }
        self.state.terminal_user_output = reply;
        StoreEffect::Broadcast
    }
}

} // verus!
