//! The interactive application's state: which list is shown, what is
//! selected, the derived connection status, and the outcome messages.  Every
//! transition is a pure function of the state and the inputs handed in; the
//! surrounding program performs the outside work the returned requests name
//! and reports the outcomes back.
use vstd::prelude::*;
use vstd::string::*;
use vstd::view::View as _;

use crate::autostart::{enable_init, AsStep, AutostartFlow};
use crate::server::{cities_in, servers_in, Server, ServerTree};
use crate::text::{trim_spec, trim_str, views_of};
use crate::wireguard::{
    connect_init, disconnect_init, ConnectError, ConnectErrorV, ConnectFlow, ConnectionStatus,
    DisconnectFlow, FlowStep,
};

verus! {

/// Which screen is shown.
#[derive(Debug, Clone, PartialEq, Eq, Structural)]
pub enum View {
    Countries,
    Cities,
    Servers,
    Setup,
}

/// Whether keystrokes navigate or enter account text.
#[derive(Debug, Clone, PartialEq, Eq, Structural)]
pub enum InputMode {
    Normal,
    AccountInput,
}

/// The application state.
pub struct App {
    pub view: View,
    pub input_mode: InputMode,
    pub input_buffer: String,
    pub servers: Vec<Server>,
    pub server_tree: ServerTree,
    pub countries: Vec<String>,
    pub cities: Vec<String>,
    pub city_servers: Vec<Server>,
    pub selected_country_idx: usize,
    pub selected_city_idx: usize,
    pub selected_server_idx: usize,
    pub selected_country: Option<String>,
    pub selected_city: Option<String>,
    pub connection_status: ConnectionStatus,
    pub autostart_server: Option<String>,
    pub message: Option<String>,
    pub error: Option<String>,
    pub private_key: Option<String>,
    pub address: Option<String>,
    pub should_quit: bool,
}

/// The index after `cur` in a list of `len` entries, wrapping to the start.
pub open spec fn wrap_next(cur: int, len: int) -> int {
    if len > 0 {
        if cur >= len - 1 {
            0
        } else {
            cur + 1
        }
    } else {
        cur
    }
}

/// The index before `cur`, wrapping to the end.
pub open spec fn wrap_prev(cur: int, len: int) -> int {
    if len == 0 {
        cur
    } else if cur == 0 {
        len - 1
    } else {
        cur - 1
    }
}

impl App {
    /// A fresh application: country view, nothing loaded, nothing selected,
    /// disconnected.
    pub fn new() -> (r: App)
        ensures
            r.view == View::Countries,
            r.input_mode == InputMode::Normal,
            r.input_buffer@ == Seq::<char>::empty(),
            r.servers@.len() == 0,
            r.server_tree.countries@.len() == 0,
            r.countries@.len() == 0,
            r.cities@.len() == 0,
            r.city_servers@.len() == 0,
            r.selected_country_idx == 0,
            r.selected_city_idx == 0,
            r.selected_server_idx == 0,
            r.selected_country is None,
            r.selected_city is None,
            r.connection_status@ is None,
            r.autostart_server is None,
            r.message is None,
            r.error is None,
            r.private_key is None,
            r.address is None,
            !r.should_quit,
    {
        App {
            view: View::Countries,
            input_mode: InputMode::Normal,
            input_buffer: String::new(),
            servers: Vec::new(),
            server_tree: ServerTree { countries: Vec::new() },
            countries: Vec::new(),
            cities: Vec::new(),
            city_servers: Vec::new(),
            selected_country_idx: 0,
            selected_city_idx: 0,
            selected_server_idx: 0,
            selected_country: None,
            selected_city: None,
            connection_status: ConnectionStatus::Disconnected,
            autostart_server: None,
            message: None,
            error: None,
            private_key: None,
            address: None,
            should_quit: false,
        }
    }

    /// Records a freshly derived connection status.
    pub fn update_status(&mut self, status: ConnectionStatus)
        ensures
            *final(self) == (App { connection_status: final(self).connection_status, ..*old(self) }),
            final(self).connection_status == status,
    {
        self.connection_status = status;
    }

    /// Moves the selection of the current list one entry forward, wrapping.
    pub fn next(&mut self)
        ensures
            ({
                let o = *old(self);
                match o.view {
                    View::Countries => *final(self) == (App {
                        selected_country_idx: wrap_next(
                            o.selected_country_idx as int,
                            o.countries@.len() as int,
                        ) as usize,
                        ..o
                    }),
                    View::Cities => *final(self) == (App {
                        selected_city_idx: wrap_next(
                            o.selected_city_idx as int,
                            o.cities@.len() as int,
                        ) as usize,
                        ..o
                    }),
                    View::Servers => *final(self) == (App {
                        selected_server_idx: wrap_next(
                            o.selected_server_idx as int,
                            o.city_servers@.len() as int,
                        ) as usize,
                        ..o
                    }),
                    View::Setup => *final(self) == o,
                }
            }),
    {
        match self.view {
            View::Countries => {
                let len = self.countries.len();
                if len > 0 {
                    if self.selected_country_idx >= len - 1 {
                        self.selected_country_idx = 0;
                    } else {
                        self.selected_country_idx = self.selected_country_idx + 1;
                    }
                }
            },
            View::Cities => {
                let len = self.cities.len();
                if len > 0 {
                    if self.selected_city_idx >= len - 1 {
                        self.selected_city_idx = 0;
                    } else {
                        self.selected_city_idx = self.selected_city_idx + 1;
                    }
                }
            },
            View::Servers => {
                let len = self.city_servers.len();
                if len > 0 {
                    if self.selected_server_idx >= len - 1 {
                        self.selected_server_idx = 0;
                    } else {
                        self.selected_server_idx = self.selected_server_idx + 1;
                    }
                }
            },
            View::Setup => {},
        }
    }

    /// Moves the selection of the current list one entry back, wrapping.
    pub fn previous(&mut self)
        ensures
            ({
                let o = *old(self);
                match o.view {
                    View::Countries => *final(self) == (App {
                        selected_country_idx: wrap_prev(
                            o.selected_country_idx as int,
                            o.countries@.len() as int,
                        ) as usize,
                        ..o
                    }),
                    View::Cities => *final(self) == (App {
                        selected_city_idx: wrap_prev(
                            o.selected_city_idx as int,
                            o.cities@.len() as int,
                        ) as usize,
                        ..o
                    }),
                    View::Servers => *final(self) == (App {
                        selected_server_idx: wrap_prev(
                            o.selected_server_idx as int,
                            o.city_servers@.len() as int,
                        ) as usize,
                        ..o
                    }),
                    View::Setup => *final(self) == o,
                }
            }),
    {
        match self.view {
            View::Countries => {
                let len = self.countries.len();
                if len > 0 {
                    if self.selected_country_idx == 0 {
                        self.selected_country_idx = len - 1;
                    } else {
                        self.selected_country_idx = self.selected_country_idx - 1;
                    }
                }
            },
            View::Cities => {
                let len = self.cities.len();
                if len > 0 {
                    if self.selected_city_idx == 0 {
                        self.selected_city_idx = len - 1;
                    } else {
                        self.selected_city_idx = self.selected_city_idx - 1;
                    }
                }
            },
            View::Servers => {
                let len = self.city_servers.len();
                if len > 0 {
                    if self.selected_server_idx == 0 {
                        self.selected_server_idx = len - 1;
                    } else {
                        self.selected_server_idx = self.selected_server_idx - 1;
                    }
                }
            },
            View::Setup => {},
        }
    }

    /// Descends into the selected entry.  In the country and city views this
    /// loads the next list from the tree; in the endpoint view it asks the
    /// caller to connect to the selected endpoint's code, which is returned.
    pub fn select(&mut self) -> (r: Option<String>)
        ensures
            ({
                let o = *old(self);
                match o.view {
                    View::Countries => {
                        if o.selected_country_idx < o.countries@.len() {
                            &&& *final(self) == (App {
                                view: View::Cities,
                                selected_country: Some(o.countries@[o.selected_country_idx as int]),
                                cities: final(self).cities,
                                selected_city_idx: 0,
                                ..o
                            })
                            &&& views_of(final(self).cities@) == cities_in(
                                o.server_tree.countries@,
                                o.countries@[o.selected_country_idx as int]@,
                            )
                            &&& r is None
                        } else {
                            *final(self) == o && r is None
                        }
                    },
                    View::Cities => {
                        if o.selected_country is Some && o.selected_city_idx < o.cities@.len() {
                            &&& *final(self) == (App {
                                view: View::Servers,
                                selected_city: Some(o.cities@[o.selected_city_idx as int]),
                                city_servers: final(self).city_servers,
                                selected_server_idx: 0,
                                ..o
                            })
                            &&& final(self).city_servers@ == servers_in(
                                o.server_tree.countries@,
                                o.selected_country.unwrap()@,
                                o.cities@[o.selected_city_idx as int]@,
                            )
                            &&& r is None
                        } else {
                            *final(self) == o && r is None
                        }
                    },
                    View::Servers => {
                        if o.selected_server_idx < o.city_servers@.len() {
                            &&& *final(self) == o
                            &&& r == Some(o.city_servers@[o.selected_server_idx as int].code)
                        } else {
                            *final(self) == o && r is None
                        }
                    },
                    View::Setup => *final(self) == o && r is None,
                }
            }),
    {
        match self.view {
            View::Countries => {
                if self.selected_country_idx < self.countries.len() {
                    let country = self.countries[self.selected_country_idx].clone();
                    self.cities = crate::server::get_cities(&self.server_tree, country.as_str());
                    self.selected_country = Some(country);
                    self.selected_city_idx = 0;
                    self.view = View::Cities;
                }
                None
            },
            View::Cities => {
                match &self.selected_country {
                    Some(country) => {
                        if self.selected_city_idx < self.cities.len() {
                            let city = self.cities[self.selected_city_idx].clone();
                            self.city_servers = crate::server::get_servers_in_city(
                                &self.server_tree,
                                country.as_str(),
                                city.as_str(),
                            );
                            self.selected_city = Some(city);
                            self.selected_server_idx = 0;
                            self.view = View::Servers;
                        }
                    },
                    None => {},
                }
                None
            },
            View::Servers => {
                if self.selected_server_idx < self.city_servers.len() {
                    Some(self.city_servers[self.selected_server_idx].code.clone())
                } else {
                    None
                }
            },
            View::Setup => None,
        }
    }

    /// Goes back to the previous view.
    pub fn back(&mut self)
        ensures
            ({
                let o = *old(self);
                match o.view {
                    View::Countries => *final(self) == o,
                    View::Cities => *final(self) == (App {
                        view: View::Countries,
                        selected_country: None,
                        ..o
                    }),
                    View::Servers => *final(self) == (App {
                        view: View::Cities,
                        selected_city: None,
                        ..o
                    }),
                    View::Setup => *final(self) == (App {
                        view: View::Countries,
                        input_mode: InputMode::Normal,
                        ..o
                    }),
                }
            }),
    {
        match self.view {
            View::Countries => {},
            View::Cities => {
                self.view = View::Countries;
                self.selected_country = None;
            },
            View::Servers => {
                self.view = View::Cities;
                self.selected_city = None;
            },
            View::Setup => {
                self.view = View::Countries;
                self.input_mode = InputMode::Normal;
            },
        }
    }

    /// Enters setup: account entry with a cleared buffer.
    pub fn enter_setup(&mut self)
        ensures
            *final(self) == (App {
                view: View::Setup,
                input_mode: InputMode::AccountInput,
                input_buffer: final(self).input_buffer,
                ..*old(self)
            }),
            final(self).input_buffer@ == Seq::<char>::empty(),
    {
        self.view = View::Setup;
        self.input_mode = InputMode::AccountInput;
        self.input_buffer = String::new();
    }

    /// The submitted account number: the entered text trimmed, or nothing
    /// when only whitespace was entered (setup is then rejected).
    pub fn setup_account(&self) -> (r: Option<String>)
        ensures
            ({
                let t = trim_spec(self.input_buffer@);
                match r {
                    Some(a) => a@ == t && t.len() > 0,
                    None => t.len() == 0,
                }
            }),
    {
        let t = trim_str(self.input_buffer.as_str());
        if t.unicode_len() == 0 {
            None
        } else {
            Some(t.to_owned())
        }
    }

    /// How many entries the current list shows.
    pub fn current_list_len(&self) -> (r: usize)
        ensures
            r == match self.view {
                View::Countries => self.countries@.len(),
                View::Cities => self.cities@.len(),
                View::Servers => self.city_servers@.len(),
                View::Setup => 0,
            },
    {
        match self.view {
            View::Countries => self.countries.len(),
            View::Cities => self.cities.len(),
            View::Servers => self.city_servers.len(),
            View::Setup => 0,
        }
    }

    /// Which entry of the current list is selected.
    pub fn current_selection(&self) -> (r: usize)
        ensures
            r == match self.view {
                View::Countries => self.selected_country_idx,
                View::Cities => self.selected_city_idx,
                View::Servers => self.selected_server_idx,
                View::Setup => 0,
            },
    {
        match self.view {
            View::Countries => self.selected_country_idx,
            View::Cities => self.selected_city_idx,
            View::Servers => self.selected_server_idx,
            View::Setup => 0,
        }
    }

    /// Starts a connect toward `code` from the current derived status: the
    /// caller says whether the profile file exists and then drives the
    /// returned machine.
    pub fn connect_to_server(&self, code: &str, profile_exists: bool) -> (r: (
        ConnectFlow,
        FlowStep,
    ))
        ensures
            (r.0@, r.1@) == connect_init(code@, self.connection_status@, profile_exists),
    {
        ConnectFlow::new(code, &self.connection_status, profile_exists)
    }

    /// Records a finished connect: success connects to `code` and reports
    /// it, failure reports the error's message.
    pub fn finish_connect(&mut self, code: &str, outcome: &FlowStep)
        requires
            !(outcome@ is RunV),
        ensures
            ({
                let o = *old(self);
                match outcome@ {
                    crate::wireguard::FlowStepV::DoneV => {
                        &&& *final(self) == (App {
                            connection_status: final(self).connection_status,
                            message: final(self).message,
                            error: None,
                            ..o
                        })
                        &&& final(self).connection_status@ == Some(code@)
                        &&& final(self).message matches Some(m) && m@ == "Connected to "@ + code@
                    },
                    crate::wireguard::FlowStepV::FailV(e) => {
                        &&& *final(self) == (App { error: final(self).error, ..o })
                        &&& final(self).error matches Some(m) && m@ == connect_error_text(e, code@)
                    },
                    _ => true,
                }
            }),
    {
        match outcome {
            FlowStep::Done => {
                self.connection_status = ConnectionStatus::Connected(code.to_owned());
                self.message = Some(String::from_str("Connected to ").concat(code));
                self.error = None;
            },
            FlowStep::Fail(e) => {
                self.error = Some(connect_error_message(e, code));
            },
            FlowStep::Run(_) => {},
        }
    }

    /// Starts a disconnect of the currently connected endpoint, if any.
    pub fn disconnect(&self) -> (r: Option<(DisconnectFlow, FlowStep)>)
        ensures
            match self.connection_status@ {
                Some(c) => r matches Some(p) && (p.0@, p.1@) == disconnect_init(c),
                None => r is None,
            },
    {
        match &self.connection_status {
            ConnectionStatus::Connected(code) => Some(DisconnectFlow::new(code.as_str())),
            ConnectionStatus::Disconnected => None,
        }
    }

    /// Records a finished disconnect.
    pub fn finish_disconnect(&mut self, outcome: &FlowStep)
        requires
            !(outcome@ is RunV),
        ensures
            ({
                let o = *old(self);
                match outcome@ {
                    crate::wireguard::FlowStepV::DoneV => {
                        &&& *final(self) == (App {
                            connection_status: final(self).connection_status,
                            message: final(self).message,
                            error: None,
                            ..o
                        })
                        &&& final(self).connection_status@ is None
                        &&& final(self).message matches Some(m) && m@ == "Disconnected"@
                    },
                    crate::wireguard::FlowStepV::FailV(e) => {
                        &&& *final(self) == (App { error: final(self).error, ..o })
                        &&& final(self).error matches Some(m) && m@ == disconnect_error_text(e)
                    },
                    _ => true,
                }
            }),
    {
        match outcome {
            FlowStep::Done => {
                self.connection_status = ConnectionStatus::Disconnected;
                self.message = Some(String::from_str("Disconnected"));
                self.error = None;
            },
            FlowStep::Fail(e) => {
                self.error = Some(disconnect_error_message(e));
            },
            FlowStep::Run(_) => {},
        }
    }

    /// What toggling autostart on the selected endpoint asks for: disabling
    /// it when it is the enabled one, else enabling it (which disables any
    /// other).  Only meaningful in the endpoint view.
    pub fn toggle_autostart(&self) -> (r: Option<AutostartRequest>)
        ensures
            ({
                if self.view == View::Servers && self.selected_server_idx
                    < self.city_servers@.len() {
                    let code = self.city_servers@[self.selected_server_idx as int].code;
                    if self.autostart_server matches Some(cur) && cur@ == code@ {
                        r == Some(AutostartRequest::Disable(code))
                    } else {
                        r == Some(AutostartRequest::Enable(code))
                    }
                } else {
                    r is None
                }
            }),
    {
        if !matches!(self.view, View::Servers) {
            return None;
        }
        if self.selected_server_idx >= self.city_servers.len() {
            return None;
        }
        let code = self.city_servers[self.selected_server_idx].code.clone();
        let enabled = match &self.autostart_server {
            Some(cur) => crate::text::eq_str(cur.as_str(), code.as_str()),
            None => false,
        };
        if enabled {
            Some(AutostartRequest::Disable(code))
        } else {
            Some(AutostartRequest::Enable(code))
        }
    }

    /// Starts the enable transaction for `code` against the currently
    /// enabled profile.
    pub fn enable_autostart(&self, code: &str) -> (r: (AutostartFlow, AsStep))
        ensures
            (r.0@, r.1@) == enable_init(
                code@,
                match self.autostart_server {
                    Some(c) => Some(c@),
                    None => None,
                },
            ),
    {
        AutostartFlow::new(code, &self.autostart_server)
    }

    /// Records a finished autostart toggle.
    pub fn finish_autostart(&mut self, req: &AutostartRequest, success: bool, output: &str)
        ensures
            ({
                let o = *old(self);
                match req {
                    AutostartRequest::Disable(code) => {
                        if success {
                            &&& *final(self) == (App {
                                autostart_server: None,
                                message: final(self).message,
                                error: None,
                                ..o
                            })
                            &&& final(self).message matches Some(m) && m@ == "Disabled autostart for "@
                                + code@
                        } else {
                            &&& *final(self) == (App { error: final(self).error, ..o })
                            &&& final(self).error matches Some(m) && m@
                                == "Failed to disable autostart: Failed to disable service: "@
                                + output@
                        }
                    },
                    AutostartRequest::Enable(code) => {
                        if success {
                            &&& *final(self) == (App {
                                autostart_server: final(self).autostart_server,
                                message: final(self).message,
                                error: None,
                                ..o
                            })
                            &&& final(self).autostart_server matches Some(c) && c@ == code@
                            &&& final(self).message matches Some(m) && m@ == "Enabled autostart for "@
                                + code@
                        } else {
                            &&& *final(self) == (App { error: final(self).error, ..o })
                            &&& final(self).error matches Some(m) && m@
                                == "Failed to enable autostart: Failed to enable service: "@
                                + output@
                        }
                    },
                }
            }),
    {
        match req {
            AutostartRequest::Disable(code) => {
                if success {
                    self.autostart_server = None;
                    self.message = Some(
                        String::from_str("Disabled autostart for ").concat(code.as_str()),
                    );
                    self.error = None;
                } else {
                    self.error = Some(
                        String::from_str(
                            "Failed to disable autostart: Failed to disable service: ",
                        ).concat(output),
                    );
                }
            },
            AutostartRequest::Enable(code) => {
                if success {
                    self.autostart_server = Some(code.clone());
                    self.message = Some(
                        String::from_str("Enabled autostart for ").concat(code.as_str()),
                    );
                    self.error = None;
                } else {
                    self.error = Some(
                        String::from_str(
                            "Failed to enable autostart: Failed to enable service: ",
                        ).concat(output),
                    );
                }
            },
        }
    }
}

/// What toggling autostart asks the caller to run.
#[derive(Debug, PartialEq)]
pub enum AutostartRequest {
    Disable(String),
    Enable(String),
}

/// The operator-facing text of a failed connect, mirroring how each failure
/// is classified.
pub open spec fn connect_error_text(e: ConnectErrorV, code: Seq<char>) -> Seq<char> {
    match e {
        ConnectErrorV::MissingProfileV => "No config for "@ + code
            + ". Press 'i' to initialize."@,
        ConnectErrorV::DisconnectFailedV(o) => "Failed to disconnect: wg-quick down failed: "@ + o,
        ConnectErrorV::ModuleNotLoadedV =>
            "Failed to connect: WireGuard module not loaded. Run: sudo modprobe wireguard"@,
        ConnectErrorV::InterfaceExistsV =>
            "Failed to connect: Interface already exists. Try disconnecting first (press 'd')"@,
        ConnectErrorV::RetryFailedV(o) => "Failed to connect: wg-quick up failed after resolvconf fix:\n"@
            + trim_spec(o),
        ConnectErrorV::TunnelUpFailedV(o) => "Failed to connect: wg-quick up failed:\n"@
            + trim_spec(o),
        ConnectErrorV::TunnelDownFailedV(o) => "Failed to disconnect: wg-quick down failed: "@ + o,
    }
}

/// Renders a failed connect for the operator.
pub fn connect_error_message(e: &ConnectError, code: &str) -> (r: String)
    ensures
        r@ == connect_error_text(e@, code@),
{
    match e {
        ConnectError::MissingProfile => String::from_str("No config for ").concat(code).concat(
            ". Press 'i' to initialize.",
        ),
        ConnectError::DisconnectFailed(o) => String::from_str(
            "Failed to disconnect: wg-quick down failed: ",
        ).concat(o.as_str()),
        ConnectError::ModuleNotLoaded => String::from_str(
            "Failed to connect: WireGuard module not loaded. Run: sudo modprobe wireguard",
        ),
        ConnectError::InterfaceExists => String::from_str(
            "Failed to connect: Interface already exists. Try disconnecting first (press 'd')",
        ),
        ConnectError::RetryFailed(o) => String::from_str(
            "Failed to connect: wg-quick up failed after resolvconf fix:\n",
        ).concat(trim_str(o.as_str())),
        ConnectError::TunnelUpFailed(o) => String::from_str(
            "Failed to connect: wg-quick up failed:\n",
        ).concat(trim_str(o.as_str())),
        ConnectError::TunnelDownFailed(o) => String::from_str(
            "Failed to disconnect: wg-quick down failed: ",
        ).concat(o.as_str()),
    }
}

/// The operator-facing text of a failed disconnect.
pub open spec fn disconnect_error_text(e: ConnectErrorV) -> Seq<char> {
    match e {
        ConnectErrorV::TunnelDownFailedV(o) => "Failed to disconnect: wg-quick down failed: "@ + o,
        _ => "Failed to disconnect"@,
    }
}

/// Renders a failed disconnect for the operator.
pub fn disconnect_error_message(e: &ConnectError) -> (r: String)
    ensures
        r@ == disconnect_error_text(e@),
{
    match e {
        ConnectError::TunnelDownFailed(o) => String::from_str(
            "Failed to disconnect: wg-quick down failed: ",
        ).concat(o.as_str()),
        _ => String::from_str("Failed to disconnect"),
    }
}

} // verus!
