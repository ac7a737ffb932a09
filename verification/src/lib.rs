//! Porthole's core: the rule model, validation, rendering of the gost
//! configuration, the firewall plan, the runtime state machine of the gost
//! sidecar and the decisions of the stores, each with its contract.

pub mod text;
pub mod ip;
pub mod order;
pub mod rule;
pub mod gost_renderer;
pub mod validator;
pub mod paths;
pub mod firewall;
pub mod runtime;
pub mod gost_process;
pub mod pid_file;
pub mod store;
pub mod rule_store;
pub mod runtime_state_store;
pub mod runtime_events;
pub mod lifecycle;
pub mod app_state;
pub mod clock;
