//! An on-demand gateway: services are started lazily on first use, given a
//! free port from a bounded range, checked for having bound it, and then
//! reached through a reverse proxy.
//!
//! This crate holds the decisions of that gateway: configuration defaults,
//! the service registry with its single-flight claims, the port cursor, the
//! launch commands and the proxied target address. The surrounding program
//! performs the socket probes, process spawns and HTTP exchanges that these
//! decisions ask for.

mod config;
mod laws;
mod registry;
mod reverse_proxy;
mod text;
mod urls;

pub use config::{ConfigError, Function, OpenFaaSConfig, Provider, RawConfig, RawFunction, get_config, load_config, port_result};
pub use text::{collapse_slashes, decimal, decimal_string, collapse_double_slashes, same_text};
pub use urls::parsed_url;
pub use registry::{Address, Endpoint, Entry, Registry, Slot, Status, endpoint_at, held, loopback, ports_distinct};
pub use reverse_proxy::{DEFAULT_HIGH_PORT, DEFAULT_LOW_PORT, Event, GatewayError, LaunchPlan, Phase, address_string, address_text, plan_program, strings, target_text, target_text_spec, target_url, PortAllocator, ReverseProxy, Session, Step, advanced, first_free};
pub use laws::{lemma_allocated_port_fresh, lemma_commit_shared, lemma_running_is_reused, lemma_single_flight, lemma_unbound_port_aborts, lemma_unknown_service};
