//! Hotcue event sender: a state poller for a live playback engine that detects
//! master changes and hotcue crossings and forwards them to a remote consumer.
//!
//! The library decides; it performs no I/O. The caller asks the engine, opens the
//! connections and sleeps, as [`poller::StatePoller::action`] calls for, and reports back.

pub mod codec;
pub mod config;
pub mod delivery;
pub mod events;
pub mod health;
pub mod host;
pub mod poller;
pub mod text;
pub mod tick;
pub mod tracker;

pub use config::TcpConfig;
pub use delivery::{DeliveryError, SendStep, TcpClient};
pub use events::{Command, EventPayload, HotcueEvent, MasterEvent};
pub use health::parse_http_url;
pub use host::{Query, QueryError, Reply};
pub use poller::{Action, Event, Stage, StatePoller};
pub use tracker::{CueKey, CueTracker, MasterTracker};
