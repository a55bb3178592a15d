//! A menu that binds itself to the nodes of a scene, wires their signals once,
//! and turns the signals that come back into commands of the application.
//!
//! The library holds the rules of that life cycle. Everything that touches the
//! engine is left to the caller: the library is handed what a scene lookup
//! found and what signals fired, and hands back which signals to connect and
//! which commands to raise.

pub mod handle;
pub mod key;
pub mod killplane;
pub mod laws;
pub mod main_menu;
pub mod menu;
pub mod player;
pub mod plugin;
pub mod readiness;
pub mod registry;
pub mod signal;
pub mod state;

pub use handle::NodeHandle;
pub use key::EventKey;
pub use menu::{MenuAssets, MenuGetSet, MenuView};
pub use plugin::MenuPlugin;
pub use readiness::{Phase, ReadinessTracker};
pub use registry::ButtonRegistry;
pub use signal::{Connection, SignalEvent, PRESSED};
pub use state::GameState;
