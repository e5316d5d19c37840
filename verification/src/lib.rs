//! The logic of Hydra, a TNC for the Mercury modem: what is said to the modem and understood of
//! its reports, the config, and what the window does about the user's actions. Sockets, files and
//! drawing are left to the program around it.

pub mod bandwidth;
pub mod config;
pub mod handshake;
pub mod layout;
pub mod message;
pub mod modem;
pub mod panel;
pub mod tab;
pub mod text;
pub mod wire;

pub use bandwidth::Bandwidth;
pub use config::HydraConfig;
pub use modem::Modem;
pub use panel::HydraState;
pub use tab::Tab;
