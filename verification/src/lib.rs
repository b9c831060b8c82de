//! aWay: username-based remote desktop. Signaling protocol, signaling server
//! state machine, TURN credentials, account store, and the client's frame
//! conversion and connection decisions.

pub mod text;
pub mod strmap;
pub mod protocol;
pub mod config;
pub mod turn;
pub mod users;
pub mod state;
pub mod ws;
pub mod signaling_laws;
pub mod convert;
pub mod engine;
pub mod engine_laws;
pub mod capture;
pub mod capture_laws;
pub mod decode;
pub mod signaling;
pub mod input;
pub mod forms;
pub mod convert_laws;
