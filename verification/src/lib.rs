//! Decision logic of a captive-portal server: which clients are connected and
//! for how long, what a request for access, a pause or a purchase changes, how
//! the timer and the gateway's client list are reconciled, and the small text
//! rules used when files are served.

pub mod text;
pub mod table;
pub mod types;
pub mod client_timer;
pub mod rejection;
pub mod access;
pub mod credits;
pub mod codes;
pub mod extensions;
pub mod responders;
pub mod laws;
