//! A small key-value command server, as a library. A client sends request
//! lines such as `SET key value` or `GET key`; every request gets a reply that
//! ends with a line break.
//!
//! - [`text`]: white space, the split at the first space, quote stripping.
//! - [`command`]: the closed set of commands.
//! - [`store`]: the key-value store that one session owns.
//! - [`dispatch`]: what each command replies and does to the store, and the
//!   handling of one request line.
//! - [`session`]: one client connection as a state machine. The program
//!   around the library reads and writes; the session decides.
//! - [`laws`]: what holds of all of these together.

pub mod command;
pub mod dispatch;
pub mod laws;
pub mod session;
pub mod store;
pub mod text;
