//! The logic of a host that runs WebAssembly components.
//!
//! A component gets no ambient authority. It may import the functions of a closed
//! set, each bound to an ability that says what it may be used for and how much
//! ([`ability`]). Who answers a call is decided in [`protocol`] and [`run`]; the
//! resident host answers from a session over loopback HTTP and an append-only log
//! ([`effects`], [`endpoint`], [`storage`], [`transaction`]). It is configured
//! from pinned files ([`config`]), is asked over HTTP ([`http`]), and tells every
//! run in a signed receipt ([`resident`], [`seal`]).
//!
//! What these operations promise, each by itself and one after another, is stated
//! and proved in [`laws`].
//!
//! The engine, the sockets and the files are used by the program around this
//! library, which hands over plain values and takes plain values back.

pub mod ability;
pub mod clock;
pub mod config;
pub mod effects;
pub mod endpoint;
pub mod engine;
pub mod error;
pub mod http;
pub mod json;
pub mod laws;
pub mod number;
pub mod protocol;
pub mod resident;
pub mod run;
pub mod seal;
pub mod storage;
pub mod text;
pub mod transaction;
pub mod value;
