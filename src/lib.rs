//! Collects the running configuration of services from the `config`-tagged
//! GET endpoints that their API descriptions declare, and reshapes each
//! response under uniform key names.

mod outside;
pub mod naming;
pub mod select;
pub mod codec;
pub mod transform;
pub mod config;
pub mod laws;
