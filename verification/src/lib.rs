//! Verified core of the funnel tunneling client and protocol.
#![allow(unused_imports)]

pub mod api;
pub mod auth;
pub mod client;
pub mod kind_name;
pub mod protocol;
pub mod relay;
pub mod strmap;
pub mod text;
pub mod tunnel;
