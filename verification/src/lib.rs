//! Bridges a UDP control protocol ("OSC") and a publish/subscribe telemetry
//! protocol ("MQTT"): parameters first seen on an OSC address are announced to
//! a home-automation hub as entities, hub commands are translated back into
//! OSC messages, and every translation is specified and proved here.
//!
//! The crate holds the pure core of the bridge: value typing and the string
//! codec, entity derivation from an address, the discovery payload, the
//! address-to-entity registry, and the per-message step functions of the two
//! bridge loops. Transport (sockets, the broker connection) lives outside and
//! drives these functions.

pub mod bridge;
pub mod codec;
pub mod discovery;
pub mod entity;
pub mod numtext;
pub mod registry;
pub mod text;
pub mod value;
