//! A multiplexed request/reply transport core and an SDP attribute parser.
//!
//! The transport side covers the wire framing format, the incremental stream
//! decoder, the per-call correlation table, the per-kind handler registry and
//! the call-id generator; an asynchronous shell around this crate owns the
//! actual socket. The SDP side parses `a=` attribute lines into a typed
//! [`attributes::Attributes`] record.

pub mod attributes;
pub mod buffer;
pub mod correlation;
pub mod frame;
pub mod ids;
pub mod kind;
pub mod orient;
pub mod params;
pub mod registry;
pub mod rtp_value;
pub mod text;
pub mod transport;
