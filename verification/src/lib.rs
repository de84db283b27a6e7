//! Verified core of the Torwell84 Tor client: the decision logic, parsers and
//! bookkeeping that the desktop shell drives.

pub mod backoff;
pub mod commands;
pub mod cert_update;
pub mod error;
pub mod expiry;
pub mod frame_ring;
pub mod frames;
pub mod geo;
pub mod hsm;
pub mod http_policy;
pub mod isolation;
pub mod key_store;
pub mod logs;
pub mod monitor;
pub mod percentiles;
pub mod route;
pub mod session;
pub mod shader_index;
pub mod simd;
pub mod socks;
pub mod system_proxy;
pub mod tasks;
pub mod text;
pub mod timeline;
pub mod tor_settings;
pub mod transport;
pub mod workers;

use vstd::prelude::*;

verus! {

} // verus!
