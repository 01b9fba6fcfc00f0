//! A minimal remote-file-access service: a wire codec for framed protocol
//! messages, a path sandbox that keeps client paths inside a served root,
//! and the per-connection dispatch logic of the server and client.
use vstd::prelude::*;

pub mod browse;
pub mod codec;
pub mod handler;
pub mod protocol;
pub mod sandbox;

verus! {

/// Default TCP port the service listens on.
pub const PORT: u16 = 4949;

} // verus!
