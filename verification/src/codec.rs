//! Selection of a wire codec and the operations bound to it.

use vstd::prelude::*;

use crate::server::Server;

verus! {

/// The wire codecs a deployment can run.
#[derive(Debug, PartialEq, Eq, Structural)]
pub enum Codec {
    /// The length-prefixed binary format of this crate.
    Binary,
}

/// What a deployment supplies to run one codec: the codec selection and the
/// server that consumes its messages.
pub trait Ops {
    /// The deployment-specific configuration data.
    type Data;

    /// The server driven by sessions of this deployment.
    type Server: Server;

    /// Which codec this deployment speaks.
    fn codec(&self) -> Codec;

    /// The server to drive.
    fn server(&self) -> Self::Server;
}

} // verus!
