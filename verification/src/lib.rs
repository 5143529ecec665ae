//! A binary ingestion protocol engine.
//!
//! Length-prefixed frames are pulled off a byte source, each frame holding
//! one message: a fixed header (authentication token, routing id,
//! millisecond timestamp) followed by an opaque payload.  A server
//! authenticates the token and routes the payload to the stream registered
//! under the id; a session drives the whole pipeline frame by frame and
//! tracks which ids were touched, so a caller can later finalize them.

pub mod codec;
pub mod message;
pub mod server;
pub mod session;
pub mod stream;
pub mod util;
pub mod wire;

pub use message::Message;
pub use server::Server;
pub use session::Session;
pub use stream::Stream;
pub use util::Void;
