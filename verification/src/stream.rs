//! Per-key stream sinks and the transactional routing-table lookup.

use vstd::prelude::*;

use crate::server;

verus! {

/// A per-routing-key sink for timestamped payloads.
///
/// The defining obligation of the interface is the round trip on a failed
/// finalize: `extract` consumes the stream, and on failure must hand the very
/// same stream back beside the error, so that no state is ever lost.
pub trait Stream: Sized {
    /// Why a push was refused.
    type PushErr;

    /// The finalized value a stream turns into.
    type Extract;

    /// Why finalizing failed.
    type ExtractErr;

    /// The observations this stream has accepted so far, in order: one
    /// `(millis, payload)` pair per successful push.
    spec fn observations(&self) -> Seq<(u64, Seq<u8>)>;

    /// Accept one timestamped payload.
    ///
    /// Only a successful push mutates the stream: a refused push leaves it
    /// exactly as it was.
    fn push(&mut self, millis: u64, payload: &[u8]) -> (r: Result<(), Self::PushErr>)
        ensures
            r is Ok ==> final(self).observations() == old(self).observations().push(
                (millis, payload@),
            ),
            r is Err ==> *final(self) == *old(self),
    ;

    /// Finalize the stream, consuming it.
    ///
    /// On success the stream no longer exists.  On failure the caller regains
    /// ownership of the original, unmodified stream beside the error.
    fn extract(self) -> (r: Result<Self::Extract, (Self, Self::ExtractErr)>)
        ensures
            r matches Err(p) ==> p.0 == self,
    ;
}

/// What a found stream finalized to, or why it would not finalize.
pub type FoundResult<S> = Result<<S as Stream>::Extract, <S as Stream>::ExtractErr>;

/// A routing table that can finalize one of its streams transactionally.
pub trait Finder {
    /// The stream type stored in the table.
    type Stream: Stream;

    /// The table's contents: routing key to stream.
    spec fn table(&self) -> Map<Seq<u8>, Self::Stream>;

    /// Remove the stream under `key`, finalize it, and reinsert it if
    /// finalizing fails.
    ///
    /// `None` is returned only for an absent key, and then the table is not
    /// touched.  After a successful extract the key is gone; after a failed
    /// one the table is exactly what it was before the call.
    fn extract(&mut self, key: &[u8]) -> (r: Option<FoundResult<Self::Stream>>)
        ensures
            r is None <==> !old(self).table().contains_key(key@),
            r is None ==> final(self).table() == old(self).table(),
            r matches Some(Ok(_)) ==> final(self).table() == old(self).table().remove(key@),
            r matches Some(Err(_)) ==> old(self).table().contains_key(key@) && final(self).table()
                == old(self).table(),
    ;
}

impl<V: Stream> Finder for server::Finder<V> {
    type Stream = V;

    open spec fn table(&self) -> Map<Seq<u8>, V> {
        self@
    }

    fn extract(&mut self, key: &[u8]) -> (r: Option<FoundResult<V>>) {
        match self.remove(key) {
            None => None,
            Some(stream) => match stream.extract() {
                Ok(value) => Some(Ok(value)),
                Err((stream, err)) => {
                    self.insert(vstd::slice::slice_to_vec(key), stream);
                    proof {
                        assert(self@ =~= old(self)@);
                    }
                    Some(Err(err))
                },
            },
        }
    }
}

} // verus!
