//! The session driver: frames messages off a byte source, or replays an
//! already-materialized message sequence, feeds each message to a server,
//! and accumulates the set of ids that were successfully consumed.

use vstd::prelude::*;

use crate::message;
use crate::message::Message;
use crate::server::{consume_ok_post, ConsumeError, Server};
use crate::stream::Stream;
use crate::util::Void;
use crate::wire;

verus! {

broadcast use vstd::seq_lib::group_seq_properties;

/// Relies on `std::io::Error`: carried opaquely as the error a byte source
/// reports; this library never looks inside it.
#[verifier::external_type_specification]
#[verifier::external_body]
pub struct ExIoError(std::io::Error);

/// A blocking byte source.
///
/// One read hands back up to `n` bytes; an empty result signals a clean end
/// of input.  The input is finite: `remaining` is how many bytes the source
/// can still produce, and every byte handed out is accounted against it.
pub trait ByteSource {
    /// How many bytes this source can still produce.
    spec fn remaining(&self) -> nat;

    /// Read up to `n` bytes; a shorter result means the source could not
    /// produce more right now, and an empty one that the input has ended.
    fn read_up_to(&mut self, n: usize) -> (r: Result<Vec<u8>, std::io::Error>)
        ensures
            r matches Ok(v) ==> v@.len() <= n && final(self).remaining() + v@.len() == old(
                self,
            ).remaining(),
            r is Err ==> final(self).remaining() <= old(self).remaining(),
    ;
}

/// A byte source over an in-memory buffer: hands out its bytes from front to
/// back, then reports end of input.
pub struct SliceSource {
    data: Vec<u8>,
    pos: usize,
}

impl SliceSource {
    #[verifier::type_invariant]
    spec fn inv(self) -> bool {
        self.pos <= self.data@.len()
    }

    /// The bytes this source serves.
    pub closed spec fn spec_data(&self) -> Seq<u8> {
        self.data@
    }

    /// How many of them were already handed out.
    pub closed spec fn spec_pos(&self) -> nat {
        self.pos as nat
    }

    /// A source serving exactly `data`.
    pub fn new(data: Vec<u8>) -> (r: Self)
        ensures
            r.spec_data() == data@,
            r.spec_pos() == 0,
    {
        SliceSource { data, pos: 0 }
    }
}

impl ByteSource for SliceSource {
    open spec fn remaining(&self) -> nat {
        (self.spec_data().len() - self.spec_pos()) as nat
    }

    fn read_up_to(&mut self, n: usize) -> (r: Result<Vec<u8>, std::io::Error>) {
        proof {
            use_type_invariant(&*self);
        }
        let avail = self.data.len() - self.pos;
        let k = if n < avail {
            n
        } else {
            avail
        };
        let out = vstd::slice::slice_to_vec(
            vstd::slice::slice_subrange(self.data.as_slice(), self.pos, self.pos + k),
        );
        self.pos = self.pos + k;
        Ok(out)
    }
}

/// Why one framing step of a session produced no consumed id.
///
/// `Read` carries an I/O failure of the byte source.  The three
/// `*ByteMessageSize` variants report a frame-size prefix that was itself
/// truncated, `Truncated` a frame body shorter than its prefix declared,
/// `Parse` a body that was no well-formed message, and `Consume` a message
/// the server refused.
#[derive(Debug)]
pub enum Error<A, P> {
    Read(std::io::Error),
    OneByteMessageSize,
    TwoByteMessageSize,
    ThreeByteMessageSize,
    Truncated { found: u32, remaining: u32 },
    Parse(message::Error<Void>),
    Consume(ConsumeError<A, P>),
}

impl<A, P> From<std::io::Error> for Error<A, P> {
    fn from(e: std::io::Error) -> (r: Self) {
        Error::Read(e)
    }
}

impl<A, P> vstd::std_specs::convert::FromSpecImpl<std::io::Error> for Error<A, P> {
    open spec fn obeys_from_spec() -> bool {
        true
    }

    open spec fn from_spec(e: std::io::Error) -> Self {
        Error::Read(e)
    }
}

impl<A, P> From<message::Error<Void>> for Error<A, P> {
    fn from(e: message::Error<Void>) -> (r: Self) {
        Error::Parse(e)
    }
}

impl<A, P> vstd::std_specs::convert::FromSpecImpl<message::Error<Void>> for Error<A, P> {
    open spec fn obeys_from_spec() -> bool {
        true
    }

    open spec fn from_spec(e: message::Error<Void>) -> Self {
        Error::Parse(e)
    }
}

impl<A, P> From<ConsumeError<A, P>> for Error<A, P> {
    fn from(e: ConsumeError<A, P>) -> (r: Self) {
        Error::Consume(e)
    }
}

impl<A, P> vstd::std_specs::convert::FromSpecImpl<ConsumeError<A, P>> for Error<A, P> {
    open spec fn obeys_from_spec() -> bool {
        true
    }

    open spec fn from_spec(e: ConsumeError<A, P>) -> Self {
        Error::Consume(e)
    }
}

/// Interpret what reading the 4-byte frame-size prefix returned.
///
/// An empty read ends the sequence cleanly; a 1-, 2- or 3-byte read is the
/// matching truncated-prefix error; a full 4-byte read is the declared frame
/// size.
pub fn classify_prefix<A, P>(got: &Vec<u8>) -> (r: Option<Result<u32, Error<A, P>>>)
    requires
        got@.len() <= 4,
    ensures
        got@.len() == 0 ==> r is None,
        got@.len() == 1 ==> r == Some(Err::<u32, Error<A, P>>(Error::OneByteMessageSize)),
        got@.len() == 2 ==> r == Some(Err::<u32, Error<A, P>>(Error::TwoByteMessageSize)),
        got@.len() == 3 ==> r == Some(Err::<u32, Error<A, P>>(Error::ThreeByteMessageSize)),
        got@.len() == 4 ==> r == Some(Ok::<u32, Error<A, P>>(wire::be32(got@))),
{
    let n = got.len();
    if n == 0 {
        None
    } else if n == 1 {
        Some(Err(Error::OneByteMessageSize))
    } else if n == 2 {
        Some(Err(Error::TwoByteMessageSize))
    } else if n == 3 {
        Some(Err(Error::ThreeByteMessageSize))
    } else {
        proof {
            assert(got@.subrange(0, 4) =~= got@);
        }
        Some(Ok(wire::be32_at(got.as_slice(), 0)))
    }
}

/// Interpret what reading a frame body declared to hold `size` bytes
/// returned: the body itself if it is complete, else the exact deficit.
pub fn classify_body<A, P>(got: Vec<u8>, size: u32) -> (r: Result<Vec<u8>, Error<A, P>>)
    requires
        got@.len() <= size,
    ensures
        got@.len() == size ==> (r matches Ok(b) && b@ == got@),
        got@.len() < size ==> r == Err::<Vec<u8>, Error<A, P>>(
            Error::Truncated { found: got@.len() as u32, remaining: (size - got@.len()) as u32 },
        ),
{
    let found = got.len() as u32;
    if found < size {
        Err(Error::Truncated { found, remaining: size - found })
    } else {
        Ok(got)
    }
}

/// Whether `post` is `pre` after one successful consume of a message
/// carrying the id `id`: some granted token's table held a stream under
/// `id`, and that stream accepted exactly one observation.
pub open spec fn consumed_one<Sv: Server>(pre: Sv, post: Sv, id: Seq<u8>) -> bool {
    exists|tok: Seq<u8>, ms: u64, pl: Seq<u8>|
        #![auto]
        consume_ok_post::<Sv>(pre, post, tok, id, ms, pl)
}

/// The views of a list of byte strings.
pub open spec fn views_of(s: Seq<Vec<u8>>) -> Seq<Seq<u8>> {
    s.map_values(|v: Vec<u8>| v@)
}

/// Whether a list of byte strings holds no byte string twice.
pub open spec fn distinct_views(s: Seq<Vec<u8>>) -> bool {
    forall|i: int, j: int| 0 <= i < j < s.len() ==> s[i]@ != s[j]@
}

/// Whether `x` occurs in `list`.
fn contains_bytes(list: &Vec<Vec<u8>>, x: &[u8]) -> (r: bool)
    ensures
        r <==> views_of(list@).to_set().contains(x@),
{
    let n = list.len();
    let mut i: usize = 0;
    while i < n
        invariant
            n == list@.len(),
            i <= n,
            forall|j: int| 0 <= j < i ==> list@[j]@ != x@,
        decreases n - i,
    {
        if wire::bytes_eq(list[i].as_slice(), x) {
            proof {
                assert(views_of(list@)[i as int] == x@);
            }
            return true;
        }
        i = i + 1;
    }
    proof {
        assert forall|k: int| 0 <= k < views_of(list@).len() implies views_of(list@)[k] != x@ by {
            assert(views_of(list@)[k] == list@[k]@);
        }
    }
    false
}

/// Views are determined by views: two lists that read the same are both
/// duplicate-free or neither is.
proof fn lemma_views_distinct(a: Seq<Vec<u8>>, b: Seq<Vec<u8>>)
    requires
        views_of(a) == views_of(b),
        distinct_views(b),
    ensures
        distinct_views(a),
{
    assert(views_of(a).len() == a.len());
    assert(views_of(b).len() == b.len());
    assert(a.len() == b.len());
    assert forall|i: int, j: int| 0 <= i < j < a.len() implies a[i]@ != a[j]@ by {
        assert(views_of(a)[i] == a[i]@ && views_of(a)[j] == a[j]@);
        assert(views_of(b)[i] == b[i]@ && views_of(b)[j] == b[j]@);
    }
}

/// Record `id` as touched, keeping the list duplicate-free.
fn record(touched: &mut Vec<Vec<u8>>, id: &[u8])
    requires
        distinct_views(old(touched)@),
    ensures
        distinct_views(final(touched)@),
        views_of(final(touched)@).to_set() == views_of(old(touched)@).to_set().insert(id@),
{
    if !contains_bytes(touched, id) {
        touched.push(vstd::slice::slice_to_vec(id));
        proof {
            let s0 = old(touched)@;
            let s1 = touched@;
            assert(views_of(s1) =~= views_of(s0).push(id@));
            assert forall|i: int, j: int| 0 <= i < j < s1.len() implies s1[i]@ != s1[j]@ by {
                if j == s1.len() - 1 {
                    assert(views_of(s0)[i] == s0[i]@);
                    assert(views_of(s0).contains(s0[i]@));
                    assert(views_of(s0).to_set().contains(s0[i]@));
                }
            }
            assert(views_of(s1).to_set() =~= views_of(s0).to_set().insert(id@));
        }
    } else {
        proof {
            assert(views_of(touched@).to_set() =~= views_of(touched@).to_set().insert(id@));
        }
    }
}

/// Copy a list of byte strings.
fn copy_ids(list: &Vec<Vec<u8>>) -> (r: Vec<Vec<u8>>)
    ensures
        views_of(r@) == views_of(list@),
{
    let n = list.len();
    let mut out: Vec<Vec<u8>> = Vec::new();
    let mut i: usize = 0;
    while i < n
        invariant
            n == list@.len(),
            i <= n,
            out@.len() == i,
            forall|k: int| 0 <= k < i ==> out@[k]@ == list@[k]@,
        decreases n - i,
    {
        out.push(vstd::slice::slice_to_vec(list[i].as_slice()));
        i = i + 1;
    }
    proof {
        assert forall|k: int| 0 <= k < n implies views_of(out@)[k] == views_of(list@)[k] by {
            assert(views_of(out@)[k] == out@[k]@ && views_of(list@)[k] == list@[k]@);
        }
        assert(views_of(out@) =~= views_of(list@));
    }
    out
}

/// The byte-stream session: pulls length-prefixed frames off a byte source,
/// parses each as a message, drives the server, and remembers every id that
/// was consumed successfully.
pub struct Session<S, R> {
    server: S,
    source: R,
    touched: Vec<Vec<u8>>,
}

impl<S, R> Session<S, R> {
    /// The server this session drives.
    pub closed spec fn spec_server(&self) -> S {
        self.server
    }

    /// The byte source this session reads.
    pub closed spec fn spec_source(&self) -> R {
        self.source
    }

    /// The ids consumed successfully so far.
    pub closed spec fn ids(&self) -> Set<Seq<u8>> {
        views_of(self.touched@).to_set()
    }

    /// The touched-id list holds no id twice.
    pub closed spec fn wf(&self) -> bool {
        distinct_views(self.touched@)
    }

    /// A session over `reader`, driving `server`, with nothing consumed yet.
    pub fn new(server: S, reader: R) -> (r: Self)
        ensures
            r.wf(),
            r.spec_server() == server,
            r.spec_source() == reader,
            r.ids() == Set::<Seq<u8>>::empty(),
    {
        let r = Session { server, source: reader, touched: Vec::new() };
        proof {
            assert(r.ids() =~= Set::<Seq<u8>>::empty());
        }
        r
    }

    /// Give the server back, ending the session.
    pub fn into_server(self) -> (r: S)
        ensures
            r == self.spec_server(),
    {
        self.server
    }
}

impl<S: Server, R: ByteSource> Session<S, R> {
    /// Advance by one frame.
    ///
    /// `None` means the input ended cleanly before this frame.  Otherwise
    /// the outcome of this frame is produced: the consumed id, or exactly
    /// one error.  Only a successfully consumed id is recorded.
    pub fn next(&mut self) -> (r: Option<
        Result<Vec<u8>, Error<S::AuthErr, <S::Stream as Stream>::PushErr>>,
    >)
        requires
            old(self).wf(),
        ensures
            final(self).wf(),
            final(self).spec_source().remaining() <= old(self).spec_source().remaining(),
            forall|t: Seq<u8>|
                final(self).spec_server().grants(t) == old(self).spec_server().grants(t),
            r matches Some(x) ==> (x matches Err(e) && e is Read)
                || final(self).spec_source().remaining() < old(self).spec_source().remaining(),
            r is None ==> final(self).spec_server() == old(self).spec_server() && final(self).ids()
                == old(self).ids(),
            r matches Some(Err(e)) ==> final(self).ids() == old(self).ids() && (e is Consume
                || final(self).spec_server() == old(self).spec_server()),
            r matches Some(Ok(id)) ==> final(self).ids() == old(self).ids().insert(id@)
                && consumed_one::<S>(old(self).spec_server(), final(self).spec_server(), id@),
    {
        let prefix = match self.source.read_up_to(4) {
            Err(e) => { return Some(Err(Error::Read(e))) },
            Ok(v) => v,
        };
        let size = match classify_prefix(&prefix) {
            None => { return None },
            Some(Err(e)) => { return Some(Err(e)) },
            Some(Ok(size)) => size,
        };
        let body = match self.source.read_up_to(size as usize) {
            Err(e) => { return Some(Err(Error::Read(e))) },
            Ok(v) => v,
        };
        let body = match classify_body(body, size) {
            Err(e) => { return Some(Err(e)) },
            Ok(b) => b,
        };
        let msg = match Message::<Vec<u8>>::parse(body.as_slice()) {
            Err(e) => { return Some(Err(Error::Parse(e))) },
            Ok(m) => m,
        };
        let id = vstd::slice::slice_to_vec(msg.header.id.as_slice());
        let ghost gtok = msg.header.token@;
        let ghost gms = msg.header.millis;
        let ghost gpl = msg.payload@;
        match self.server.consume(msg) {
            Err(e) => Some(Err(Error::Consume(e))),
            Ok(()) => {
                record(&mut self.touched, id.as_slice());
                proof {
                    assert(consume_ok_post::<S>(
                        old(self).spec_server(),
                        self.spec_server(),
                        gtok,
                        id@,
                        gms,
                        gpl,
                    ));
                    assert(consumed_one::<S>(old(self).spec_server(), self.spec_server(), id@));
                }
                Some(Ok(id))
            },
        }
    }

    /// Drain whatever frames are still in the input, then return the set of
    /// ids consumed successfully over the whole session, duplicate-free.
    ///
    /// Draining stops at a clean end of input or on an I/O error; it is safe
    /// to call this again, and on an already-drained session it simply
    /// returns the same set.
    pub fn ids_to_extract(&mut self) -> (r: Vec<Vec<u8>>)
        requires
            old(self).wf(),
        ensures
            final(self).wf(),
            views_of(r@).to_set() == final(self).ids(),
            distinct_views(r@),
            old(self).ids().subset_of(final(self).ids()),
            forall|t: Seq<u8>|
                final(self).spec_server().grants(t) == old(self).spec_server().grants(t),
    {
        loop
            invariant
                self.wf(),
                old(self).ids().subset_of(self.ids()),
                forall|t: Seq<u8>|
                    self.spec_server().grants(t) == old(self).spec_server().grants(t),
            decreases self.spec_source().remaining(),
        {
            match self.next() {
                None => { break },
                Some(Err(Error::Read(_))) => { break },
                Some(_) => {},
            }
        }
        let r = copy_ids(&self.touched);
        proof {
            lemma_views_distinct(r@, self.touched@);
        }
        r
    }
}

/// The replay session: drives the server over an already-materialized,
/// finite message sequence, front to back, recording touched ids exactly as
/// the byte-stream session does.  No framing or truncation error can occur
/// in this mode, only consume errors.
pub struct MessageSession<S> {
    server: S,
    messages: Vec<Message<Vec<u8>>>,
    touched: Vec<Vec<u8>>,
}

impl<S> MessageSession<S> {
    /// The server this session drives.
    pub closed spec fn spec_server(&self) -> S {
        self.server
    }

    /// The messages not yet driven.
    pub closed spec fn msgs(&self) -> Seq<Message<Vec<u8>>> {
        self.messages@
    }

    /// The ids consumed successfully so far.
    pub closed spec fn ids(&self) -> Set<Seq<u8>> {
        views_of(self.touched@).to_set()
    }

    /// The touched-id list holds no id twice.
    pub closed spec fn wf(&self) -> bool {
        distinct_views(self.touched@)
    }

    /// A session that will drive `server` over `messages`.
    pub fn new(server: S, messages: Vec<Message<Vec<u8>>>) -> (r: Self)
        ensures
            r.wf(),
            r.spec_server() == server,
            r.msgs() == messages@,
            r.ids() == Set::<Seq<u8>>::empty(),
    {
        let r = MessageSession { server, messages, touched: Vec::new() };
        proof {
            assert(r.ids() =~= Set::<Seq<u8>>::empty());
        }
        r
    }

    /// Give the server back, ending the session.
    pub fn into_server(self) -> (r: S)
        ensures
            r == self.spec_server(),
    {
        self.server
    }
}

impl<S: Server> MessageSession<S> {
    /// Drive the next message, if one is left.
    ///
    /// The outcome mirrors one `consume` call: the consumed id, or the
    /// consume error; a successfully consumed id is recorded.
    pub fn next(&mut self) -> (r: Option<
        Result<Vec<u8>, ConsumeError<S::AuthErr, <S::Stream as Stream>::PushErr>>,
    >)
        requires
            old(self).wf(),
        ensures
            final(self).wf(),
            forall|t: Seq<u8>|
                final(self).spec_server().grants(t) == old(self).spec_server().grants(t),
            old(self).msgs().len() == 0 ==> r is None && *final(self) == *old(self),
            old(self).msgs().len() > 0 ==> r is Some && final(self).msgs() == old(
                self).msgs().drop_first(),
            r matches Some(Ok(id)) ==> id@ == old(self).msgs()[0].header.id@ && final(self).ids()
                == old(self).ids().insert(id@) && consume_ok_post::<S>(
                old(self).spec_server(),
                final(self).spec_server(),
                old(self).msgs()[0].header.token@,
                old(self).msgs()[0].header.id@,
                old(self).msgs()[0].header.millis,
                old(self).msgs()[0].payload@,
            ),
            r matches Some(Err(e)) ==> final(self).ids() == old(self).ids()
                && final(self).spec_server().table(old(self).msgs()[0].header.token@)
                == old(self).spec_server().table(old(self).msgs()[0].header.token@)
                && crate::server::consume_err_post::<S>(
                old(self).spec_server(),
                old(self).msgs()[0].header.token@,
                old(self).msgs()[0].header.id@,
                e,
            ),
    {
        if self.messages.len() == 0 {
            return None;
        }
        let msg = self.messages.remove(0);
        let id = vstd::slice::slice_to_vec(msg.header.id.as_slice());
        match self.server.consume(msg) {
            Err(e) => Some(Err(e)),
            Ok(()) => {
                record(&mut self.touched, id.as_slice());
                Some(Ok(id))
            },
        }
    }

    /// Drive every message still in the sequence, then return the set of
    /// ids consumed successfully over the whole session, duplicate-free.
    ///
    /// The result is the same whether the caller already drained the
    /// sequence by hand or lets this drain the remainder; on an
    /// already-drained session the session is left untouched.
    pub fn ids_to_extract(&mut self) -> (r: Vec<Vec<u8>>)
        requires
            old(self).wf(),
        ensures
            final(self).wf(),
            final(self).msgs().len() == 0,
            views_of(r@).to_set() == final(self).ids(),
            distinct_views(r@),
            old(self).ids().subset_of(final(self).ids()),
            forall|t: Seq<u8>|
                final(self).spec_server().grants(t) == old(self).spec_server().grants(t),
            old(self).msgs().len() == 0 ==> *final(self) == *old(self),
    {
        while self.messages.len() != 0
            invariant
                self.wf(),
                old(self).ids().subset_of(self.ids()),
                forall|t: Seq<u8>|
                    self.spec_server().grants(t) == old(self).spec_server().grants(t),
                old(self).msgs().len() == 0 ==> *self == *old(self),
            decreases self.msgs().len(),
        {
            let _ = self.next();
        }
        let r = copy_ids(&self.touched);
        proof {
            lemma_views_distinct(r@, self.touched@);
        }
        r
    }
}

} // verus!
