//! Authentication, the routing table, and the message dispatcher.

use vstd::prelude::*;

use crate::message::Message;
use crate::stream::Stream;
use crate::wire;

verus! {

/// Why authentication failed: the token itself was not accepted, or the
/// collaborator behind `auth` failed (a backing credential store, say).
#[derive(Debug)]
pub enum AuthError<E> {
    InvalidToken,
    Other(E),
}

impl<E> From<E> for AuthError<E> {
    fn from(e: E) -> (r: Self) {
        AuthError::Other(e)
    }
}

impl<E> vstd::std_specs::convert::FromSpecImpl<E> for AuthError<E> {
    open spec fn obeys_from_spec() -> bool {
        true
    }

    open spec fn from_spec(e: E) -> Self {
        AuthError::Other(e)
    }
}

/// Why one message could not be consumed: authentication failed, no stream is
/// registered under the message's id, or the stream refused the push.
#[derive(Debug)]
pub enum ConsumeError<A, P> {
    Auth(AuthError<A>),
    MissingId,
    Push(P),
}

impl<A, P> From<AuthError<A>> for ConsumeError<A, P> {
    fn from(e: AuthError<A>) -> (r: Self) {
        ConsumeError::Auth(e)
    }
}

impl<A, P> vstd::std_specs::convert::FromSpecImpl<AuthError<A>> for ConsumeError<A, P> {
    open spec fn obeys_from_spec() -> bool {
        true
    }

    open spec fn from_spec(e: AuthError<A>) -> Self {
        ConsumeError::Auth(e)
    }
}

/// Whether two entries of a routing table carry the same key.
spec fn distinct_keys<S>(s: Seq<(Vec<u8>, S)>) -> bool {
    forall|i: int, j: int| 0 <= i < j < s.len() ==> s[i].0@ != s[j].0@
}

/// Whether some entry of `s` carries the key `k`.
spec fn has_entry<S>(s: Seq<(Vec<u8>, S)>, k: Seq<u8>) -> bool {
    exists|i: int| 0 <= i < s.len() && s[i].0@ == k
}

/// The index of the entry of `s` carrying the key `k`.
spec fn entry_index<S>(s: Seq<(Vec<u8>, S)>, k: Seq<u8>) -> int {
    choose|i: int| 0 <= i < s.len() && s[i].0@ == k
}

/// The entries of `s` read as a map from key to stream.
spec fn map_of<S>(s: Seq<(Vec<u8>, S)>) -> Map<Seq<u8>, S> {
    Map::new(|k: Seq<u8>| has_entry(s, k), |k: Seq<u8>| s[entry_index(s, k)].1)
}

/// With distinct keys, entry `i` is the one the map reads for its key.
proof fn lemma_entry_at<S>(s: Seq<(Vec<u8>, S)>, i: int)
    requires
        distinct_keys(s),
        0 <= i < s.len(),
    ensures
        has_entry(s, s[i].0@),
        entry_index(s, s[i].0@) == i,
        map_of(s).contains_key(s[i].0@),
        map_of(s)[s[i].0@] == s[i].1,
{
    assert(has_entry(s, s[i].0@));
    let j = entry_index(s, s[i].0@);
    assert(0 <= j < s.len() && s[j].0@ == s[i].0@);
    if i < j {
        assert(false);
    }
    if j < i {
        assert(false);
    }
}

/// Removing entry `i` removes exactly its key from the map.
proof fn lemma_map_remove<S>(s: Seq<(Vec<u8>, S)>, i: int)
    requires
        distinct_keys(s),
        0 <= i < s.len(),
    ensures
        distinct_keys(s.remove(i)),
        map_of(s.remove(i)) == map_of(s).remove(s[i].0@),
{
    let t = s.remove(i);
    let k0 = s[i].0@;
    assert(t.len() == s.len() - 1);
    assert forall|a: int| 0 <= a < t.len() implies t[a] == (if a < i {
        s[a]
    } else {
        s[a + 1]
    }) by {}
    assert forall|a: int, b: int| 0 <= a < b < t.len() implies t[a].0@ != t[b].0@ by {
        let a2 = if a < i { a } else { a + 1 };
        let b2 = if b < i { b } else { b + 1 };
        assert(t[a] == s[a2] && t[b] == s[b2] && a2 < b2);
    }
    assert forall|k: Seq<u8>| #[trigger] map_of(t).contains_key(k) implies map_of(s).remove(
        k0,
    ).contains_key(k) && map_of(t)[k] == map_of(s).remove(k0)[k] by {
        let a = entry_index(t, k);
        assert(0 <= a < t.len() && t[a].0@ == k);
        let a2 = if a < i { a } else { a + 1 };
        assert(t[a] == s[a2]);
        lemma_entry_at(s, a2);
        lemma_entry_at(t, a);
        assert(a2 != i);
        if a2 < i {
            assert(s[a2].0@ != s[i].0@);
        } else {
            assert(s[i].0@ != s[a2].0@);
        }
        assert(k != k0);
    }
    assert forall|k: Seq<u8>| #[trigger] map_of(s).remove(k0).contains_key(k) implies map_of(
        t,
    ).contains_key(k) by {
        let a = entry_index(s, k);
        assert(0 <= a < s.len() && s[a].0@ == k);
        assert(a != i);
        let a2 = if a < i { a } else { a - 1 };
        assert(t[a2] == s[a]);
        assert(has_entry(t, k));
    }
    assert(map_of(t) =~= map_of(s).remove(k0));
}

/// Appending an entry with a fresh key inserts exactly that key.
proof fn lemma_map_push<S>(s: Seq<(Vec<u8>, S)>, e: (Vec<u8>, S))
    requires
        distinct_keys(s),
        !has_entry(s, e.0@),
    ensures
        distinct_keys(s.push(e)),
        map_of(s.push(e)) == map_of(s).insert(e.0@, e.1),
{
    let t = s.push(e);
    let k0 = e.0@;
    assert forall|a: int, b: int| 0 <= a < b < t.len() implies t[a].0@ != t[b].0@ by {
        if b == s.len() {
            assert(t[a] == s[a]);
            if s[a].0@ == k0 {
                assert(has_entry(s, k0));
            }
        } else {
            assert(t[a] == s[a] && t[b] == s[b]);
        }
    }
    assert forall|k: Seq<u8>| #[trigger] map_of(t).contains_key(k) implies map_of(s).insert(
        k0,
        e.1,
    ).contains_key(k) && map_of(t)[k] == map_of(s).insert(k0, e.1)[k] by {
        let a = entry_index(t, k);
        assert(0 <= a < t.len() && t[a].0@ == k);
        lemma_entry_at(t, a);
        if a == s.len() {
            assert(k == k0 && map_of(t)[k] == e.1);
        } else {
            assert(t[a] == s[a]);
            lemma_entry_at(s, a);
            if k == k0 {
                assert(has_entry(s, k0));
            }
            assert(k != k0);
        }
    }
    assert forall|k: Seq<u8>| #[trigger] map_of(s).insert(k0, e.1).contains_key(k) implies map_of(
        t,
    ).contains_key(k) by {
        if k == k0 {
            assert(t[s.len() as int].0@ == k0);
            assert(has_entry(t, k0));
        } else {
            let a = entry_index(s, k);
            assert(0 <= a < s.len() && s[a].0@ == k);
            assert(t[a].0@ == k);
            assert(has_entry(t, k));
        }
    }
    assert(map_of(t) =~= map_of(s).insert(k0, e.1));
}

/// The routing table: a map from opaque byte keys to streams, with unique
/// keys.  Entries are provisioned by the collaborator and removed or
/// reinserted by the transactional extract.
pub struct Finder<S> {
    entries: Vec<(Vec<u8>, S)>,
}

impl<S> View for Finder<S> {
    type V = Map<Seq<u8>, S>;

    closed spec fn view(&self) -> Map<Seq<u8>, S> {
        map_of(self.entries@)
    }
}

impl<S> Finder<S> {
    #[verifier::type_invariant]
    spec fn inv(self) -> bool {
        distinct_keys(self.entries@)
    }

    /// An empty routing table.
    pub fn new() -> (r: Self)
        ensures
            r@ == Map::<Seq<u8>, S>::empty(),
    {
        let r = Finder { entries: Vec::new() };
        proof {
            assert(r@ =~= Map::<Seq<u8>, S>::empty());
        }
        r
    }

    /// The index of the entry carrying `key`, if one exists.
    fn find_index(&self, key: &[u8]) -> (r: Option<usize>)
        ensures
            r matches Some(i) ==> i < self.entries@.len() && self.entries@[i as int].0@ == key@,
            r is None ==> !has_entry(self.entries@, key@),
    {
        let n = self.entries.len();
        let mut i: usize = 0;
        while i < n
            invariant
                n == self.entries@.len(),
                i <= n,
                forall|j: int| 0 <= j < i ==> self.entries@[j].0@ != key@,
            decreases n - i,
        {
            if wire::bytes_eq(self.entries[i].0.as_slice(), key) {
                return Some(i);
            }
            i = i + 1;
        }
        None
    }

    /// Whether a stream is registered under `key`.
    pub fn contains_id(&self, key: &[u8]) -> (r: bool)
        ensures
            r == self@.contains_key(key@),
    {
        proof {
            use_type_invariant(&*self);
        }
        match self.find_index(key) {
            Some(i) => {
                proof {
                    lemma_entry_at(self.entries@, i as int);
                }
                true
            },
            None => false,
        }
    }

    /// The stream registered under `key`, if any.
    pub fn get(&self, key: &[u8]) -> (r: Option<&S>)
        ensures
            r matches Some(s) ==> self@.contains_key(key@) && *s == self@[key@],
            r is None ==> !self@.contains_key(key@),
    {
        proof {
            use_type_invariant(&*self);
        }
        match self.find_index(key) {
            Some(i) => {
                proof {
                    lemma_entry_at(self.entries@, i as int);
                }
                Some(&self.entries[i].1)
            },
            None => None,
        }
    }

    /// Remove and return the stream registered under `key`; the table is not
    /// touched when the key is absent.
    pub fn remove(&mut self, key: &[u8]) -> (r: Option<S>)
        ensures
            r matches Some(s) ==> old(self)@.contains_key(key@) && s == old(self)@[key@]
                && final(self)@ == old(self)@.remove(key@),
            r is None ==> !old(self)@.contains_key(key@) && *final(self) == *old(self),
    {
        proof {
            use_type_invariant(&*self);
        }
        match self.find_index(key) {
            None => None,
            Some(i) => {
                proof {
                    lemma_entry_at(old(self).entries@, i as int);
                    lemma_map_remove(old(self).entries@, i as int);
                }
                let mut entries: Vec<(Vec<u8>, S)> = Vec::new();
                std::mem::swap(&mut entries, &mut self.entries);
                let (_removed_key, stream) = entries.remove(i);
                self.entries = entries;
                Some(stream)
            },
        }
    }

    /// Register `value` under `key`, returning the stream previously there,
    /// if any.
    pub fn insert(&mut self, key: Vec<u8>, value: S) -> (r: Option<S>)
        ensures
            final(self)@ == old(self)@.insert(key@, value),
            r matches Some(s) ==> old(self)@.contains_key(key@) && s == old(self)@[key@],
            r is None ==> !old(self)@.contains_key(key@),
    {
        let ghost gk = key@;
        let ghost gv = value;
        let prev = self.remove(key.as_slice());
        proof {
            use_type_invariant(&*self);
            assert(!self@.contains_key(gk));
            assert(!has_entry(self.entries@, gk));
            lemma_map_push(self.entries@, (key, value));
        }
        let mut entries: Vec<(Vec<u8>, S)> = Vec::new();
        std::mem::swap(&mut entries, &mut self.entries);
        entries.push((key, value));
        self.entries = entries;
        proof {
            assert(self@ =~= old(self)@.insert(gk, gv));
        }
        prev
    }
}

/// The outcome of authenticating a token: the routing table scoped to it, or
/// the reason the token was refused.
pub type AuthResult<S, A> = Result<Finder<S>, AuthError<A>>;

/// The outcome of consuming one message.
pub type ConsumeResult<A, P> = Result<(), ConsumeError<A, P>>;

/// Look `id` up in the routing table and push one observation onto the
/// stream found there.
///
/// The table afterwards holds exactly the keys it held before; only the
/// stream under `id`, and only on a successful push, is changed.
pub fn dispatch<S: Stream, A>(finder: &mut Finder<S>, id: &[u8], millis: u64, payload: &[u8]) -> (r:
    ConsumeResult<A, S::PushErr>)
    ensures
        r is Ok ==> old(finder)@.contains_key(id@) && (exists|s: S|
            #![auto]
            final(finder)@ == old(finder)@.insert(id@, s) && s.observations() == old(
                finder,
            )@[id@].observations().push((millis, payload@))),
        r matches Err(e) ==> final(finder)@ == old(finder)@ && match e {
            ConsumeError::Auth(_) => false,
            ConsumeError::MissingId => !old(finder)@.contains_key(id@),
            ConsumeError::Push(_) => old(finder)@.contains_key(id@),
        },
{
    match finder.remove(id) {
        None => Err(ConsumeError::MissingId),
        Some(mut stream) => {
            let pushed = stream.push(millis, payload);
            let ghost gs = stream;
            finder.insert(vstd::slice::slice_to_vec(id), stream);
            proof {
                if pushed is Err {
                    assert(finder@ =~= old(finder)@);
                } else {
                    assert(finder@ =~= old(finder)@.insert(id@, gs));
                    assert(gs.observations() == old(finder)@[id@].observations().push(
                        (millis, payload@),
                    ));
                }
            }
            match pushed {
                Ok(()) => Ok(()),
                Err(e) => Err(ConsumeError::Push(e)),
            }
        },
    }
}

/// Whether consuming one message succeeded against `pre`, leaving `post`:
/// the token was granted, a stream was registered under `id`, and exactly
/// one observation `(millis, payload)` was appended to that stream.
pub open spec fn consume_ok_post<Sv: Server>(
    pre: Sv,
    post: Sv,
    token: Seq<u8>,
    id: Seq<u8>,
    millis: u64,
    payload: Seq<u8>,
) -> bool {
    &&& pre.grants(token)
    &&& pre.table(token).contains_key(id)
    &&& exists|s: Sv::Stream|
        #![auto]
        post.table(token) == pre.table(token).insert(id, s) && s.observations() == pre.table(
            token,
        )[id].observations().push((millis, payload))
}

/// What each consume error says of the server `pre` it was returned by.
pub open spec fn consume_err_post<Sv: Server>(
    pre: Sv,
    token: Seq<u8>,
    id: Seq<u8>,
    e: ConsumeError<Sv::AuthErr, <Sv::Stream as Stream>::PushErr>,
) -> bool {
    match e {
        ConsumeError::Auth(a) => a is InvalidToken ==> !pre.grants(token),
        ConsumeError::MissingId => pre.grants(token) && !pre.table(token).contains_key(id),
        ConsumeError::Push(_) => pre.grants(token) && pre.table(token).contains_key(id),
    }
}

/// The dispatcher: authenticates a message's token, looks its id up in the
/// routing table the token is scoped to, and pushes the payload onto the
/// stream found there.
///
/// `auth` hands the routing table out by value and `restore` takes it back;
/// a `consume` call always pairs the two.  Which tokens are granted, and
/// which table each token sees, is the implementor's policy, abstracted by
/// the `grants` and `table` spec functions.
pub trait Server: Sized {
    /// The stream type the routing table holds.
    type Stream: Stream;

    /// The collaborator-specific authentication failure.
    type AuthErr;

    /// Whether this server accepts `token`.
    spec fn grants(&self, token: Seq<u8>) -> bool;

    /// The contents of the routing table scoped to `token`.
    spec fn table(&self, token: Seq<u8>) -> Map<Seq<u8>, Self::Stream>;

    /// Authenticate `token`; on success, surrender the routing table scoped
    /// to it.
    ///
    /// `InvalidToken` is returned only for a token this server does not
    /// grant; `Other` reports a collaborator failure and leaves the table
    /// untouched.
    fn auth(&mut self, token: &[u8]) -> (r: AuthResult<Self::Stream, Self::AuthErr>)
        ensures
            r matches Ok(f) ==> old(self).grants(token@) && f@ == old(self).table(token@),
            r matches Err(e) && e is InvalidToken ==> !old(self).grants(token@),
            r is Err ==> final(self).table(token@) == old(self).table(token@),
            forall|t: Seq<u8>| final(self).grants(t) == old(self).grants(t),
    ;

    /// Hand the routing table scoped to `token` back after a dispatch.
    fn restore(&mut self, token: &[u8], finder: Finder<Self::Stream>)
        ensures
            final(self).table(token@) == finder@,
            forall|t: Seq<u8>| final(self).grants(t) == old(self).grants(t),
    ;

    /// Consume one message: authenticate its token, look up its id, push its
    /// payload.
    ///
    /// Every failure is translated into one `ConsumeError` variant, and a
    /// failed consume leaves the routing table exactly as it was: only the
    /// final, successful push mutates stream state.
    fn consume(&mut self, msg: Message<Vec<u8>>) -> (r: ConsumeResult<
        Self::AuthErr,
        <Self::Stream as Stream>::PushErr,
    >)
        ensures
            forall|t: Seq<u8>| final(self).grants(t) == old(self).grants(t),
            r is Ok ==> old(self).grants(msg.header.token@) && old(self).table(
                msg.header.token@,
            ).contains_key(msg.header.id@) && (exists|s: Self::Stream|
                #![auto]
                final(self).table(msg.header.token@) == old(self).table(msg.header.token@).insert(
                    msg.header.id@,
                    s,
                ) && s.observations() == old(self).table(
                    msg.header.token@,
                )[msg.header.id@].observations().push((msg.header.millis, msg.payload@))),
            r matches Err(e) ==> final(self).table(msg.header.token@) == old(self).table(
                msg.header.token@,
            ) && match e {
                ConsumeError::Auth(a) => a is InvalidToken ==> !old(self).grants(
                    msg.header.token@,
                ),
                ConsumeError::MissingId => old(self).grants(msg.header.token@) && !old(self).table(
                    msg.header.token@,
                ).contains_key(msg.header.id@),
                ConsumeError::Push(_) => old(self).grants(msg.header.token@) && old(self).table(
                    msg.header.token@,
                ).contains_key(msg.header.id@),
            },
    {
        match self.auth(msg.header.token.as_slice()) {
            Err(e) => Err(ConsumeError::Auth(e)),
            Ok(mut finder) => {
                let r = dispatch(
                    &mut finder,
                    msg.header.id.as_slice(),
                    msg.header.millis,
                    msg.payload.as_slice(),
                );
                self.restore(msg.header.token.as_slice(), finder);
                r
            },
        }
    }
}

} // verus!
