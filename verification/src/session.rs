//! Session issuance, resolution and revocation.
//!
//! A session is a cache binding from an unguessable key to an account id,
//! together with a client-side cookie holding the key. The cache contents are
//! held here as a key-value store viewed as a `Map`; a driver around the
//! library can instead probe a shared cache and feed the outcome of each
//! probe to the issuance engine (`issue_start` / `issue_decide`).

use vstd::prelude::*;

use crate::text::str_eq;

verus! {

/// Failures of session handling.
#[derive(Clone, Copy, Debug, PartialEq, Eq, Structural)]
pub enum SessionError {
    /// The retry budget for finding a free session key was exhausted.
    Build,
    /// The random generator could not be seeded.
    Rand,
    /// The shared session cache could not be reached.
    Redis,
}

impl SessionError {
    /// The human-readable description of the error, in place of `Display`.
    pub fn message(&self) -> (r: &'static str)
        ensures
            *self == SessionError::Build ==> r@ == "Unable to build session"@,
            *self == SessionError::Rand ==> r@ == "Unable to seed the session key generator"@,
            *self == SessionError::Redis ==> r@ == "Session cache is unreachable"@,
    {
        match self {
            SessionError::Build => "Unable to build session",
            SessionError::Rand => "Unable to seed the session key generator",
            SessionError::Redis => "Session cache is unreachable",
        }
    }
}

/// The client-side cookie slot that carries the session key between
/// requests. The transport concerns of a real cookie (HTTP-only, secure,
/// tamper-evident encoding) belong to the HTTP layer; here the slot holds
/// the key itself, or nothing when the client has no session.
pub struct CookieJar {
    session: Option<String>,
}

impl View for CookieJar {
    type V = Option<Seq<char>>;

    closed spec fn view(&self) -> Option<Seq<char>> {
        match self.session {
            Some(ref s) => Some(s@),
            None => None,
        }
    }
}

impl CookieJar {
    /// A jar with no session cookie set.
    pub fn new() -> (j: Self)
        ensures
            j@ is None,
    {
        CookieJar { session: None }
    }

    /// A jar holding the given cookie value, as handed in by the HTTP layer.
    pub fn with_value(v: Option<String>) -> (j: Self)
        ensures
            v is None ==> j@ is None,
            v matches Some(s) ==> j@ == Some(s@),
    {
        CookieJar { session: v }
    }

    /// The current cookie value, for the HTTP layer to write back out.
    pub fn value(&self) -> (v: Option<String>)
        ensures
            self@ is None ==> v is None,
            self@ matches Some(k) ==> (v matches Some(s) && s@ == k),
    {
        match &self.session {
            Some(s) => Some(s.clone()),
            None => None,
        }
    }
}

/// The session store: bindings from session key to account id.
pub struct SessionStorage {
    entries: Vec<(String, String)>,
}

/// The map denoted by a key-value entry list; later entries win.
spec fn map_of(entries: Seq<(String, String)>) -> Map<Seq<char>, Seq<char>>
    decreases entries.len(),
{
    if entries.len() == 0 {
        Map::empty()
    } else {
        map_of(entries.drop_last()).insert(entries.last().0@, entries.last().1@)
    }
}

/// No two entries bind the same key.
spec fn keys_distinct(entries: Seq<(String, String)>) -> bool {
    forall|i: int, j: int|
        0 <= i < j < entries.len() ==> (#[trigger] entries[i]).0@ != (#[trigger] entries[j]).0@
}

proof fn lemma_map_of_contains(entries: Seq<(String, String)>, k: Seq<char>)
    ensures
        map_of(entries).contains_key(k) <==> exists|i: int|
            0 <= i < entries.len() && (#[trigger] entries[i]).0@ == k,
    decreases entries.len(),
{
    if entries.len() > 0 {
        lemma_map_of_contains(entries.drop_last(), k);
        assert(forall|i: int|
            0 <= i < entries.len() - 1 ==> #[trigger] entries.drop_last()[i] == entries[i]);
        if map_of(entries).contains_key(k) {
            if entries.last().0@ == k {
                assert(entries[entries.len() - 1].0@ == k);
            } else {
                let i = choose|i: int|
                    0 <= i < entries.drop_last().len() && (#[trigger] entries.drop_last()[i]).0@
                        == k;
                assert(entries[i].0@ == k);
            }
        }
        if exists|i: int| 0 <= i < entries.len() && (#[trigger] entries[i]).0@ == k {
            let i = choose|i: int| 0 <= i < entries.len() && (#[trigger] entries[i]).0@ == k;
            if i < entries.len() - 1 {
                assert(entries.drop_last()[i].0@ == k);
            }
        }
    }
}

proof fn lemma_map_of_index(entries: Seq<(String, String)>, i: int)
    requires
        keys_distinct(entries),
        0 <= i < entries.len(),
    ensures
        map_of(entries).contains_key(entries[i].0@),
        map_of(entries)[entries[i].0@] == entries[i].1@,
    decreases entries.len(),
{
    if i == entries.len() - 1 {
    } else {
        assert(forall|a: int|
            0 <= a < entries.len() - 1 ==> #[trigger] entries.drop_last()[a] == entries[a]);
        lemma_map_of_index(entries.drop_last(), i);
        assert(entries.last().0@ != entries[i].0@);
    }
}

proof fn lemma_map_of_remove(entries: Seq<(String, String)>, i: int)
    requires
        keys_distinct(entries),
        0 <= i < entries.len(),
    ensures
        map_of(entries.remove(i)) == map_of(entries).remove(entries[i].0@),
    decreases entries.len(),
{
    let k = entries[i].0@;
    assert(forall|a: int|
        0 <= a < entries.len() - 1 ==> #[trigger] entries.drop_last()[a] == entries[a]);
    if i == entries.len() - 1 {
        assert(entries.remove(i) =~= entries.drop_last());
        lemma_map_of_contains(entries.drop_last(), k);
        assert(!map_of(entries.drop_last()).contains_key(k));
        assert(map_of(entries.drop_last()).insert(k, entries.last().1@).remove(k) =~= map_of(
            entries.drop_last(),
        ));
    } else {
        assert(entries.remove(i).drop_last() =~= entries.drop_last().remove(i));
        assert(entries.remove(i).last() == entries.last());
        lemma_map_of_remove(entries.drop_last(), i);
        assert(entries.drop_last()[i].0@ == k);
        assert(entries.last().0@ != k);
        assert(map_of(entries.drop_last()).remove(k).insert(
            entries.last().0@,
            entries.last().1@,
        ) =~= map_of(entries.drop_last()).insert(entries.last().0@, entries.last().1@).remove(k));
        assert(map_of(entries.remove(i)) == map_of(entries.drop_last().remove(i)).insert(
            entries.last().0@,
            entries.last().1@,
        ));
    }
}

impl View for SessionStorage {
    type V = Map<Seq<char>, Seq<char>>;

    closed spec fn view(&self) -> Map<Seq<char>, Seq<char>> {
        map_of(self.entries@)
    }
}

impl SessionStorage {
    /// Well-formed store: no key is bound twice.
    pub closed spec fn wf(&self) -> bool {
        keys_distinct(self.entries@)
    }

    /// An empty session store.
    pub fn new() -> (s: Self)
        ensures
            s.wf(),
            s@ == Map::<Seq<char>, Seq<char>>::empty(),
    {
        SessionStorage { entries: Vec::new() }
    }

    /// Whether a key is currently bound.
    pub fn has_key(&self, key: &str) -> (r: bool)
        ensures
            r == self@.contains_key(key@),
    {
        let n = self.entries.len();
        for j in 0..n
            invariant
                n == self.entries@.len(),
                forall|i: int| 0 <= i < j ==> (#[trigger] self.entries@[i]).0@ != key@,
        {
            if str_eq(self.entries[j].0.as_str(), key) {
                proof {
                    lemma_map_of_contains(self.entries@, key@);
                }
                return true;
            }
        }
        proof {
            lemma_map_of_contains(self.entries@, key@);
        }
        false
    }

    /// The account id bound to a key, if the key is live.
    pub fn get(&self, key: &str) -> (r: Option<String>)
        requires
            self.wf(),
        ensures
            self@.contains_key(key@) ==> (r matches Some(v) && v@ == self@[key@]),
            !self@.contains_key(key@) ==> r is None,
    {
        let n = self.entries.len();
        for j in 0..n
            invariant
                self.wf(),
                n == self.entries@.len(),
                forall|i: int| 0 <= i < j ==> (#[trigger] self.entries@[i]).0@ != key@,
        {
            if str_eq(self.entries[j].0.as_str(), key) {
                proof {
                    lemma_map_of_index(self.entries@, j as int);
                }
                return Some(self.entries[j].1.clone());
            }
        }
        proof {
            lemma_map_of_contains(self.entries@, key@);
        }
        None
    }

    /// Binds a free key to an account id; the caller has checked freshness.
    pub fn set_ex(&mut self, key: &str, value: &str)
        requires
            old(self).wf(),
            !old(self)@.contains_key(key@),
        ensures
            final(self).wf(),
            final(self)@ == old(self)@.insert(key@, value@),
    {
        proof {
            lemma_map_of_contains(self.entries@, key@);
        }
        self.entries.push((String::from_str(key), String::from_str(value)));
        proof {
            assert(self.entries@.drop_last() =~= old(self).entries@);
            assert(self.entries@.last().0@ == key@);
            assert(forall|i: int|
                0 <= i < old(self).entries@.len() ==> #[trigger] self.entries@[i] == old(
                    self,
                ).entries@[i]);
            assert(keys_distinct(self.entries@));
        }
    }

    /// Unbinds a key, reporting how many bindings were deleted.
    pub fn del(&mut self, key: &str) -> (r: usize)
        requires
            old(self).wf(),
        ensures
            final(self).wf(),
            final(self)@ == old(self)@.remove(key@),
            old(self)@.contains_key(key@) ==> r == 1,
            !old(self)@.contains_key(key@) ==> r == 0 && final(self)@ == old(self)@,
    {
        let n = self.entries.len();
        for j in 0..n
            invariant
                self.wf(),
                *self == *old(self),
                n == self.entries@.len(),
                forall|i: int| 0 <= i < j ==> (#[trigger] self.entries@[i]).0@ != key@,
        {
            if str_eq(self.entries[j].0.as_str(), key) {
                proof {
                    lemma_map_of_index(self.entries@, j as int);
                    lemma_map_of_remove(self.entries@, j as int);
                    self.entries@.remove_ensures(j as int);
                    assert(keys_distinct(self.entries@.remove(j as int)));
                }
                self.entries.remove(j);
                return 1;
            }
        }
        proof {
            lemma_map_of_contains(self.entries@, key@);
            assert(old(self)@.remove(key@) =~= old(self)@);
        }
        0
    }
}

#[verifier::external_type_specification]
#[verifier::external_body]
pub struct ExChaCha20Rng(rand_chacha::ChaCha20Rng);

#[verifier::external_type_specification]
#[verifier::external_body]
pub struct ExRandError(rand::Error);

/// Relies on `ChaCha20Rng::from_rng` seeded from `rand::thread_rng`: a
/// cryptographically seeded generator; nothing is promised of its state.
#[verifier::external_body]
fn seeded_rng() -> (r: Result<rand_chacha::ChaCha20Rng, rand::Error>) {
    <rand_chacha::ChaCha20Rng as rand::SeedableRng>::from_rng(rand::thread_rng())
}

/// Relies on `Rng::gen_range`: an index drawn uniformly below `n`.
#[verifier::external_body]
fn draw_index(rng: &mut rand_chacha::ChaCha20Rng, n: usize) -> (i: usize)
    requires
        n >= 1,
    ensures
        i < n,
{
    rand::Rng::gen_range(rng, 0..n)
}

/// How long a session lives: fifteen days from issuance, in seconds. The
/// expiry is fixed and never renewed; a driver hands this to the shared
/// cache's set-with-expiry call.
pub const FIFTEEN_DAYS: u64 = 60 * 60 * 24 * 15;

/// The 36-character alphabet that session keys are drawn from.
pub open spec fn session_alphabet() -> Seq<char> {
    "abcdefghijklmnopqrstuvwxyz0123456789"@
}

/// A well-formed session key: the fixed `session:` prefix followed by eight
/// characters of the alphabet.
pub open spec fn well_formed_session_id(s: Seq<char>) -> bool {
    &&& s.len() == 16
    &&& s.subrange(0, 8) == "session:"@
    &&& forall|i: int| 8 <= i < 16 ==> session_alphabet().contains(#[trigger] s[i])
}

/// Draws a candidate session key: the fixed prefix followed by eight
/// characters drawn independently and uniformly from the alphabet.
pub fn random_candidate(rng: &mut rand_chacha::ChaCha20Rng) -> (id: String)
    ensures
        well_formed_session_id(id@),
{
    let alphabet = "abcdefghijklmnopqrstuvwxyz0123456789";
    proof {
        reveal_strlit("abcdefghijklmnopqrstuvwxyz0123456789");
        reveal_strlit("session:");
    }
    let mut id = String::from_str("session:");
    proof {
        assert(id@.subrange(0, 8) =~= "session:"@);
    }
    for k in 0..8usize
        invariant
            alphabet@ == session_alphabet(),
            session_alphabet().len() == 36,
            "session:"@.len() == 8,
            id@.len() == 8 + k,
            id@.subrange(0, 8) == "session:"@,
            forall|i: int| 8 <= i < 8 + k ==> session_alphabet().contains(#[trigger] id@[i]),
    {
        let d = draw_index(rng, 36);
        let ghost prev = id@;
        let ch = alphabet.substring_char(d, d + 1);
        id.append(ch);
        proof {
            assert(id@ =~= prev + session_alphabet().subrange(d as int, d as int + 1));
            assert(id@[8 + k as int] == session_alphabet()[d as int]);
            assert(session_alphabet().contains(session_alphabet()[d as int]));
            assert(id@.subrange(0, 8) =~= prev.subrange(0, 8));
        }
    }
    id
}

/// The decision taken after one cache existence probe during issuance.
#[derive(Clone, Copy, Debug, PartialEq, Eq, Structural)]
pub enum IssueStep {
    /// The probed key is free: bind it and finish.
    Commit,
    /// The probed key is taken and budget remains: draw a new key.
    Retry,
    /// The probed key is taken and the budget is exhausted: give up.
    Fail,
}

/// The remaining retry budget while hunting for a free session key.
pub struct IssueBudget {
    remaining: u32,
}

impl IssueBudget {
    /// How many existence probes may still be answered with "taken".
    pub closed spec fn remaining(&self) -> nat {
        self.remaining as nat
    }
}

/// Starts an issuance attempt with the fixed budget of 100 probes.
pub fn issue_start() -> (b: IssueBudget)
    ensures
        b.remaining() == 100,
{
    IssueBudget { remaining: 100 }
}

/// Decides how issuance proceeds after a cache probe answered whether the
/// candidate key already exists: a free key commits; a collision consumes
/// one probe of the budget, and the hundredth collision fails the issuance.
pub fn issue_decide(b: &mut IssueBudget, key_exists: bool) -> (step: IssueStep)
    ensures
        !key_exists ==> step == IssueStep::Commit && final(b).remaining() == old(b).remaining(),
        key_exists && old(b).remaining() > 1 ==> step == IssueStep::Retry && final(b).remaining()
            == old(b).remaining() - 1,
        key_exists && old(b).remaining() <= 1 ==> step == IssueStep::Fail && final(b).remaining()
            == 0,
{
    if !key_exists {
        IssueStep::Commit
    } else if b.remaining > 1 {
        b.remaining = b.remaining - 1;
        IssueStep::Retry
    } else {
        b.remaining = 0;
        IssueStep::Fail
    }
}

impl SessionStorage {
    /// The session key named by the cookie, if any.
    fn get_session_id(&self, cookie_jar: &CookieJar) -> (r: Option<String>)
        ensures
            cookie_jar@ is None ==> r is None,
            cookie_jar@ matches Some(k) ==> (r matches Some(s) && s@ == k),
    {
        cookie_jar.value()
    }

    /// Issues a session for `user_id`: draws candidate keys until a free one
    /// is found (within the retry budget), binds it, and replaces whatever
    /// cookie the jar held with the new key.
    pub fn create_session(&mut self, user_id: &str, cookie_jar: &mut CookieJar) -> (r: Result<
        (),
        SessionError,
    >)
        requires
            old(self).wf(),
        ensures
            final(self).wf(),
            r is Ok ==> (final(cookie_jar)@ matches Some(k) && well_formed_session_id(k) && !old(
                self,
            )@.contains_key(k) && final(self)@ == old(self)@.insert(k, user_id@)),
            r matches Err(e) ==> final(self)@ == old(self)@ && *final(cookie_jar) == *old(
                cookie_jar,
            ) && (e == SessionError::Build || e == SessionError::Rand),
            r == Err::<(), SessionError>(SessionError::Build) ==> old(self)@ != Map::<
                Seq<char>,
                Seq<char>,
            >::empty(),
    {
        let mut rng = match seeded_rng() {
            Ok(r) => r,
            Err(_) => {
                return Err(SessionError::Rand);
            },
        };
        let mut budget = issue_start();
        loop
            invariant
                self.wf(),
                self@ == old(self)@,
                *cookie_jar == *old(cookie_jar),
                budget.remaining() >= 1,
            decreases budget.remaining(),
        {
            let candidate = random_candidate(&mut rng);
            let key_exists = self.has_key(candidate.as_str());
            let step = issue_decide(&mut budget, key_exists);
            if step == IssueStep::Commit {
                self.set_ex(candidate.as_str(), user_id);
                cookie_jar.session = None;
                cookie_jar.session = Some(candidate);
                return Ok(());
            }
            if step == IssueStep::Fail {
                proof {
                    assert(self@.contains_key(candidate@));
                    assert(!Map::<Seq<char>, Seq<char>>::empty().contains_key(candidate@));
                }
                return Err(SessionError::Build);
            }
        }
    }

    /// Resolves the cookie to the account id of a live session: no cookie or
    /// an expired key is an ordinary `None`, not an error.
    pub fn get_session(&self, cookie_jar: &CookieJar) -> (r: Result<Option<String>, SessionError>)
        requires
            self.wf(),
        ensures
            cookie_jar@ is None ==> r == Ok::<Option<String>, SessionError>(None),
            cookie_jar@ matches Some(k) && self@.contains_key(k) ==> (r matches Ok(v)
                && v matches Some(a) && a@ == self@[cookie_jar@->Some_0]),
            cookie_jar@ matches Some(k) && !self@.contains_key(k) ==> r == Ok::<
                Option<String>,
                SessionError,
            >(None),
    {
        let session_id = match self.get_session_id(cookie_jar) {
            Some(id) => id,
            None => {
                return Ok(None);
            },
        };
        Ok(self.get(session_id.as_str()))
    }

    /// Revokes the session named by the cookie: clears the cookie, unbinds
    /// the key, and reports how many bindings were deleted (idempotent).
    pub fn delete_session(&mut self, cookie_jar: &mut CookieJar) -> (r: Result<
        usize,
        SessionError,
    >)
        requires
            old(self).wf(),
        ensures
            final(self).wf(),
            old(cookie_jar)@ is None ==> r == Ok::<usize, SessionError>(0) && final(self)@ == old(
                self,
            )@ && *final(cookie_jar) == *old(cookie_jar),
            old(cookie_jar)@ matches Some(k) ==> final(cookie_jar)@ is None && final(self)@ == old(
                self,
            )@.remove(k) && (old(self)@.contains_key(k) ==> r == Ok::<usize, SessionError>(1)) && (
            !old(self)@.contains_key(k) ==> r == Ok::<usize, SessionError>(0)),
    {
        let session_id = match self.get_session_id(cookie_jar) {
            Some(id) => id,
            None => {
                return Ok(0);
            },
        };
        cookie_jar.session = None;
        let count = self.del(session_id.as_str());
        Ok(count)
    }
}

/// Session keys issued in sequence are pairwise distinct: a key is only
/// committed when it is absent from the cache, and issuing binds it, so the
/// next issued key cannot be the same one.
pub proof fn lemma_issued_ids_distinct(
    cache: Map<Seq<char>, Seq<char>>,
    k1: Seq<char>,
    a1: Seq<char>,
    k2: Seq<char>,
)
    requires
        !cache.contains_key(k1),
        !cache.insert(k1, a1).contains_key(k2),
    ensures
        k1 != k2,
{
}

/// Resolving right after issuing finds exactly the account that was bound.
pub proof fn lemma_resolve_after_issue(
    cache: Map<Seq<char>, Seq<char>>,
    k: Seq<char>,
    account: Seq<char>,
)
    ensures
        cache.insert(k, account).contains_key(k),
        cache.insert(k, account)[k] == account,
{
}

/// Resolving after revocation (or after expiry removed the binding) finds
/// nothing.
pub proof fn lemma_resolve_after_revoke(cache: Map<Seq<char>, Seq<char>>, k: Seq<char>)
    ensures
        !cache.remove(k).contains_key(k),
{
}

} // verus!
