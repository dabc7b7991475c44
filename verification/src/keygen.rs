//! The key generator: draws fixed-length random alphanumeric strings and
//! probes each candidate against the store until one is unused, giving up
//! after a bounded number of attempts.

use vstd::prelude::*;
use vstd::seq_lib::*;
use rand::distr::Alphanumeric;
use rand::RngExt;
use crate::errors::{LinkError, string_result_view};
use crate::store::LinkData;

verus! {

/// Length of every short key.
pub const KEY_LENGTH: usize = 6;

/// Length of every per-link secret token.
pub const TOKEN_LENGTH: usize = 24;

/// Whether `c` is one of the 62 characters of the key alphabet:
/// uppercase, lowercase, or a digit.
pub open spec fn is_key_char(c: char) -> bool {
    ('A' <= c && c <= 'Z') || ('a' <= c && c <= 'z') || ('0' <= c && c <= '9')
}

/// Whether every character of `s` lies in the key alphabet.
pub open spec fn is_alphanumeric_seq(s: Seq<char>) -> bool {
    forall|i: int| 0 <= i < s.len() ==> is_key_char(#[trigger] s[i])
}

/// Whether `s` is a well-formed short key.
pub open spec fn is_valid_key(s: Seq<char>) -> bool {
    s.len() == KEY_LENGTH && is_alphanumeric_seq(s)
}

/// A random string of `n` characters, each drawn uniformly from the
/// alphanumeric alphabet.
///
/// Relies on rand's `Alphanumeric` distribution: each sampled byte is one
/// of `A`-`Z`, `a`-`z`, `0`-`9`, and the sampling iterator never ends, so
/// `take(n)` yields exactly `n` characters.
#[verifier::external_body]
pub fn rand_string(n: usize) -> (r: String)
    ensures
        r@.len() == n,
        is_alphanumeric_seq(r@),
{
    rand::rng().sample_iter(&Alphanumeric).take(n).map(char::from).collect()
}

/// What one existence probe reported of its candidate key.
pub enum ProbeReply {
    /// The key is already claimed: the draw collided.
    InUse,
    /// The key is unused.
    Free,
    /// The probe itself failed (the store was unreachable).
    Failed,
}

/// One existence probe: which key was asked about, and the answer.
pub struct ProbeCall {
    pub key: Seq<char>,
    pub reply: ProbeReply,
}

/// The reply a probe's return value stands for.
pub open spec fn probe_reply(r: Result<bool, LinkError>) -> ProbeReply {
    match r {
        Ok(true) => ProbeReply::InUse,
        Ok(false) => ProbeReply::Free,
        Err(_) => ProbeReply::Failed,
    }
}

/// An existence probe over the key namespace: reports whether a candidate
/// short key is already in use. The store's own read is the one the service
/// uses; the generator accepts any implementation.
///
/// A probe is a read, not a reservation: it never changes what the backing
/// store holds, and each call appends exactly one entry to the probe log.
pub trait KeyProbe {
    /// Every probe made so far, oldest first.
    spec fn log(&self) -> Seq<ProbeCall>;

    /// What the probe's backing store holds; empty for probes that answer
    /// from a script rather than from a store.
    spec fn store_links(&self) -> Map<Seq<char>, LinkData>;

    /// Report whether `key` is already in use.
    fn probe(&mut self, key: &String) -> (r: Result<bool, LinkError>)
        ensures
            final(self).log() == old(self).log().push(
                (ProbeCall { key: key@, reply: probe_reply(r) }),
            ),
            final(self).store_links() == old(self).store_links(),
    ;
}

/// Everything key generation guarantees, over the probe log before (`pre`)
/// and after (`post`) the call and the result `r`:
/// the probes of this call extend the log by one entry per attempt, at most
/// `num_attempts` of them; every candidate probed is a well-formed key;
/// every probe but the last reported a collision; and the result is decided
/// by the last probe's reply — an unused candidate is returned at once, a
/// probe failure is a store error, and a full round of collisions exhausts
/// generation.
pub open spec fn generate_key_post(
    pre: Seq<ProbeCall>,
    post: Seq<ProbeCall>,
    num_attempts: nat,
    r: Result<Seq<char>, LinkError>,
) -> bool {
    let fresh = post.skip(pre.len() as int);
    &&& pre.is_prefix_of(post)
    &&& 1 <= fresh.len() <= num_attempts
    &&& (forall|i: int| 0 <= i < fresh.len() ==> is_valid_key(#[trigger] fresh[i].key))
    &&& (forall|i: int| 0 <= i < fresh.len() - 1 ==> (#[trigger] fresh[i].reply) is InUse)
    &&& match r {
        Ok(key) => fresh.last().reply is Free && fresh.last().key == key,
        Err(e) => match e {
            LinkError::GenerationExhausted => fresh.len() == num_attempts
                && fresh.last().reply is InUse,
            LinkError::StoreError => fresh.last().reply is Failed,
            _ => false,
        },
    }
}

/// Draw random keys and probe each until one is unused. Returns the first
/// unused candidate without re-verification; gives up with
/// `GenerationExhausted` once `num_attempts` draws have all collided, and
/// with `StoreError` as soon as a probe fails.
pub fn generate_key<P: KeyProbe>(probe: &mut P, num_attempts: usize) -> (r: Result<
    String,
    LinkError,
>)
    requires
        num_attempts >= 1,
    ensures
        final(probe).store_links() == old(probe).store_links(),
        generate_key_post(
            old(probe).log(),
            final(probe).log(),
            num_attempts as nat,
            string_result_view(r),
        ),
{
    let mut attempt: usize = 0;
    while attempt < num_attempts
        invariant
            attempt <= num_attempts,
            probe.store_links() == old(probe).store_links(),
            old(probe).log().is_prefix_of(probe.log()),
            probe.log().len() == old(probe).log().len() + attempt,
            forall|i: int|
                old(probe).log().len() <= i < probe.log().len() ==> (#[trigger] probe.log()[i].reply)
                    is InUse,
            forall|i: int|
                old(probe).log().len() <= i < probe.log().len() ==> is_valid_key(
                    #[trigger] probe.log()[i].key,
                ),
        decreases num_attempts - attempt,
    {
        let short_key = rand_string(KEY_LENGTH);
        match probe.probe(&short_key) {
            Ok(false) => {
                return Ok(short_key);
            },
            Ok(true) => {},
            Err(_) => {
                return Err(LinkError::StoreError);
            },
        }
        attempt = attempt + 1;
    }
    Err(LinkError::GenerationExhausted)
}

/// Law: against a probe that reported every candidate of this call as in
/// use, generation fails with `GenerationExhausted` after exactly
/// `num_attempts` probes, and no key comes out.
pub proof fn lemma_exhausted_when_all_in_use(
    pre: Seq<ProbeCall>,
    post: Seq<ProbeCall>,
    num_attempts: nat,
    r: Result<Seq<char>, LinkError>,
)
    requires
        generate_key_post(pre, post, num_attempts, r),
        forall|i: int| pre.len() <= i < post.len() ==> (#[trigger] post[i].reply) is InUse,
    ensures
        r == Err::<Seq<char>, LinkError>(LinkError::GenerationExhausted),
        post.len() == pre.len() + num_attempts,
{
    let fresh = post.skip(pre.len() as int);
    assert(post.len() == pre.len() + fresh.len());
    assert(fresh.last() == post[post.len() - 1]);
    assert(post[post.len() - 1].reply is InUse);
}

/// Law: against a probe that reported the first `k` candidates of this call
/// as in use and the next one as unused, generation succeeds, after exactly
/// `k + 1` probes, provided `k` left an attempt to spare.
pub proof fn lemma_succeeds_after_collisions(
    pre: Seq<ProbeCall>,
    post: Seq<ProbeCall>,
    num_attempts: nat,
    k: nat,
    r: Result<Seq<char>, LinkError>,
)
    requires
        generate_key_post(pre, post, num_attempts, r),
        k < num_attempts,
        forall|i: int|
            0 <= i < k && pre.len() + i < post.len() ==> (#[trigger] post[pre.len() + i].reply)
                is InUse,
        pre.len() + k < post.len() ==> post[pre.len() + k as int].reply is Free,
    ensures
        r is Ok,
        post.len() == pre.len() + k + 1,
{
    let fresh = post.skip(pre.len() as int);
    assert(post.len() == pre.len() + fresh.len());
    assert(fresh.last() == post[post.len() - 1]);
    if fresh.len() <= k {
        assert(post[post.len() - 1].reply is InUse) by {
            assert(post[pre.len() + (fresh.len() - 1)].reply is InUse);
        }
        assert(fresh.len() == num_attempts);
        assert(false);
    }
    assert(post[pre.len() + k as int].reply is Free);
    if fresh.len() > k + 1 {
        assert(fresh[k as int] == post[pre.len() + k as int]);
        assert(fresh[k as int].reply is InUse);
        assert(false);
    }
    assert(fresh.last() == post[pre.len() + k as int]);
}

/// A probe double that reports every candidate as already in use; it backs
/// no store and only counts its calls.
pub struct AlwaysInUseProbe {
    /// How many probes were made, saturating at the counter's capacity.
    pub calls: u64,
    pub history: Ghost<Seq<ProbeCall>>,
}

impl AlwaysInUseProbe {
    pub fn new() -> (p: AlwaysInUseProbe)
        ensures
            p.log() == Seq::<ProbeCall>::empty(),
            p.calls == 0,
    {
        AlwaysInUseProbe { calls: 0, history: Ghost(Seq::empty()) }
    }
}

impl KeyProbe for AlwaysInUseProbe {
    open spec fn log(&self) -> Seq<ProbeCall> {
        self.history@
    }

    open spec fn store_links(&self) -> Map<Seq<char>, LinkData> {
        Map::empty()
    }

    fn probe(&mut self, key: &String) -> (r: Result<bool, LinkError>) {
        if self.calls < u64::MAX {
            self.calls = self.calls + 1;
        }
        self.history = Ghost(
            self.history@.push(ProbeCall { key: key@, reply: ProbeReply::InUse }),
        );
        Ok(true)
    }
}

/// A probe double that reports the first `remaining` candidates as in use
/// and every later one as unused; it backs no store.
pub struct CollideThenFreeProbe {
    /// How many collisions are still to be reported.
    pub remaining: u64,
    /// How many probes were made, saturating at the counter's capacity.
    pub calls: u64,
    pub history: Ghost<Seq<ProbeCall>>,
}

impl CollideThenFreeProbe {
    pub fn new(collisions: u64) -> (p: CollideThenFreeProbe)
        ensures
            p.log() == Seq::<ProbeCall>::empty(),
            p.calls == 0,
            p.remaining == collisions,
    {
        CollideThenFreeProbe { remaining: collisions, calls: 0, history: Ghost(Seq::empty()) }
    }
}

impl KeyProbe for CollideThenFreeProbe {
    open spec fn log(&self) -> Seq<ProbeCall> {
        self.history@
    }

    open spec fn store_links(&self) -> Map<Seq<char>, LinkData> {
        Map::empty()
    }

    fn probe(&mut self, key: &String) -> (r: Result<bool, LinkError>) {
        if self.calls < u64::MAX {
            self.calls = self.calls + 1;
        }
        if self.remaining > 0 {
            self.remaining = self.remaining - 1;
            self.history = Ghost(
                self.history@.push(ProbeCall { key: key@, reply: ProbeReply::InUse }),
            );
            Ok(true)
        } else {
            self.history = Ghost(
                self.history@.push(ProbeCall { key: key@, reply: ProbeReply::Free }),
            );
            Ok(false)
        }
    }
}

/// A probe double whose every call fails, as an unreachable store's would.
pub struct FailingProbe {
    pub history: Ghost<Seq<ProbeCall>>,
}

impl FailingProbe {
    pub fn new() -> (p: FailingProbe)
        ensures
            p.log() == Seq::<ProbeCall>::empty(),
    {
        FailingProbe { history: Ghost(Seq::empty()) }
    }
}

impl KeyProbe for FailingProbe {
    open spec fn log(&self) -> Seq<ProbeCall> {
        self.history@
    }

    open spec fn store_links(&self) -> Map<Seq<char>, LinkData> {
        Map::empty()
    }

    fn probe(&mut self, key: &String) -> (r: Result<bool, LinkError>) {
        self.history = Ghost(
            self.history@.push(ProbeCall { key: key@, reply: ProbeReply::Failed }),
        );
        Err(LinkError::StoreError)
    }
}

} // verus!
