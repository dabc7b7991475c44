//! The link store: persisted short-link records, keyed by their unique
//! short key. The store enforces key uniqueness at insertion, hands records
//! out by key, and increments click counters one by one; it doubles as the
//! key generator's existence probe, a read that reserves nothing.

use vstd::prelude::*;
use vstd::seq_lib::*;
use crate::errors::LinkError;
use crate::keygen::{KeyProbe, ProbeCall, ProbeReply, probe_reply};

verus! {

/// One shortening mapping, as the store persists it.
#[derive(Debug)]
pub struct ShortLink {
    /// Opaque numeric identity assigned by the store, immutable.
    pub id: i32,
    /// Short alphanumeric string, globally unique among all records,
    /// immutable after creation.
    pub short_key: String,
    /// Destination URL, immutable after creation.
    pub url: String,
    /// Secret generated once at creation, immutable, authorizes stats access.
    pub token: String,
    /// Non-negative counter, starts at 0, incremented by redirects only.
    pub clicks: i32,
}

/// What the store holds under one short key: the mathematical model of a
/// [`ShortLink`] record, less the key itself, which the store's map keys.
pub struct LinkData {
    pub id: int,
    pub url: Seq<char>,
    pub token: Seq<char>,
    pub clicks: int,
}

impl View for ShortLink {
    type V = LinkData;

    open spec fn view(&self) -> LinkData {
        LinkData {
            id: self.id as int,
            url: self.url@,
            token: self.token@,
            clicks: self.clicks as int,
        }
    }
}

impl ShortLink {
    /// A field-for-field copy of the record.
    pub fn duplicate(&self) -> (r: ShortLink)
        ensures
            r@ == self@,
            r.short_key@ == self.short_key@,
    {
        ShortLink {
            id: self.id,
            short_key: self.short_key.clone(),
            url: self.url.clone(),
            token: self.token.clone(),
            clicks: self.clicks,
        }
    }
}

/// One hosted landing page: raw HTML bytes stored under a path.
pub struct LandingPage {
    /// Opaque numeric identity assigned by the store.
    pub id: i32,
    /// The path the page is served under.
    pub path: String,
    /// The page's raw HTML bytes, served as they were stored.
    pub html: Vec<u8>,
}

/// `d` with one more click.
pub open spec fn clicked(d: LinkData) -> LinkData {
    LinkData { clicks: d.clicks + 1, ..d }
}

/// Whether no two records of `s` share a short key.
spec fn distinct_keys(s: Seq<ShortLink>) -> bool {
    forall|i: int, j: int|
        0 <= i < j < s.len() ==> (#[trigger] s[i].short_key@) != (#[trigger] s[j].short_key@)
}

/// The map the records of `s` stand for, later entries shadowing earlier
/// ones (under distinct keys nothing shadows).
spec fn links_map(s: Seq<ShortLink>) -> Map<Seq<char>, LinkData>
    decreases s.len(),
{
    if s.len() == 0 {
        Map::empty()
    } else {
        links_map(s.drop_last()).insert(s.last().short_key@, s.last()@)
    }
}

proof fn lemma_links_map_contains(s: Seq<ShortLink>, k: Seq<char>)
    ensures
        links_map(s).contains_key(k) <==> exists|i: int|
            0 <= i < s.len() && (#[trigger] s[i].short_key@) == k,
    decreases s.len(),
{
    if s.len() > 0 {
        let sub = s.drop_last();
        lemma_links_map_contains(sub, k);
        if s.last().short_key@ == k {
            assert(s[s.len() - 1].short_key@ == k);
        } else {
            if links_map(sub).contains_key(k) {
                let i = choose|i: int| 0 <= i < sub.len() && (#[trigger] sub[i].short_key@) == k;
                assert(s[i].short_key@ == k);
            }
            if exists|i: int| 0 <= i < s.len() && (#[trigger] s[i].short_key@) == k {
                let i = choose|i: int| 0 <= i < s.len() && (#[trigger] s[i].short_key@) == k;
                assert(i < s.len() - 1);
                assert(sub[i].short_key@ == k);
            }
        }
    }
}

proof fn lemma_links_map_index(s: Seq<ShortLink>, i: int)
    requires
        distinct_keys(s),
        0 <= i < s.len(),
    ensures
        links_map(s).contains_key(s[i].short_key@),
        links_map(s)[s[i].short_key@] == s[i]@,
    decreases s.len(),
{
    if i < s.len() - 1 {
        let sub = s.drop_last();
        lemma_links_map_index(sub, i);
        assert(sub[i] == s[i]);
        assert(s[i].short_key@ != s[s.len() - 1].short_key@);
    }
}

proof fn lemma_links_map_update(s: Seq<ShortLink>, i: int, r: ShortLink)
    requires
        distinct_keys(s),
        0 <= i < s.len(),
        r.short_key@ == s[i].short_key@,
    ensures
        distinct_keys(s.update(i, r)),
        links_map(s.update(i, r)) == links_map(s).insert(r.short_key@, r@),
    decreases s.len(),
{
    let t = s.update(i, r);
    assert forall|x: int, y: int|
        0 <= x < y < t.len() implies (#[trigger] t[x].short_key@) != (#[trigger] t[y].short_key@) by {
        assert(s[x].short_key@ != s[y].short_key@);
    }
    if i == s.len() - 1 {
        assert(t.drop_last() =~= s.drop_last());
        assert(links_map(s).insert(r.short_key@, r@) =~= links_map(s.drop_last()).insert(
            r.short_key@,
            r@,
        ));
    } else {
        let sub = s.drop_last();
        assert(t.drop_last() =~= sub.update(i, r));
        lemma_links_map_update(sub, i, r);
        assert(t.last() == s.last());
        assert(r.short_key@ != s.last().short_key@) by {
            assert(s[i].short_key@ != s[s.len() - 1].short_key@);
        }
        assert(links_map(sub).insert(r.short_key@, r@).insert(
            s.last().short_key@,
            s.last()@,
        ) =~= links_map(sub).insert(s.last().short_key@, s.last()@).insert(r.short_key@, r@));
    }
}

/// The link store itself: an ordered collection of records with pairwise
/// distinct short keys, the next free record identity, and the log of
/// existence probes served so far.
pub struct LinkStore {
    records: Vec<ShortLink>,
    next_id: i32,
    probe_history: Ghost<Seq<ProbeCall>>,
}

impl LinkStore {
    /// No two records share a short key.
    #[verifier::type_invariant]
    spec fn well_formed(&self) -> bool {
        distinct_keys(self.records@)
    }

    /// What the store holds: its records as a map from short key to data.
    pub closed spec fn links(&self) -> Map<Seq<char>, LinkData> {
        links_map(self.records@)
    }

    /// Every existence probe served so far, oldest first.
    pub closed spec fn probe_log(&self) -> Seq<ProbeCall> {
        self.probe_history@
    }

    /// An empty store.
    pub fn new() -> (s: LinkStore)
        ensures
            s.links() == Map::<Seq<char>, LinkData>::empty(),
            s.probe_log() == Seq::<ProbeCall>::empty(),
    {
        LinkStore { records: Vec::new(), next_id: 1, probe_history: Ghost(Seq::empty()) }
    }

    /// The position of the record keyed by `short_key`, if any.
    fn find_index(&self, short_key: &String) -> (r: Option<usize>)
        ensures
            match r {
                Some(i) => i < self.records@.len() && self.records@[i as int].short_key@
                    == short_key@,
                None => forall|i: int|
                    0 <= i < self.records@.len() ==> (#[trigger] self.records@[i].short_key@)
                        != short_key@,
            },
    {
        let n = self.records.len();
        let mut i: usize = 0;
        while i < n
            invariant
                i <= n,
                n == self.records@.len(),
                forall|j: int|
                    0 <= j < i ==> (#[trigger] self.records@[j].short_key@) != short_key@,
            decreases n - i,
        {
            if self.records[i].short_key == *short_key {
                return Some(i);
            }
            i = i + 1;
        }
        None
    }

    /// The existence probe of the store: reports whether `short_key` is
    /// already claimed. A read, not a reservation: between a probe and a
    /// later insertion the key may be claimed by someone else.
    pub fn check_key_exists(&mut self, short_key: &String) -> (r: Result<bool, LinkError>)
        ensures
            final(self).links() == old(self).links(),
            final(self).probe_log() == old(self).probe_log().push(
                (ProbeCall { key: short_key@, reply: probe_reply(r) }),
            ),
            r == Ok::<bool, LinkError>(old(self).links().contains_key(short_key@)),
    {
        let found = self.find_index(short_key).is_some();
        proof {
            use_type_invariant(&*self);
            lemma_links_map_contains(self.records@, short_key@);
        }
        let ghost reply = if found {
            ProbeReply::InUse
        } else {
            ProbeReply::Free
        };
        self.probe_history = Ghost(
            self.probe_history@.push(ProbeCall { key: short_key@, reply }),
        );
        Ok(found)
    }

    /// Persist a new record under `short_key`, with `clicks` starting at 0
    /// and an identity of the store's choosing. Key uniqueness is enforced
    /// here, whatever any earlier probe said: insertion fails on a key
    /// already claimed, and then changes nothing.
    pub fn insert(&mut self, short_key: &String, url: &String, token: &String) -> (r: Result<
        ShortLink,
        LinkError,
    >)
        ensures
            final(self).probe_log() == old(self).probe_log(),
            r is Ok <==> !old(self).links().contains_key(short_key@),
            match r {
                Ok(rec) => ({
                    &&& rec.short_key@ == short_key@
                    &&& rec@.url == url@
                    &&& rec@.token == token@
                    &&& rec@.clicks == 0
                    &&& final(self).links() == old(self).links().insert(short_key@, rec@)
                }),
                Err(e) => e == LinkError::StoreError && final(self).links() == old(self).links(),
            },
    {
        proof {
            use_type_invariant(&*self);
            lemma_links_map_contains(self.records@, short_key@);
        }
        let taken = self.find_index(short_key).is_some();
        if taken {
            return Err(LinkError::StoreError);
        }
        let rec = ShortLink {
            id: self.next_id,
            short_key: short_key.clone(),
            url: url.clone(),
            token: token.clone(),
            clicks: 0,
        };
        let out = rec.duplicate();
        let ghost pre = self.records@;
        let mut records: Vec<ShortLink> = Vec::new();
        core::mem::swap(&mut records, &mut self.records);
        records.push(rec);
        proof {
            assert(records@.drop_last() =~= pre);
        }
        self.records = records;
        if self.next_id < i32::MAX {
            self.next_id = self.next_id + 1;
        }
        Ok(out)
    }

    /// The record under `short_key`, or `NotFound`.
    pub fn get(&self, short_key: &String) -> (r: Result<ShortLink, LinkError>)
        ensures
            match r {
                Ok(rec) => ({
                    &&& self.links().contains_key(short_key@)
                    &&& rec@ == self.links()[short_key@]
                    &&& rec.short_key@ == short_key@
                }),
                Err(e) => e == LinkError::NotFound && !self.links().contains_key(short_key@),
            },
    {
        proof {
            use_type_invariant(&*self);
            lemma_links_map_contains(self.records@, short_key@);
        }
        match self.find_index(short_key) {
            Some(i) => {
                proof {
                    lemma_links_map_index(self.records@, i as int);
                }
                Ok(self.records[i].duplicate())
            },
            None => Err(LinkError::NotFound),
        }
    }

    /// Add one click to the record under `short_key`: the single atomic
    /// increment of the redirect path. Fails with `NotFound` on an unknown
    /// key and with `StoreError` on a saturated counter, changing nothing.
    pub fn increment_clicks(&mut self, short_key: &String) -> (r: Result<(), LinkError>)
        ensures
            final(self).probe_log() == old(self).probe_log(),
            match r {
                Ok(_) => ({
                    &&& old(self).links().contains_key(short_key@)
                    &&& old(self).links()[short_key@].clicks < i32::MAX
                    &&& final(self).links() == old(self).links().insert(
                        short_key@,
                        clicked(old(self).links()[short_key@]),
                    )
                }),
                Err(e) => final(self).links() == old(self).links() && match e {
                    LinkError::NotFound => !old(self).links().contains_key(short_key@),
                    LinkError::StoreError => old(self).links().contains_key(short_key@) && old(
                        self,
                    ).links()[short_key@].clicks == i32::MAX,
                    _ => false,
                },
            },
    {
        proof {
            use_type_invariant(&*self);
            lemma_links_map_contains(self.records@, short_key@);
        }
        match self.find_index(short_key) {
            Some(i) => {
                proof {
                    lemma_links_map_index(self.records@, i as int);
                }
                let rec = &self.records[i];
                if rec.clicks == i32::MAX {
                    return Err(LinkError::StoreError);
                }
                let updated = ShortLink {
                    id: rec.id,
                    short_key: rec.short_key.clone(),
                    url: rec.url.clone(),
                    token: rec.token.clone(),
                    clicks: rec.clicks + 1,
                };
                proof {
                    lemma_links_map_update(self.records@, i as int, updated);
                }
                let mut records: Vec<ShortLink> = Vec::new();
                core::mem::swap(&mut records, &mut self.records);
                records.set(i, updated);
                self.records = records;
                Ok(())
            },
            None => Err(LinkError::NotFound),
        }
    }
}

impl KeyProbe for LinkStore {
    open spec fn log(&self) -> Seq<ProbeCall> {
        self.probe_log()
    }

    open spec fn store_links(&self) -> Map<Seq<char>, LinkData> {
        self.links()
    }

    fn probe(&mut self, key: &String) -> (r: Result<bool, LinkError>) {
        self.check_key_exists(key)
    }
}

} // verus!
