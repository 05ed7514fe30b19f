use crate::adapter::Adapter;
use crate::error::{Error, ErrorKind};
use vstd::prelude::*;

verus! {

/// How long a resolved index stays valid, in milliseconds.
pub const INDEX_TTL_MS: u64 = 5000;

/// Whether adapter `a` is the one named `name` for the given address family.
pub open spec fn adapter_matches(a: Adapter, is_ipv6: bool, name: Seq<char>) -> bool {
    if_index_for(a, is_ipv6) != 0 && (a.friendly_name@ == name || a.adapter_name@ == name)
}

/// The interface index of `a` for the given address family.
pub open spec fn if_index_for(a: Adapter, is_ipv6: bool) -> u32 {
    if is_ipv6 {
        a.ipv6_if_index
    } else {
        a.ipv4_if_index
    }
}

/// The index of the first adapter in `adapters` that matches, if any.
pub open spec fn first_match(adapters: Seq<Adapter>, is_ipv6: bool, name: Seq<char>) -> Option<u32>
    decreases adapters.len(),
{
    if adapters.len() == 0 {
        None
    } else if adapter_matches(adapters[0], is_ipv6, name) {
        Some(if_index_for(adapters[0], is_ipv6))
    } else {
        first_match(adapters.drop_first(), is_ipv6, name)
    }
}

/// Scans `adapters` in order for the first one whose friendly or stable name
/// is `iface` and whose interface index for the family is non-zero, and
/// returns that index.
pub fn find_adapter_interface_index(is_ipv6: bool, iface: &str, adapters: &Vec<Adapter>) -> (r:
    Option<u32>)
    ensures
        r == first_match(adapters@, is_ipv6, iface@),
{
    let name = iface.to_owned();
    let mut i: usize = 0;
    assert(adapters@.subrange(0, adapters@.len() as int) == adapters@);
    while i < adapters.len()
        invariant
            i <= adapters@.len(),
            name@ == iface@,
            first_match(adapters@, is_ipv6, iface@) == first_match(
                adapters@.subrange(i as int, adapters@.len() as int),
                is_ipv6,
                iface@,
            ),
        decreases adapters.len() - i,
    {
        let a = &adapters[i];
        let index = if is_ipv6 {
            a.ipv6_if_index
        } else {
            a.ipv4_if_index
        };
        let rest = Ghost(adapters@.subrange(i as int, adapters@.len() as int));
        assert(rest@[0] == adapters@[i as int]);
        assert(rest@.drop_first() == adapters@.subrange(i + 1, adapters@.len() as int));
        if index != 0 && (a.friendly_name == name || a.adapter_name == name) {
            return Some(index);
        }
        i = i + 1;
    }
    None
}

/// The result of the OS's direct name-to-index lookup: zero says only that
/// the name could not be resolved.
pub fn index_from_name_lookup(index: u32) -> (r: Result<u32, Error>)
    ensures
        index == 0 ==> r == Err::<u32, Error>(Error { kind: ErrorKind::InvalidInterfaceName }),
        index != 0 ==> r == Ok::<u32, Error>(index),
{
    if index == 0 {
        Err(Error { kind: ErrorKind::InvalidInterfaceName })
    } else {
        Ok(index)
    }
}

/// What the caller of a resolution does next.
#[derive(Debug, Clone, Copy, PartialEq, Eq, Structural)]
pub enum ResolveAction {
    /// The name resolved to this index.
    Resolved(u32),
    /// Fetch the adapter table and hand it to `on_adapters`.
    FetchAdapters,
    /// Ask the OS's name-to-index lookup and hand its answer to
    /// `on_name_lookup`.
    LookupName,
    /// The name resolved to nothing.
    Fail(Error),
}

/// One resolved name.
#[derive(Debug, Clone)]
pub struct CacheEntry {
    pub name: String,
    pub index: u32,
    pub resolved_at: u64,
}

/// Resolved interface indices keyed by name, each with the time (in
/// milliseconds) at which it was resolved.
#[derive(Debug, Clone)]
pub struct IndexCache {
    entries: Vec<CacheEntry>,
}

/// Whether an entry resolved at `resolved_at` is still valid at `now`.
pub open spec fn is_fresh(resolved_at: u64, now: u64) -> bool {
    (now as int) < resolved_at + INDEX_TTL_MS
}

/// What a lookup of `name` at `now` returns, given the cache's contents.
pub open spec fn cached_index(m: Map<Seq<char>, (u32, u64)>, name: Seq<char>, now: u64) -> Option<
    u32,
> {
    if m.contains_key(name) && is_fresh(m[name].1, now) {
        Some(m[name].0)
    } else {
        None
    }
}

impl IndexCache {
    /// Names are unique among the entries.
    pub closed spec fn wf(&self) -> bool {
        forall|i: int, j: int|
            0 <= i < j < self.entries@.len() ==> #[trigger] self.entries@[i].name@
                != #[trigger] self.entries@[j].name@
    }

    /// The cache as a map from name to (index, time of resolution).
    pub closed spec fn view(&self) -> Map<Seq<char>, (u32, u64)> {
        Map::new(
            |k: Seq<char>| exists|i: int| 0 <= i < self.entries@.len() && self.entries@[i].name@ == k,
            |k: Seq<char>|
                {
                    let i = choose|i: int| 0 <= i < self.entries@.len() && self.entries@[i].name@ == k;
                    (self.entries@[i].index, self.entries@[i].resolved_at)
                },
        )
    }

    proof fn lemma_view_at(&self, i: int)
        requires
            self.wf(),
            0 <= i < self.entries@.len(),
        ensures
            self@.contains_key(self.entries@[i].name@),
            self@[self.entries@[i].name@] == (self.entries@[i].index, self.entries@[i].resolved_at),
    {
        let k = self.entries@[i].name@;
        let j = choose|j: int| 0 <= j < self.entries@.len() && self.entries@[j].name@ == k;
        assert(j == i);
    }

    pub fn new() -> (r: IndexCache)
        ensures
            r.wf(),
            r@ == Map::<Seq<char>, (u32, u64)>::empty(),
    {
        let r = IndexCache { entries: Vec::new() };
        assert(r@ =~= Map::<Seq<char>, (u32, u64)>::empty());
        r
    }

    fn position(&self, name: &String) -> (r: Option<usize>)
        requires
            self.wf(),
        ensures
            match r {
                Some(i) => i < self.entries@.len() && self.entries@[i as int].name@ == name@,
                None => !self@.contains_key(name@),
            },
    {
        let mut i: usize = 0;
        while i < self.entries.len()
            invariant
                i <= self.entries@.len(),
                forall|j: int| 0 <= j < i ==> self.entries@[j].name@ != name@,
            decreases self.entries.len() - i,
        {
            if self.entries[i].name == *name {
                return Some(i);
            }
            i = i + 1;
        }
        None
    }

    /// The index cached for `name`, if it was resolved less than the TTL
    /// before `now`.
    pub fn lookup(&self, name: &str, now: u64) -> (r: Option<u32>)
        requires
            self.wf(),
        ensures
            r == cached_index(self@, name@, now),
    {
        let key = name.to_owned();
        match self.position(&key) {
            Some(i) => {
                proof {
                    self.lemma_view_at(i as int);
                }
                let e = &self.entries[i];
                if (now as u128) < (e.resolved_at as u128) + (INDEX_TTL_MS as u128) {
                    Some(e.index)
                } else {
                    None
                }
            },
            None => None,
        }
    }

    /// Inserts or overwrites the entry for `name`.
    pub fn record(&mut self, name: &str, index: u32, now: u64)
        requires
            old(self).wf(),
        ensures
            final(self).wf(),
            final(self)@ == old(self)@.insert(name@, (index, now)),
    {
        let key = name.to_owned();
        let entry = CacheEntry { name: key.clone(), index, resolved_at: now };
        match self.position(&key) {
            Some(i) => {
                self.entries.set(i, entry);
                proof {
                    assert forall|k: Seq<char>| #[trigger] final(self)@.contains_key(k) <==> old(self)@.insert(name@, (index, now)).contains_key(k) by {
                        if old(self)@.contains_key(k) {
                            let j = choose|j: int| 0 <= j < old(self).entries@.len() && old(self).entries@[j].name@ == k;
                            assert(self.entries@[j].name@ == k);
                        }
                        if final(self)@.contains_key(k) {
                            let j = choose|j: int| 0 <= j < self.entries@.len() && self.entries@[j].name@ == k;
                            if j != i {
                                assert(old(self).entries@[j].name@ == k);
                            }
                        }
                    }
                    assert forall|k: Seq<char>| #[trigger] final(self)@.contains_key(k) implies final(self)@[k] == old(self)@.insert(name@, (index, now))[k] by {
                        let j = choose|j: int| 0 <= j < self.entries@.len() && self.entries@[j].name@ == k;
                        self.lemma_view_at(j);
                        if j != i as int {
                            old(self).lemma_view_at(j);
                        }
                    }
                    assert(final(self)@ =~= old(self)@.insert(name@, (index, now)));
                }
            },
            None => {
                self.entries.push(entry);
                proof {
                    let n = old(self).entries@.len() as int;
                    assert forall|k: Seq<char>| #[trigger] final(self)@.contains_key(k) <==> old(self)@.insert(name@, (index, now)).contains_key(k) by {
                        if old(self)@.contains_key(k) {
                            let j = choose|j: int| 0 <= j < old(self).entries@.len() && old(self).entries@[j].name@ == k;
                            assert(self.entries@[j].name@ == k);
                        }
                        if k == name@ {
                            assert(self.entries@[n].name@ == k);
                        }
                        if final(self)@.contains_key(k) && k != name@ {
                            let j = choose|j: int| 0 <= j < self.entries@.len() && self.entries@[j].name@ == k;
                            assert(old(self).entries@[j].name@ == k);
                        }
                    }
                    assert forall|k: Seq<char>| #[trigger] final(self)@.contains_key(k) implies final(self)@[k] == old(self)@.insert(name@, (index, now))[k] by {
                        let j = choose|j: int| 0 <= j < self.entries@.len() && self.entries@[j].name@ == k;
                        self.lemma_view_at(j);
                        if j != n {
                            old(self).lemma_view_at(j);
                        }
                    }
                    assert(final(self)@ =~= old(self)@.insert(name@, (index, now)));
                }
            },
        }
    }
}

impl IndexCache {
    /// Starts resolving `iface` at time `now`: a fresh cached index answers at
    /// once, without any OS call; otherwise the adapter table is needed.
    pub fn start_resolution(&self, iface: &str, now: u64) -> (r: ResolveAction)
        requires
            self.wf(),
        ensures
            match cached_index(self@, iface@, now) {
                Some(i) => r == ResolveAction::Resolved(i),
                None => r == ResolveAction::FetchAdapters,
            },
    {
        match self.lookup(iface, now) {
            Some(i) => ResolveAction::Resolved(i),
            None => ResolveAction::FetchAdapters,
        }
    }

    /// Continues with the adapter table: the first matching adapter's index
    /// resolves the name and is cached; with no match, the OS's name lookup
    /// is next.
    pub fn on_adapters(&mut self, is_ipv6: bool, iface: &str, now: u64, adapters: &Vec<Adapter>) -> (r:
        ResolveAction)
        requires
            old(self).wf(),
        ensures
            final(self).wf(),
            match first_match(adapters@, is_ipv6, iface@) {
                Some(i) => r == ResolveAction::Resolved(i) && final(self)@ == old(self)@.insert(
                    iface@,
                    (i, now),
                ),
                None => r == ResolveAction::LookupName && final(self)@ == old(self)@,
            },
    {
        match find_adapter_interface_index(is_ipv6, iface, adapters) {
            Some(i) => {
                self.record(iface, i, now);
                ResolveAction::Resolved(i)
            },
            None => ResolveAction::LookupName,
        }
    }

    /// Finishes with the answer of the OS's name lookup: zero cannot be
    /// resolved and is an invalid-name error; any other index is cached.
    pub fn on_name_lookup(&mut self, iface: &str, now: u64, index: u32) -> (r: ResolveAction)
        requires
            old(self).wf(),
        ensures
            final(self).wf(),
            index == 0 ==> r == ResolveAction::Fail(Error { kind: ErrorKind::InvalidInterfaceName })
                && final(self)@ == old(self)@,
            index != 0 ==> r == ResolveAction::Resolved(index) && final(self)@ == old(self)@.insert(
                iface@,
                (index, now),
            ),
    {
        match index_from_name_lookup(index) {
            Ok(i) => {
                self.record(iface, i, now);
                ResolveAction::Resolved(i)
            },
            Err(e) => ResolveAction::Fail(e),
        }
    }
}

/// A name recorded at time `t` is served from the cache by every lookup
/// before `t` plus the TTL, and by none at or after it, until the name is
/// recorded again.
pub proof fn lemma_cache_ttl(
    m: Map<Seq<char>, (u32, u64)>,
    name: Seq<char>,
    index: u32,
    t: u64,
    now: u64,
)
    ensures
        (now as int) < t + INDEX_TTL_MS ==> cached_index(m.insert(name, (index, t)), name, now)
            == Some(index),
        (now as int) >= t + INDEX_TTL_MS ==> cached_index(m.insert(name, (index, t)), name, now)
            is None,
{
}

} // verus!
