//! The server's in-memory cache of directory catalogs.
use vstd::prelude::*;

use crate::browse::CatalogEntry;
use crate::text::str_eq;

verus! {

/// How long a fetched catalog stays fresh, in milliseconds.
pub open spec fn catalog_ttl_ms() -> u64 {
    60_000
}

/// The most catalog entries of a directory asked of the media mesh at once.
pub fn catalog_fetch_limit() -> (n: i64)
    ensures
        n == 50_000,
{
    50_000
}

/// The milliseconds elapsed from `then` to `now` (zero when `now` is
/// earlier, as `Instant::elapsed` saturates).
pub open spec fn elapsed_ms(then: u64, now: u64) -> int {
    if now >= then {
        now - then
    } else {
        0
    }
}

/// The catalog entries cached for `dir` that are still fresh at `now`.
pub open spec fn fresh_entries(
    m: Map<Seq<char>, (Seq<CatalogEntry>, u64)>,
    dir: Seq<char>,
    now: u64,
) -> Option<Seq<CatalogEntry>> {
    if m.contains_key(dir) && elapsed_ms(m[dir].1, now) < catalog_ttl_ms() {
        Some(m[dir].0)
    } else {
        None
    }
}

/// The catalog of a directory, with when it was fetched.
pub struct CachedCatalog {
    pub entries: Vec<CatalogEntry>,
    /// When the catalog was fetched, in milliseconds of a monotonic clock.
    pub fetched_at: u64,
}

/// Catalogs of directories, each kept for a minute after it is fetched.
pub struct CatalogCache {
    slots: Vec<(String, CachedCatalog)>,
}

/// The catalogs that a list of slots holds.
pub open spec fn slots_view(slots: Seq<(String, CachedCatalog)>) -> Map<Seq<char>, (Seq<CatalogEntry>, u64)> {
    Map::new(
        |d: Seq<char>| exists|i: int| 0 <= i < slots.len() && #[trigger] slots[i].0@ == d,
        |d: Seq<char>| {
            let i = choose|i: int| 0 <= i < slots.len() && #[trigger] slots[i].0@ == d;
            (slots[i].1.entries@, slots[i].1.fetched_at)
        },
    )
}

/// No directory has two slots.
pub open spec fn slots_unique(slots: Seq<(String, CachedCatalog)>) -> bool {
    forall|i: int, j: int| 0 <= i < j < slots.len() ==> #[trigger] slots[i].0@ != #[trigger] slots[j].0@
}

proof fn lemma_slot(slots: Seq<(String, CachedCatalog)>, i: int)
    requires
        slots_unique(slots),
        0 <= i < slots.len(),
    ensures
        slots_view(slots).contains_key(slots[i].0@),
        slots_view(slots)[slots[i].0@] == (slots[i].1.entries@, slots[i].1.fetched_at),
{
    let d = slots[i].0@;
    assert(slots_view(slots).dom().contains(d));
    let j = choose|j: int| 0 <= j < slots.len() && #[trigger] slots[j].0@ == d;
    if i < j {
        assert(slots[i].0@ != slots[j].0@);
    } else if j < i {
        assert(slots[j].0@ != slots[i].0@);
    }
}

fn find_slot(slots: &Vec<(String, CachedCatalog)>, dir: &str) -> (r: Option<usize>)
    requires
        slots_unique(slots@),
    ensures
        match r {
            Some(i) => i < slots@.len() && slots@[i as int].0@ == dir@,
            None => !slots_view(slots@).contains_key(dir@),
        },
{
    let n = slots.len();
    let mut i: usize = 0;
    while i < n
        invariant
            n == slots@.len(),
            i <= n,
            forall|j: int| 0 <= j < i ==> #[trigger] slots@[j].0@ != dir@,
        decreases n - i,
    {
        if str_eq(slots[i].0.as_str(), dir) {
            return Some(i);
        }
        i = i + 1;
    }
    None
}

fn insert_slot(slots: &mut Vec<(String, CachedCatalog)>, dir: String, entries: Vec<CatalogEntry>, now: u64)
    requires
        slots_unique(old(slots)@),
    ensures
        slots_unique(final(slots)@),
        slots_view(final(slots)@) == slots_view(old(slots)@).insert(dir@, (entries@, now)),
{
    let ghost d = dir@;
    let ghost e = entries@;
    remove_slot(slots, dir.as_str());
    let ghost mid = slots@;
    let ghost mid_view = slots_view(slots@);
    assert(!mid_view.contains_key(d));
    slots.push((dir, CachedCatalog { entries, fetched_at: now }));
    proof {
        assert forall|i: int, j: int|
            0 <= i < j < slots@.len() implies #[trigger] slots@[i].0@
            != #[trigger] slots@[j].0@ by {
            if j == slots@.len() - 1 {
                assert(slots@[i] == mid[i]);
                if mid[i].0@ == d {
                    assert(mid_view.contains_key(d));
                }
            } else {
                assert(slots@[i] == mid[i]);
                assert(slots@[j] == mid[j]);
            }
        }
        let last = slots@.len() - 1;
        assert forall|x: Seq<char>|
            #[trigger] slots_view(slots@).contains_key(x) <==> mid_view.insert(
                d,
                (e, now),
            ).contains_key(x) by {
            if x == d {
                assert(slots@[last].0@ == d);
            } else if slots_view(slots@).contains_key(x) {
                let i = choose|i: int| 0 <= i < slots@.len() && #[trigger] slots@[i].0@ == x;
                assert(slots@[i] == mid[i]);
            } else if mid_view.contains_key(x) {
                let i = choose|i: int| 0 <= i < mid.len() && #[trigger] mid[i].0@ == x;
                assert(slots@[i] == mid[i]);
            }
        }
        assert forall|x: Seq<char>| #[trigger] slots_view(slots@).contains_key(x) implies slots_view(
            slots@,
        )[x] == mid_view.insert(d, (e, now))[x] by {
            let i = choose|i: int| 0 <= i < slots@.len() && #[trigger] slots@[i].0@ == x;
            lemma_slot(slots@, i);
            if x != d {
                assert(slots@[i] == mid[i]);
                lemma_slot(mid, i);
            }
        }
        assert(slots_view(slots@) =~= mid_view.insert(d, (e, now)));
    }
}

fn remove_slot(slots: &mut Vec<(String, CachedCatalog)>, dir: &str)
    requires
        slots_unique(old(slots)@),
    ensures
        slots_unique(final(slots)@),
        slots_view(final(slots)@) == slots_view(old(slots)@).remove(dir@),
{
    match find_slot(slots, dir) {
        None => {
            assert(slots_view(slots@) =~= slots_view(old(slots)@).remove(dir@));
        },
        Some(i) => {
            let ghost before = slots@;
            let ghost before_view = slots_view(slots@);
            slots.remove(i);
            proof {
                assert(slots@ == before.remove(i as int));
                assert forall|a: int, b: int|
                    0 <= a < b < slots@.len() implies #[trigger] slots@[a].0@
                    != #[trigger] slots@[b].0@ by {
                    let a0 = if a < i { a } else { a + 1 };
                    let b0 = if b < i { b } else { b + 1 };
                    assert(slots@[a] == before[a0]);
                    assert(slots@[b] == before[b0]);
                }
                assert forall|x: Seq<char>|
                    #[trigger] slots_view(slots@).contains_key(x) <==> before_view.remove(
                        dir@,
                    ).contains_key(x) by {
                    if slots_view(slots@).contains_key(x) {
                        let k = choose|k: int| 0 <= k < slots@.len() && #[trigger] slots@[k].0@ == x;
                        let k0 = if k < i { k } else { k + 1 };
                        assert(slots@[k] == before[k0]);
                        assert(before[k0].0@ == x);
                        assert(k0 != i);
                        assert(x != dir@);
                    } else if before_view.contains_key(x) && x != dir@ {
                        let k = choose|k: int| 0 <= k < before.len() && #[trigger] before[k].0@ == x;
                        assert(k != i);
                        let k1 = if k < i { k } else { k - 1 };
                        assert(slots@[k1] == before[k]);
                    }
                }
                assert forall|x: Seq<char>| #[trigger] slots_view(slots@).contains_key(x) implies slots_view(
                    slots@,
                )[x] == before_view.remove(dir@)[x] by {
                    let k = choose|k: int| 0 <= k < slots@.len() && #[trigger] slots@[k].0@ == x;
                    lemma_slot(slots@, k);
                    let k0 = if k < i { k } else { k + 1 };
                    assert(slots@[k] == before[k0]);
                    lemma_slot(before, k0);
                }
                assert(slots_view(slots@) =~= before_view.remove(dir@));
            }
        },
    }
}

impl CatalogCache {
    /// The cached catalogs: for each directory, its entries and fetch time.
    pub closed spec fn view(&self) -> Map<Seq<char>, (Seq<CatalogEntry>, u64)> {
        slots_view(self.slots@)
    }

    /// No directory has two slots.
    #[verifier::type_invariant]
    closed spec fn wf(&self) -> bool {
        slots_unique(self.slots@)
    }

    /// An empty cache.
    pub fn new() -> (c: CatalogCache)
        ensures
            c@ == Map::<Seq<char>, (Seq<CatalogEntry>, u64)>::empty(),
    {
        let c = CatalogCache { slots: Vec::new() };
        assert(c@ =~= Map::<Seq<char>, (Seq<CatalogEntry>, u64)>::empty());
        c
    }

    /// The catalog cached for `dir`, when it was fetched less than a minute
    /// before `now`.
    pub fn get_fresh(&self, dir: &str, now: u64) -> (r: Option<Vec<CatalogEntry>>)
        ensures
            match fresh_entries(self@, dir@, now) {
                Some(e) => r matches Some(v) && v@ == e,
                None => r is None,
            },
    {
        proof {
            use_type_invariant(self);
        }
        match find_slot(&self.slots, dir) {
            None => None,
            Some(i) => {
                proof {
                    lemma_slot(self.slots@, i as int);
                }
                let slot = &self.slots[i].1;
                let elapsed = if now >= slot.fetched_at {
                    now - slot.fetched_at
                } else {
                    0
                };
                if elapsed < 60_000 {
                    let n = slot.entries.len();
                    let mut out: Vec<CatalogEntry> = Vec::new();
                    let mut k: usize = 0;
                    while k < n
                        invariant
                            n == slot.entries@.len(),
                            k <= n,
                            out@ =~= slot.entries@.take(k as int),
                        decreases n - k,
                    {
                        out.push(slot.entries[k].duplicate());
                        k = k + 1;
                    }
                    assert(slot.entries@.take(n as int) =~= slot.entries@);
                    Some(out)
                } else {
                    None
                }
            },
        }
    }

    /// Keeps `entries` as the catalog of `dir`, fetched at `now`, in place of
    /// any earlier one.
    pub fn insert(&mut self, dir: String, entries: Vec<CatalogEntry>, now: u64)
        ensures
            final(self)@ == old(self)@.insert(dir@, (entries@, now)),
    {
        proof {
            use_type_invariant(&*self);
        }
        let mut slots: Vec<(String, CachedCatalog)> = Vec::new();
        std::mem::swap(&mut slots, &mut self.slots);
        insert_slot(&mut slots, dir, entries, now);
        self.slots = slots;
    }

    /// Settles a catalog request for `dir` that missed the cache, given what
    /// the media mesh answered (`None` when the fetch failed): a fetched
    /// catalog is kept as fetched at `now` and answered; a failed fetch
    /// answers an empty catalog and leaves the cache as it was.
    pub fn record_fetch(&mut self, dir: &str, fetched: Option<Vec<CatalogEntry>>, now: u64) -> (r: Vec<
        CatalogEntry,
    >)
        ensures
            match fetched {
                Some(e) => r@ == e@ && final(self)@ == old(self)@.insert(dir@, (e@, now)),
                None => r@.len() == 0 && final(self)@ == old(self)@,
            },
    {
        match fetched {
            None => Vec::new(),
            Some(entries) => {
                let n = entries.len();
                let mut kept: Vec<CatalogEntry> = Vec::new();
                let mut k: usize = 0;
                while k < n
                    invariant
                        n == entries@.len(),
                        k <= n,
                        kept@ =~= entries@.take(k as int),
                    decreases n - k,
                {
                    kept.push(entries[k].duplicate());
                    k = k + 1;
                }
                assert(entries@.take(n as int) =~= entries@);
                self.insert(crate::text::owned(dir), kept, now);
                entries
            },
        }
    }

    /// Forgets the catalog of `dir`.
    pub fn remove(&mut self, dir: &str)
        ensures
            final(self)@ == old(self)@.remove(dir@),
    {
        proof {
            use_type_invariant(&*self);
        }
        let mut slots: Vec<(String, CachedCatalog)> = Vec::new();
        std::mem::swap(&mut slots, &mut self.slots);
        remove_slot(&mut slots, dir);
        self.slots = slots;
    }
}

} // verus!
