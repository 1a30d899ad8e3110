//! Properties that hold across the library's operations.
use vstd::prelude::*;

use crate::browse::{
    entry_for, BrowseEntry,
    listing_keys, listing_month_keys, listed_in_order, modified_key, opt_view, page_of, sorted_listing,
    sorts_descending, CatalogEntry, FileEntry,
};
use crate::media::range_of;
use crate::models::{
    change_of, changes_of, is_playback, step_for, timeline_keys, MemoryField, MemoryItem, MemoryNote,
    PlaybackEntry, UpdateMemory,
};
use crate::months::{groups_of, month_key_of, month_label_of, run_holds, runs_adjoin, MonthGroup};
use crate::order::{is_permutation, key_before, lemma_stable_order_unique, lists, precedes, stably_sorted};
use crate::state::{catalog_ttl_ms, elapsed_ms, fresh_entries};
use crate::filetype::{
    image_extensions, kind_of_extension, kind_of_name, raw_extensions, video_extensions, FileKind,
};
use crate::text::{
    ascii_upper, last_segment, is_ascii_chars, lemma_ascii_upper_lower, lemma_last_segment_after,
    digit_char, lemma_first_segment_whole, lemma_last_segment_ascii, lemma_last_segment_upper,
    lemma_seq_lt_total, lemma_split_at_first, seq_lt,
};

verus! {

/// A listing has one order: ordering the same entries with the same sort
/// parameter always gives the same result.
pub proof fn law_listing_order_is_unique(
    files: Seq<FileEntry>,
    sort: Seq<char>,
    r1: Seq<FileEntry>,
    r2: Seq<FileEntry>,
)
    requires
        sorted_listing(files, sort, r1),
        sorted_listing(files, sort, r2),
    ensures
        r1 == r2,
{
    let desc = sorts_descending(sort);
    let keys = listing_keys(files);
    let p1 = choose|p: Seq<usize>| stably_sorted::<Vec<char>>(keys, desc, p) && listed_in_order(files, p, r1);
    let p2 = choose|p: Seq<usize>| stably_sorted::<Vec<char>>(keys, desc, p) && listed_in_order(files, p, r2);
    lemma_stable_order_unique::<Vec<char>>(keys, desc, p1, p2);
    assert(r1 =~= r2);
}

/// An ordered listing runs from newest to oldest modification time (oldest
/// to newest for "oldest"): no entry is listed before one with a later time
/// (an earlier one, for "oldest").
pub proof fn law_listing_is_sorted_by_time(
    files: Seq<FileEntry>,
    sort: Seq<char>,
    r: Seq<FileEntry>,
    k: int,
    l: int,
)
    requires
        sorted_listing(files, sort, r),
        0 <= k < l < r.len(),
    ensures
        sort == "oldest"@ ==> !seq_lt(modified_key(r[l]), modified_key(r[k])),
        sort != "oldest"@ ==> !seq_lt(modified_key(r[k]), modified_key(r[l])),
{
    let desc = sorts_descending(sort);
    let keys = listing_keys(files);
    let p = choose|p: Seq<usize>| stably_sorted::<Vec<char>>(keys, desc, p) && listed_in_order(files, p, r);
    assert(precedes::<Vec<char>>(keys, desc, p[k] as int, p[l] as int));
    assert(r[k] == files[p[k] as int]);
    assert(r[l] == files[p[l] as int]);
    assert(keys[p[k] as int] == modified_key(files[p[k] as int]));
    assert(keys[p[l] as int] == modified_key(files[p[l] as int]));
    crate::text::lemma_seq_lt_asymmetric(modified_key(r[k]), modified_key(r[l]));
    crate::text::lemma_seq_lt_asymmetric(modified_key(r[l]), modified_key(r[k]));
}

proof fn lemma_runs_ordered(keys: Seq<Seq<char>>, g: Seq<MonthGroup>, j: int, m: int)
    requires
        groups_of(keys, g),
        0 <= j < m < g.len(),
    ensures
        g[j].offset + g[j].count <= g[m].offset,
    decreases m - j,
{
    assert(runs_adjoin(g, j));
    if j + 1 < m {
        lemma_runs_ordered(keys, g, j + 1, m);
        assert(run_holds(keys, g, j + 1));
    }
}

proof fn lemma_group_holding(keys: Seq<Seq<char>>, g: Seq<MonthGroup>, i: int, j: int)
    requires
        groups_of(keys, g),
        0 <= i < keys.len(),
        0 <= j < g.len(),
        g[j].offset <= i,
    ensures
        exists|m: int| #![trigger g[m]] 0 <= m < g.len() && g[m].offset <= i < g[m].offset + g[m].count,
    decreases g.len() - j,
{
    if i >= g[j].offset + g[j].count {
        if j + 1 < g.len() {
            assert(runs_adjoin(g, j));
            lemma_group_holding(keys, g, i, j + 1);
        } else {
            assert(g.last().offset + g.last().count == keys.len());
        }
    }
}

/// Every entry of a listing falls in exactly one month group.
pub proof fn law_month_groups_cover_listing(keys: Seq<Seq<char>>, g: Seq<MonthGroup>, i: int)
    requires
        groups_of(keys, g),
        0 <= i < keys.len(),
    ensures
        exists|j: int| #![trigger g[j]] 0 <= j < g.len() && g[j].offset <= i < g[j].offset + g[j].count,
        forall|j: int, m: int|
            #![trigger g[j], g[m]]
            0 <= j < g.len() && 0 <= m < g.len() && g[j].offset <= i < g[j].offset + g[j].count
                && g[m].offset <= i < g[m].offset + g[m].count ==> j == m,
{
    lemma_group_holding(keys, g, i, 0);
    assert forall|a: int, b: int|
        #![trigger g[a], g[b]]
        0 <= a < g.len() && 0 <= b < g.len() && g[a].offset <= i < g[a].offset + g[a].count
            && g[b].offset <= i < g[b].offset + g[b].count implies a == b by {
        if a < b {
            lemma_runs_ordered(keys, g, a, b);
        } else if b < a {
            lemma_runs_ordered(keys, g, b, a);
        }
    }
}

/// A month group names the page of the listing that holds its entries:
/// paging the listing at the group's offset, with its count as the limit,
/// gives that many entries, all modified in the group's month.
pub proof fn law_month_group_is_a_page(files: Seq<FileEntry>, g: Seq<MonthGroup>, j: int)
    requires
        groups_of(listing_month_keys(files), g),
        0 <= j < g.len(),
    ensures
        page_of(files, g[j].offset as int, g[j].count as int).len() == g[j].count,
        forall|t: int|
            0 <= t < g[j].count ==> month_key_of(
                opt_view(#[trigger] page_of(files, g[j].offset as int, g[j].count as int)[t].modified),
            ) == g[j].month@,
{
    let keys = listing_month_keys(files);
    assert(run_holds(keys, g, j));
    let page = page_of(files, g[j].offset as int, g[j].count as int);
    assert forall|t: int| 0 <= t < g[j].count implies month_key_of(
        opt_view(#[trigger] page_of(files, g[j].offset as int, g[j].count as int)[t].modified),
    ) == g[j].month@ by {
        assert(page[t] == files[g[j].offset + t]);
        assert(keys[g[j].offset + t] == g[j].month@);
    }
}

/// Consecutive pages make up the page that spans them both.
pub proof fn law_pages_concatenate(files: Seq<FileEntry>, offset: nat, a: nat, b: nat)
    ensures
        page_of(files, offset as int, a as int) + page_of(files, (offset + a) as int, b as int)
            == page_of(files, offset as int, (a + b) as int),
{
    assert(page_of(files, offset as int, a as int) + page_of(files, (offset + a) as int, b as int)
        =~= page_of(files, offset as int, (a + b) as int));
}

/// A page has more after it exactly when the next page is not empty.
pub proof fn law_has_more_iff_next_page(files: Seq<FileEntry>, offset: nat, limit: nat, next: nat)
    requires
        next > 0,
    ensures
        (offset + limit < files.len()) <==> page_of(files, (offset + limit) as int, next as int).len() > 0,
{
}

/// A served byte range lies within the body: the last byte is a byte of
/// it, and the first is at most one past the end.
pub proof fn law_range_within_body(spec: Seq<char>, total: int)
    requires
        total > 0,
    ensures
        0 <= range_of(spec, total).0 <= total,
        0 <= range_of(spec, total).1 < total,
{
}

/// A catalog stored for a directory is read back while it is fresh.
pub proof fn law_cache_read_after_write(
    m: Map<Seq<char>, (Seq<CatalogEntry>, u64)>,
    dir: Seq<char>,
    entries: Seq<CatalogEntry>,
    fetched_at: u64,
    now: u64,
)
    requires
        elapsed_ms(fetched_at, now) < catalog_ttl_ms(),
    ensures
        fresh_entries(m.insert(dir, (entries, fetched_at)), dir, now) == Some(entries),
{
}

/// A cached catalog expires a minute after it was fetched.
pub proof fn law_cache_expires(
    m: Map<Seq<char>, (Seq<CatalogEntry>, u64)>,
    dir: Seq<char>,
    entries: Seq<CatalogEntry>,
    fetched_at: u64,
    now: u64,
)
    requires
        elapsed_ms(fetched_at, now) >= catalog_ttl_ms(),
    ensures
        fresh_entries(m.insert(dir, (entries, fetched_at)), dir, now) is None,
{
}

/// After a directory's catalog is invalidated, it is not served from the
/// cache.
pub proof fn law_cache_invalidate(
    m: Map<Seq<char>, (Seq<CatalogEntry>, u64)>,
    dir: Seq<char>,
    now: u64,
)
    ensures
        fresh_entries(m.remove(dir), dir, now) is None,
{
}

/// Storing or invalidating one directory's catalog leaves the others as
/// they were.
pub proof fn law_cache_other_directories(
    m: Map<Seq<char>, (Seq<CatalogEntry>, u64)>,
    dir: Seq<char>,
    other: Seq<char>,
    entries: Seq<CatalogEntry>,
    fetched_at: u64,
    now: u64,
)
    requires
        dir != other,
    ensures
        fresh_entries(m.insert(dir, (entries, fetched_at)), other, now) == fresh_entries(m, other, now),
        fresh_entries(m.remove(dir), other, now) == fresh_entries(m, other, now),
{
}

/// Playback runs in sort order: no step comes before one with a smaller
/// sort order, and on equal sort orders media items come before notes.
pub proof fn law_playback_in_sort_order(
    items: Seq<MemoryItem>,
    notes: Seq<MemoryNote>,
    r: Seq<PlaybackEntry>,
    k: int,
    l: int,
)
    requires
        is_playback(items, notes, r),
        0 <= k < l < r.len(),
    ensures
        r[k].sort_order <= r[l].sort_order,
        r[k].sort_order == r[l].sort_order && r[k].note is Some ==> r[l].note is Some,
{
    let keys = timeline_keys(items, notes);
    let p = choose|p: Seq<usize>|
        {
            &&& stably_sorted::<i32>(keys, false, p)
            &&& r.len() == p.len()
            &&& forall|k: int| 0 <= k < p.len() ==> step_for(#[trigger] r[k], items, notes, p[k] as int)
        };
    assert(step_for(r[k], items, notes, p[k] as int));
    assert(step_for(r[l], items, notes, p[l] as int));
    assert(precedes::<i32>(keys, false, p[k] as int, p[l] as int));
    let ni = items.len() as int;
    assert(p[k] < keys.len());
    assert(p[l] < keys.len());
    if p[k] < ni {
        assert(keys[p[k] as int] == items[p[k] as int].sort_order);
    } else {
        assert(keys[p[k] as int] == notes[p[k] - ni].sort_order);
    }
    if p[l] < ni {
        assert(keys[p[l] as int] == items[p[l] as int].sort_order);
    } else {
        assert(keys[p[l] as int] == notes[p[l] - ni].sort_order);
    }
}

/// Some step of the playback `r` shows position `j` of the timeline.
pub open spec fn shows(r: Seq<PlaybackEntry>, items: Seq<MemoryItem>, notes: Seq<MemoryNote>, j: int) -> bool {
    exists|k: int| 0 <= k < r.len() && #[trigger] step_for(r[k], items, notes, j)
}

/// Playback shows every item and every note of the memory exactly once.
pub proof fn law_playback_shows_everything_once(
    items: Seq<MemoryItem>,
    notes: Seq<MemoryNote>,
    r: Seq<PlaybackEntry>,
)
    requires
        is_playback(items, notes, r),
    ensures
        r.len() == items.len() + notes.len(),
        forall|j: int| 0 <= j < items.len() + notes.len() ==> #[trigger] shows(r, items, notes, j),
{
    let keys = timeline_keys(items, notes);
    let p = choose|p: Seq<usize>|
        {
            &&& stably_sorted::<i32>(keys, false, p)
            &&& r.len() == p.len()
            &&& forall|k: int| 0 <= k < p.len() ==> step_for(#[trigger] r[k], items, notes, p[k] as int)
        };
    assert forall|j: int| 0 <= j < items.len() + notes.len() implies #[trigger] shows(r, items, notes, j) by {
        assert(crate::order::lists(p, keys.len(), j));
        let k = choose|k: int| 0 <= k < keys.len() && #[trigger] p[k] == j;
        assert(step_for(r[k], items, notes, p[k] as int));
    }
}

} // verus!

verus! {

proof fn lemma_groups_agree_upto(keys: Seq<Seq<char>>, g1: Seq<MonthGroup>, g2: Seq<MonthGroup>, j: int)
    requires
        groups_of(keys, g1),
        groups_of(keys, g2),
        0 <= j < g1.len(),
        0 <= j < g2.len(),
    ensures
        g1[j].offset == g2[j].offset,
        g1[j].count == g2[j].count,
        g1[j].month@ == g2[j].month@,
    decreases j,
{
    if j > 0 {
        lemma_groups_agree_upto(keys, g1, g2, j - 1);
        assert(runs_adjoin(g1, j - 1));
        assert(runs_adjoin(g2, j - 1));
    }
    let o = g1[j].offset as int;
    assert(run_holds(keys, g1, j));
    assert(run_holds(keys, g2, j));
    assert(keys[o] == g1[j].month@);
    assert(keys[o] == g2[j].month@);
    let c1 = g1[j].count as int;
    let c2 = g2[j].count as int;
    if c1 < c2 {
        // The key after run `j` of `g1` is still in run `j` of `g2`, yet it
        // starts the next run of `g1`, whose key differs.
        assert(keys[o + c1] == g2[j].month@);
        if j + 1 < g1.len() {
            assert(runs_adjoin(g1, j));
            assert(run_holds(keys, g1, j + 1));
            assert(keys[o + c1] == g1[j + 1].month@);
        } else {
            assert(g1.last().offset + g1.last().count == keys.len());
        }
    } else if c2 < c1 {
        assert(keys[o + c2] == g1[j].month@);
        if j + 1 < g2.len() {
            assert(runs_adjoin(g2, j));
            assert(run_holds(keys, g2, j + 1));
            assert(keys[o + c2] == g2[j + 1].month@);
        } else {
            assert(g2.last().offset + g2.last().count == keys.len());
        }
    }
}

/// Two runs start at the same position, cover as many files, and carry the
/// same month and label.
pub open spec fn same_run(a: MonthGroup, b: MonthGroup) -> bool {
    &&& a.offset == b.offset
    &&& a.count == b.count
    &&& a.month@ == b.month@
    &&& a.label@ == b.label@
}

/// A listing has one month index: two groupings of the same month keys
/// have the same runs, with the same months, labels, sizes and offsets.
pub proof fn law_month_groups_unique(keys: Seq<Seq<char>>, g1: Seq<MonthGroup>, g2: Seq<MonthGroup>)
    requires
        groups_of(keys, g1),
        groups_of(keys, g2),
    ensures
        g1.len() == g2.len(),
        forall|j: int| 0 <= j < g1.len() ==> #[trigger] same_run(g1[j], g2[j]),
{
    if g1.len() < g2.len() {
        if g1.len() == 0 {
        } else {
            let j = g1.len() - 1;
            lemma_groups_agree_upto(keys, g1, g2, j);
            assert(runs_adjoin(g2, j));
            assert(run_holds(keys, g2, j + 1));
        }
    } else if g2.len() < g1.len() {
        if g2.len() == 0 {
        } else {
            let j = g2.len() - 1;
            lemma_groups_agree_upto(keys, g1, g2, j);
            assert(runs_adjoin(g1, j));
            assert(run_holds(keys, g1, j + 1));
        }
    }
    assert(g1.len() == g2.len());
    assert forall|j: int| 0 <= j < g1.len() implies #[trigger] same_run(g1[j], g2[j]) by {
        lemma_groups_agree_upto(keys, g1, g2, j);
        assert(run_holds(keys, g1, j));
        assert(run_holds(keys, g2, j));
    }
}

} // verus!

verus! {

/// A file's kind does not depend on the case of an ASCII name: a name and
/// its upper-case form have the same kind.
pub proof fn law_kind_ignores_case(name: Seq<char>)
    requires
        is_ascii_chars(name),
    ensures
        kind_of_name(name) == kind_of_name(ascii_upper(name)),
{
    let seg = last_segment(name, '.');
    lemma_last_segment_upper(name);
    lemma_last_segment_ascii(name, '.');
    lemma_ascii_upper_lower(seg);
}

/// Only the last extension counts: two names that end in the same
/// extension `e` after a '.' have the same kind, whatever comes before.
pub proof fn law_kind_by_last_extension(a: Seq<char>, b: Seq<char>, e: Seq<char>)
    requires
        !e.contains('.'),
    ensures
        kind_of_name(a + seq!['.'] + e) == kind_of_name(b + seq!['.'] + e),
{
    lemma_last_segment_after(a, '.', e);
    lemma_last_segment_after(b, '.', e);
}

} // verus!

verus! {

/// When no two entries share a modification time, the "oldest" listing is
/// the "newest" listing (any other sort parameter) read backwards.
pub proof fn law_oldest_is_newest_reversed(
    files: Seq<FileEntry>,
    sort: Seq<char>,
    oldest: Seq<FileEntry>,
    newest: Seq<FileEntry>,
)
    requires
        forall|i: int, j: int|
            0 <= i < j < files.len() ==> modified_key(#[trigger] files[i]) != modified_key(
                #[trigger] files[j],
            ),
        sort != "oldest"@,
        sorted_listing(files, "oldest"@, oldest),
        sorted_listing(files, sort, newest),
    ensures
        newest == oldest.reverse(),
{
    let keys = listing_keys(files);
    let n = keys.len();
    assert(!sorts_descending("oldest"@));
    assert(sorts_descending(sort));
    let p1 = choose|p: Seq<usize>|
        stably_sorted::<Vec<char>>(keys, false, p) && listed_in_order(files, p, oldest);
    let p2 = choose|p: Seq<usize>|
        stably_sorted::<Vec<char>>(keys, true, p) && listed_in_order(files, p, newest);
    let q = p1.reverse();
    assert(is_permutation(q, n)) by {
        assert forall|k: int, l: int| 0 <= k < l < n implies #[trigger] q[k] != #[trigger] q[l] by {
            assert(q[k] == p1[n - 1 - k]);
            assert(q[l] == p1[n - 1 - l]);
        }
        assert forall|x: int| 0 <= x < n implies #[trigger] lists(q, n, x) by {
            assert(lists(p1, n, x));
            let k = choose|k: int| 0 <= k < n && #[trigger] p1[k] == x;
            assert(q[n - 1 - k] == x);
        }
    }
    assert forall|k: int, l: int| 0 <= k < l < q.len() implies #[trigger] precedes::<Vec<char>>(
        keys,
        true,
        q[k] as int,
        #[trigger] q[l] as int,
    ) by {
        let a = q[l] as int;
        let b = q[k] as int;
        assert(q[k] == p1[n - 1 - k]);
        assert(q[l] == p1[n - 1 - l]);
        assert(precedes::<Vec<char>>(keys, false, p1[n - 1 - l] as int, p1[n - 1 - k] as int));
        assert(a != b);
        assert(keys[a] == modified_key(files[a]));
        assert(keys[b] == modified_key(files[b]));
        assert(keys[a] != keys[b]);
        lemma_seq_lt_total(keys[a], keys[b]);
        assert(key_before::<Vec<char>>(keys[b], keys[a], true));
    }
    lemma_stable_order_unique::<Vec<char>>(keys, true, q, p2);
    assert forall|k: int| 0 <= k < newest.len() implies #[trigger] newest[k] == oldest.reverse()[k] by {
        assert(newest[k] == files[p2[k] as int]);
        assert(oldest[n - 1 - k] == files[p1[n - 1 - k] as int]);
    }
    assert(newest =~= oldest.reverse());
}

/// Entries without a modification time sort as the earliest: under
/// "oldest" they come first, under any other sort parameter last. (An
/// entry dated by the empty string sorts with them.)
pub proof fn law_undated_entries_sort_earliest(
    files: Seq<FileEntry>,
    sort: Seq<char>,
    r: Seq<FileEntry>,
    k: int,
    l: int,
)
    requires
        sorted_listing(files, sort, r),
        0 <= k < l < r.len(),
    ensures
        sort == "oldest"@ && r[l].modified is None ==> modified_key(r[k]).len() == 0,
        sort != "oldest"@ && r[k].modified is None ==> modified_key(r[l]).len() == 0,
{
    law_listing_is_sorted_by_time(files, sort, r, k, l);
}

} // verus!

verus! {

/// The English names of the months of the Gregorian calendar, January
/// first.
pub open spec fn calendar_month_names() -> Seq<Seq<char>> {
    seq!["January"@, "February"@, "March"@, "April"@, "May"@, "June"@, "July"@, "August"@, "September"@, "October"@, "November"@, "December"@]
}

/// The two-digit numeral of a month number, such as "06" for 6.
pub open spec fn two_digits(n: nat) -> Seq<char> {
    seq![digit_char(n / 10), digit_char(n % 10)]
}

/// A month key "YYYY-MM" is labelled with the name of the MM-th month of the
/// year, then the year: "2024-06" is "June 2024".
pub proof fn law_month_label_names_the_month(year: Seq<char>, n: nat)
    requires
        !year.contains('-'),
        1 <= n <= 12,
    ensures
        month_label_of(year + seq!['-'] + two_digits(n)) == calendar_month_names()[n - 1] + " "@
            + year,
{
    let mm = two_digits(n);
    let key = year + seq!['-'] + mm;
    reveal_strlit("unknown");
    reveal_strlit("01");
    reveal_strlit("02");
    reveal_strlit("03");
    reveal_strlit("04");
    reveal_strlit("05");
    reveal_strlit("06");
    reveal_strlit("07");
    reveal_strlit("08");
    reveal_strlit("09");
    reveal_strlit("10");
    reveal_strlit("11");
    reveal_strlit("12");
    assert(key[year.len() as int] == '-');
    assert(key.contains('-'));
    assert(!"unknown"@.contains('-')) by {
        assert("unknown"@ =~= seq!['u', 'n', 'k', 'n', 'o', 'w', 'n']);
    }
    assert(key != "unknown"@);
    lemma_split_at_first(year, '-', mm);
    assert(!mm.contains('-')) by {
        assert(mm[0] != '-');
        assert(mm[1] != '-');
    }
    lemma_first_segment_whole(mm, '-');
    if n == 1 {
        assert(mm =~= "01"@);
    }
    if n == 2 {
        assert(mm =~= "02"@);
    }
    if n == 3 {
        assert(mm =~= "03"@);
    }
    if n == 4 {
        assert(mm =~= "04"@);
    }
    if n == 5 {
        assert(mm =~= "05"@);
    }
    if n == 6 {
        assert(mm =~= "06"@);
    }
    if n == 7 {
        assert(mm =~= "07"@);
    }
    if n == 8 {
        assert(mm =~= "08"@);
    }
    if n == 9 {
        assert(mm =~= "09"@);
    }
    if n == 10 {
        assert(mm =~= "10"@);
    }
    if n == 11 {
        assert(mm =~= "11"@);
    }
    if n == 12 {
        assert(mm =~= "12"@);
    }
}

} // verus!

verus! {

/// Every entry of a newest-first listing is modified no earlier than the
/// entries after it, comparing the whole modification times as text (an
/// oldest-first listing the other way round).
pub proof fn law_listing_compares_whole_times(
    files: Seq<FileEntry>,
    sort: Seq<char>,
    r: Seq<FileEntry>,
    k: int,
    l: int,
)
    requires
        sorted_listing(files, sort, r),
        0 <= k < l < r.len(),
    ensures
        sort != "oldest"@ && r[k].modified is Some && r[l].modified is Some ==> !seq_lt(
            r[k].modified.unwrap()@,
            r[l].modified.unwrap()@,
        ),
        sort == "oldest"@ && r[k].modified is Some && r[l].modified is Some ==> !seq_lt(
            r[l].modified.unwrap()@,
            r[k].modified.unwrap()@,
        ),
{
    law_listing_is_sorted_by_time(files, sort, r, k, l);
}

/// Camera RAW formats: Canon, Nikon, Sony, Olympus, Panasonic, Adobe DNG,
/// Fujifilm, Pentax, Samsung, Sigma, Hasselblad, Minolta and generic RAW.
pub open spec fn camera_raw_formats() -> Seq<Seq<char>> {
    seq!["cr2"@, "cr3"@, "nef"@, "arw"@, "orf"@, "rw2"@, "dng"@, "raf"@, "pef"@, "srw"@, "x3f"@, "3fr"@, "mrw"@, "nrw"@, "raw"@]
}

/// Still image formats: JPEG, PNG, GIF, BMP, WebP, TIFF and HEIF.
pub open spec fn still_image_formats() -> Seq<Seq<char>> {
    seq!["jpg"@, "jpeg"@, "png"@, "gif"@, "bmp"@, "webp"@, "tiff"@, "tif"@, "heic"@, "heif"@]
}

/// Video formats: MPEG-4, QuickTime, AVI, Matroska, 360-degree camera
/// video and WebM.
pub open spec fn video_formats() -> Seq<Seq<char>> {
    seq!["mp4"@, "mov"@, "avi"@, "mkv"@, "360"@, "webm"@]
}

/// The extensions the browser knows, each with its kind: camera RAW
/// formats, still images and videos, compared in lower case.
pub proof fn law_known_extensions()
    ensures
        forall|i: int| 0 <= i < 15 ==> kind_of_extension(#[trigger] camera_raw_formats()[i]) == FileKind::Raw,
        forall|i: int| 0 <= i < 10 ==> kind_of_extension(#[trigger] still_image_formats()[i]) == FileKind::Image,
        forall|i: int| 0 <= i < 6 ==> kind_of_extension(#[trigger] video_formats()[i]) == FileKind::Video,
{
    reveal_strlit("cr2");
    reveal_strlit("cr3");
    reveal_strlit("nef");
    reveal_strlit("arw");
    reveal_strlit("orf");
    reveal_strlit("rw2");
    reveal_strlit("dng");
    reveal_strlit("raf");
    reveal_strlit("pef");
    reveal_strlit("srw");
    reveal_strlit("x3f");
    reveal_strlit("3fr");
    reveal_strlit("mrw");
    reveal_strlit("nrw");
    reveal_strlit("raw");
    reveal_strlit("jpg");
    reveal_strlit("jpeg");
    reveal_strlit("png");
    reveal_strlit("gif");
    reveal_strlit("bmp");
    reveal_strlit("webp");
    reveal_strlit("tiff");
    reveal_strlit("tif");
    reveal_strlit("heic");
    reveal_strlit("heif");
    reveal_strlit("mp4");
    reveal_strlit("mov");
    reveal_strlit("avi");
    reveal_strlit("mkv");
    reveal_strlit("360");
    reveal_strlit("webm");
    assert(raw_extensions() =~= camera_raw_formats());
    assert(image_extensions() =~= still_image_formats());
    assert(video_extensions() =~= video_formats());
    assert forall|i: int| 0 <= i < 15 implies kind_of_extension(#[trigger] camera_raw_formats()[i]) == FileKind::Raw by {
        assert(raw_extensions()[i] == camera_raw_formats()[i]);
    }
    assert forall|i: int| 0 <= i < 10 implies kind_of_extension(#[trigger] still_image_formats()[i]) == FileKind::Image by {
        if i == 0 {
            assert(still_image_formats()[0] == "jpg"@);
            assert(image_extensions()[0] == "jpg"@);
            assert forall|j: int| 0 <= j < 15 implies #[trigger] camera_raw_formats()[j] != "jpg"@ by {
                if j == 0 {
                    assert(camera_raw_formats()[0] == "cr2"@);
                    assert("jpg"@[0] != "cr2"@[0]);
                } else if j == 1 {
                    assert(camera_raw_formats()[1] == "cr3"@);
                    assert("jpg"@[0] != "cr3"@[0]);
                } else if j == 2 {
                    assert(camera_raw_formats()[2] == "nef"@);
                    assert("jpg"@[0] != "nef"@[0]);
                } else if j == 3 {
                    assert(camera_raw_formats()[3] == "arw"@);
                    assert("jpg"@[0] != "arw"@[0]);
                } else if j == 4 {
                    assert(camera_raw_formats()[4] == "orf"@);
                    assert("jpg"@[0] != "orf"@[0]);
                } else if j == 5 {
                    assert(camera_raw_formats()[5] == "rw2"@);
                    assert("jpg"@[0] != "rw2"@[0]);
                } else if j == 6 {
                    assert(camera_raw_formats()[6] == "dng"@);
                    assert("jpg"@[0] != "dng"@[0]);
                } else if j == 7 {
                    assert(camera_raw_formats()[7] == "raf"@);
                    assert("jpg"@[0] != "raf"@[0]);
                } else if j == 8 {
                    assert(camera_raw_formats()[8] == "pef"@);
                    assert("jpg"@[0] != "pef"@[0]);
                } else if j == 9 {
                    assert(camera_raw_formats()[9] == "srw"@);
                    assert("jpg"@[0] != "srw"@[0]);
                } else if j == 10 {
                    assert(camera_raw_formats()[10] == "x3f"@);
                    assert("jpg"@[0] != "x3f"@[0]);
                } else if j == 11 {
                    assert(camera_raw_formats()[11] == "3fr"@);
                    assert("jpg"@[0] != "3fr"@[0]);
                } else if j == 12 {
                    assert(camera_raw_formats()[12] == "mrw"@);
                    assert("jpg"@[0] != "mrw"@[0]);
                } else if j == 13 {
                    assert(camera_raw_formats()[13] == "nrw"@);
                    assert("jpg"@[0] != "nrw"@[0]);
                } else if j == 14 {
                    assert(camera_raw_formats()[14] == "raw"@);
                    assert("jpg"@[0] != "raw"@[0]);
                }
            }
            lemma_not_among(camera_raw_formats(), "jpg"@);
        } else if i == 1 {
            assert(still_image_formats()[1] == "jpeg"@);
            assert(image_extensions()[1] == "jpeg"@);
            assert forall|j: int| 0 <= j < 15 implies #[trigger] camera_raw_formats()[j] != "jpeg"@ by {
                if j == 0 {
                    assert(camera_raw_formats()[0] == "cr2"@);
                    assert("jpeg"@.len() != "cr2"@.len());
                } else if j == 1 {
                    assert(camera_raw_formats()[1] == "cr3"@);
                    assert("jpeg"@.len() != "cr3"@.len());
                } else if j == 2 {
                    assert(camera_raw_formats()[2] == "nef"@);
                    assert("jpeg"@.len() != "nef"@.len());
                } else if j == 3 {
                    assert(camera_raw_formats()[3] == "arw"@);
                    assert("jpeg"@.len() != "arw"@.len());
                } else if j == 4 {
                    assert(camera_raw_formats()[4] == "orf"@);
                    assert("jpeg"@.len() != "orf"@.len());
                } else if j == 5 {
                    assert(camera_raw_formats()[5] == "rw2"@);
                    assert("jpeg"@.len() != "rw2"@.len());
                } else if j == 6 {
                    assert(camera_raw_formats()[6] == "dng"@);
                    assert("jpeg"@.len() != "dng"@.len());
                } else if j == 7 {
                    assert(camera_raw_formats()[7] == "raf"@);
                    assert("jpeg"@.len() != "raf"@.len());
                } else if j == 8 {
                    assert(camera_raw_formats()[8] == "pef"@);
                    assert("jpeg"@.len() != "pef"@.len());
                } else if j == 9 {
                    assert(camera_raw_formats()[9] == "srw"@);
                    assert("jpeg"@.len() != "srw"@.len());
                } else if j == 10 {
                    assert(camera_raw_formats()[10] == "x3f"@);
                    assert("jpeg"@.len() != "x3f"@.len());
                } else if j == 11 {
                    assert(camera_raw_formats()[11] == "3fr"@);
                    assert("jpeg"@.len() != "3fr"@.len());
                } else if j == 12 {
                    assert(camera_raw_formats()[12] == "mrw"@);
                    assert("jpeg"@.len() != "mrw"@.len());
                } else if j == 13 {
                    assert(camera_raw_formats()[13] == "nrw"@);
                    assert("jpeg"@.len() != "nrw"@.len());
                } else if j == 14 {
                    assert(camera_raw_formats()[14] == "raw"@);
                    assert("jpeg"@.len() != "raw"@.len());
                }
            }
            lemma_not_among(camera_raw_formats(), "jpeg"@);
        } else if i == 2 {
            assert(still_image_formats()[2] == "png"@);
            assert(image_extensions()[2] == "png"@);
            assert forall|j: int| 0 <= j < 15 implies #[trigger] camera_raw_formats()[j] != "png"@ by {
                if j == 0 {
                    assert(camera_raw_formats()[0] == "cr2"@);
                    assert("png"@[0] != "cr2"@[0]);
                } else if j == 1 {
                    assert(camera_raw_formats()[1] == "cr3"@);
                    assert("png"@[0] != "cr3"@[0]);
                } else if j == 2 {
                    assert(camera_raw_formats()[2] == "nef"@);
                    assert("png"@[0] != "nef"@[0]);
                } else if j == 3 {
                    assert(camera_raw_formats()[3] == "arw"@);
                    assert("png"@[0] != "arw"@[0]);
                } else if j == 4 {
                    assert(camera_raw_formats()[4] == "orf"@);
                    assert("png"@[0] != "orf"@[0]);
                } else if j == 5 {
                    assert(camera_raw_formats()[5] == "rw2"@);
                    assert("png"@[0] != "rw2"@[0]);
                } else if j == 6 {
                    assert(camera_raw_formats()[6] == "dng"@);
                    assert("png"@[0] != "dng"@[0]);
                } else if j == 7 {
                    assert(camera_raw_formats()[7] == "raf"@);
                    assert("png"@[0] != "raf"@[0]);
                } else if j == 8 {
                    assert(camera_raw_formats()[8] == "pef"@);
                    assert("png"@[1] != "pef"@[1]);
                } else if j == 9 {
                    assert(camera_raw_formats()[9] == "srw"@);
                    assert("png"@[0] != "srw"@[0]);
                } else if j == 10 {
                    assert(camera_raw_formats()[10] == "x3f"@);
                    assert("png"@[0] != "x3f"@[0]);
                } else if j == 11 {
                    assert(camera_raw_formats()[11] == "3fr"@);
                    assert("png"@[0] != "3fr"@[0]);
                } else if j == 12 {
                    assert(camera_raw_formats()[12] == "mrw"@);
                    assert("png"@[0] != "mrw"@[0]);
                } else if j == 13 {
                    assert(camera_raw_formats()[13] == "nrw"@);
                    assert("png"@[0] != "nrw"@[0]);
                } else if j == 14 {
                    assert(camera_raw_formats()[14] == "raw"@);
                    assert("png"@[0] != "raw"@[0]);
                }
            }
            lemma_not_among(camera_raw_formats(), "png"@);
        } else if i == 3 {
            assert(still_image_formats()[3] == "gif"@);
            assert(image_extensions()[3] == "gif"@);
            assert forall|j: int| 0 <= j < 15 implies #[trigger] camera_raw_formats()[j] != "gif"@ by {
                if j == 0 {
                    assert(camera_raw_formats()[0] == "cr2"@);
                    assert("gif"@[0] != "cr2"@[0]);
                } else if j == 1 {
                    assert(camera_raw_formats()[1] == "cr3"@);
                    assert("gif"@[0] != "cr3"@[0]);
                } else if j == 2 {
                    assert(camera_raw_formats()[2] == "nef"@);
                    assert("gif"@[0] != "nef"@[0]);
                } else if j == 3 {
                    assert(camera_raw_formats()[3] == "arw"@);
                    assert("gif"@[0] != "arw"@[0]);
                } else if j == 4 {
                    assert(camera_raw_formats()[4] == "orf"@);
                    assert("gif"@[0] != "orf"@[0]);
                } else if j == 5 {
                    assert(camera_raw_formats()[5] == "rw2"@);
                    assert("gif"@[0] != "rw2"@[0]);
                } else if j == 6 {
                    assert(camera_raw_formats()[6] == "dng"@);
                    assert("gif"@[0] != "dng"@[0]);
                } else if j == 7 {
                    assert(camera_raw_formats()[7] == "raf"@);
                    assert("gif"@[0] != "raf"@[0]);
                } else if j == 8 {
                    assert(camera_raw_formats()[8] == "pef"@);
                    assert("gif"@[0] != "pef"@[0]);
                } else if j == 9 {
                    assert(camera_raw_formats()[9] == "srw"@);
                    assert("gif"@[0] != "srw"@[0]);
                } else if j == 10 {
                    assert(camera_raw_formats()[10] == "x3f"@);
                    assert("gif"@[0] != "x3f"@[0]);
                } else if j == 11 {
                    assert(camera_raw_formats()[11] == "3fr"@);
                    assert("gif"@[0] != "3fr"@[0]);
                } else if j == 12 {
                    assert(camera_raw_formats()[12] == "mrw"@);
                    assert("gif"@[0] != "mrw"@[0]);
                } else if j == 13 {
                    assert(camera_raw_formats()[13] == "nrw"@);
                    assert("gif"@[0] != "nrw"@[0]);
                } else if j == 14 {
                    assert(camera_raw_formats()[14] == "raw"@);
                    assert("gif"@[0] != "raw"@[0]);
                }
            }
            lemma_not_among(camera_raw_formats(), "gif"@);
        } else if i == 4 {
            assert(still_image_formats()[4] == "bmp"@);
            assert(image_extensions()[4] == "bmp"@);
            assert forall|j: int| 0 <= j < 15 implies #[trigger] camera_raw_formats()[j] != "bmp"@ by {
                if j == 0 {
                    assert(camera_raw_formats()[0] == "cr2"@);
                    assert("bmp"@[0] != "cr2"@[0]);
                } else if j == 1 {
                    assert(camera_raw_formats()[1] == "cr3"@);
                    assert("bmp"@[0] != "cr3"@[0]);
                } else if j == 2 {
                    assert(camera_raw_formats()[2] == "nef"@);
                    assert("bmp"@[0] != "nef"@[0]);
                } else if j == 3 {
                    assert(camera_raw_formats()[3] == "arw"@);
                    assert("bmp"@[0] != "arw"@[0]);
                } else if j == 4 {
                    assert(camera_raw_formats()[4] == "orf"@);
                    assert("bmp"@[0] != "orf"@[0]);
                } else if j == 5 {
                    assert(camera_raw_formats()[5] == "rw2"@);
                    assert("bmp"@[0] != "rw2"@[0]);
                } else if j == 6 {
                    assert(camera_raw_formats()[6] == "dng"@);
                    assert("bmp"@[0] != "dng"@[0]);
                } else if j == 7 {
                    assert(camera_raw_formats()[7] == "raf"@);
                    assert("bmp"@[0] != "raf"@[0]);
                } else if j == 8 {
                    assert(camera_raw_formats()[8] == "pef"@);
                    assert("bmp"@[0] != "pef"@[0]);
                } else if j == 9 {
                    assert(camera_raw_formats()[9] == "srw"@);
                    assert("bmp"@[0] != "srw"@[0]);
                } else if j == 10 {
                    assert(camera_raw_formats()[10] == "x3f"@);
                    assert("bmp"@[0] != "x3f"@[0]);
                } else if j == 11 {
                    assert(camera_raw_formats()[11] == "3fr"@);
                    assert("bmp"@[0] != "3fr"@[0]);
                } else if j == 12 {
                    assert(camera_raw_formats()[12] == "mrw"@);
                    assert("bmp"@[0] != "mrw"@[0]);
                } else if j == 13 {
                    assert(camera_raw_formats()[13] == "nrw"@);
                    assert("bmp"@[0] != "nrw"@[0]);
                } else if j == 14 {
                    assert(camera_raw_formats()[14] == "raw"@);
                    assert("bmp"@[0] != "raw"@[0]);
                }
            }
            lemma_not_among(camera_raw_formats(), "bmp"@);
        } else if i == 5 {
            assert(still_image_formats()[5] == "webp"@);
            assert(image_extensions()[5] == "webp"@);
            assert forall|j: int| 0 <= j < 15 implies #[trigger] camera_raw_formats()[j] != "webp"@ by {
                if j == 0 {
                    assert(camera_raw_formats()[0] == "cr2"@);
                    assert("webp"@.len() != "cr2"@.len());
                } else if j == 1 {
                    assert(camera_raw_formats()[1] == "cr3"@);
                    assert("webp"@.len() != "cr3"@.len());
                } else if j == 2 {
                    assert(camera_raw_formats()[2] == "nef"@);
                    assert("webp"@.len() != "nef"@.len());
                } else if j == 3 {
                    assert(camera_raw_formats()[3] == "arw"@);
                    assert("webp"@.len() != "arw"@.len());
                } else if j == 4 {
                    assert(camera_raw_formats()[4] == "orf"@);
                    assert("webp"@.len() != "orf"@.len());
                } else if j == 5 {
                    assert(camera_raw_formats()[5] == "rw2"@);
                    assert("webp"@.len() != "rw2"@.len());
                } else if j == 6 {
                    assert(camera_raw_formats()[6] == "dng"@);
                    assert("webp"@.len() != "dng"@.len());
                } else if j == 7 {
                    assert(camera_raw_formats()[7] == "raf"@);
                    assert("webp"@.len() != "raf"@.len());
                } else if j == 8 {
                    assert(camera_raw_formats()[8] == "pef"@);
                    assert("webp"@.len() != "pef"@.len());
                } else if j == 9 {
                    assert(camera_raw_formats()[9] == "srw"@);
                    assert("webp"@.len() != "srw"@.len());
                } else if j == 10 {
                    assert(camera_raw_formats()[10] == "x3f"@);
                    assert("webp"@.len() != "x3f"@.len());
                } else if j == 11 {
                    assert(camera_raw_formats()[11] == "3fr"@);
                    assert("webp"@.len() != "3fr"@.len());
                } else if j == 12 {
                    assert(camera_raw_formats()[12] == "mrw"@);
                    assert("webp"@.len() != "mrw"@.len());
                } else if j == 13 {
                    assert(camera_raw_formats()[13] == "nrw"@);
                    assert("webp"@.len() != "nrw"@.len());
                } else if j == 14 {
                    assert(camera_raw_formats()[14] == "raw"@);
                    assert("webp"@.len() != "raw"@.len());
                }
            }
            lemma_not_among(camera_raw_formats(), "webp"@);
        } else if i == 6 {
            assert(still_image_formats()[6] == "tiff"@);
            assert(image_extensions()[6] == "tiff"@);
            assert forall|j: int| 0 <= j < 15 implies #[trigger] camera_raw_formats()[j] != "tiff"@ by {
                if j == 0 {
                    assert(camera_raw_formats()[0] == "cr2"@);
                    assert("tiff"@.len() != "cr2"@.len());
                } else if j == 1 {
                    assert(camera_raw_formats()[1] == "cr3"@);
                    assert("tiff"@.len() != "cr3"@.len());
                } else if j == 2 {
                    assert(camera_raw_formats()[2] == "nef"@);
                    assert("tiff"@.len() != "nef"@.len());
                } else if j == 3 {
                    assert(camera_raw_formats()[3] == "arw"@);
                    assert("tiff"@.len() != "arw"@.len());
                } else if j == 4 {
                    assert(camera_raw_formats()[4] == "orf"@);
                    assert("tiff"@.len() != "orf"@.len());
                } else if j == 5 {
                    assert(camera_raw_formats()[5] == "rw2"@);
                    assert("tiff"@.len() != "rw2"@.len());
                } else if j == 6 {
                    assert(camera_raw_formats()[6] == "dng"@);
                    assert("tiff"@.len() != "dng"@.len());
                } else if j == 7 {
                    assert(camera_raw_formats()[7] == "raf"@);
                    assert("tiff"@.len() != "raf"@.len());
                } else if j == 8 {
                    assert(camera_raw_formats()[8] == "pef"@);
                    assert("tiff"@.len() != "pef"@.len());
                } else if j == 9 {
                    assert(camera_raw_formats()[9] == "srw"@);
                    assert("tiff"@.len() != "srw"@.len());
                } else if j == 10 {
                    assert(camera_raw_formats()[10] == "x3f"@);
                    assert("tiff"@.len() != "x3f"@.len());
                } else if j == 11 {
                    assert(camera_raw_formats()[11] == "3fr"@);
                    assert("tiff"@.len() != "3fr"@.len());
                } else if j == 12 {
                    assert(camera_raw_formats()[12] == "mrw"@);
                    assert("tiff"@.len() != "mrw"@.len());
                } else if j == 13 {
                    assert(camera_raw_formats()[13] == "nrw"@);
                    assert("tiff"@.len() != "nrw"@.len());
                } else if j == 14 {
                    assert(camera_raw_formats()[14] == "raw"@);
                    assert("tiff"@.len() != "raw"@.len());
                }
            }
            lemma_not_among(camera_raw_formats(), "tiff"@);
        } else if i == 7 {
            assert(still_image_formats()[7] == "tif"@);
            assert(image_extensions()[7] == "tif"@);
            assert forall|j: int| 0 <= j < 15 implies #[trigger] camera_raw_formats()[j] != "tif"@ by {
                if j == 0 {
                    assert(camera_raw_formats()[0] == "cr2"@);
                    assert("tif"@[0] != "cr2"@[0]);
                } else if j == 1 {
                    assert(camera_raw_formats()[1] == "cr3"@);
                    assert("tif"@[0] != "cr3"@[0]);
                } else if j == 2 {
                    assert(camera_raw_formats()[2] == "nef"@);
                    assert("tif"@[0] != "nef"@[0]);
                } else if j == 3 {
                    assert(camera_raw_formats()[3] == "arw"@);
                    assert("tif"@[0] != "arw"@[0]);
                } else if j == 4 {
                    assert(camera_raw_formats()[4] == "orf"@);
                    assert("tif"@[0] != "orf"@[0]);
                } else if j == 5 {
                    assert(camera_raw_formats()[5] == "rw2"@);
                    assert("tif"@[0] != "rw2"@[0]);
                } else if j == 6 {
                    assert(camera_raw_formats()[6] == "dng"@);
                    assert("tif"@[0] != "dng"@[0]);
                } else if j == 7 {
                    assert(camera_raw_formats()[7] == "raf"@);
                    assert("tif"@[0] != "raf"@[0]);
                } else if j == 8 {
                    assert(camera_raw_formats()[8] == "pef"@);
                    assert("tif"@[0] != "pef"@[0]);
                } else if j == 9 {
                    assert(camera_raw_formats()[9] == "srw"@);
                    assert("tif"@[0] != "srw"@[0]);
                } else if j == 10 {
                    assert(camera_raw_formats()[10] == "x3f"@);
                    assert("tif"@[0] != "x3f"@[0]);
                } else if j == 11 {
                    assert(camera_raw_formats()[11] == "3fr"@);
                    assert("tif"@[0] != "3fr"@[0]);
                } else if j == 12 {
                    assert(camera_raw_formats()[12] == "mrw"@);
                    assert("tif"@[0] != "mrw"@[0]);
                } else if j == 13 {
                    assert(camera_raw_formats()[13] == "nrw"@);
                    assert("tif"@[0] != "nrw"@[0]);
                } else if j == 14 {
                    assert(camera_raw_formats()[14] == "raw"@);
                    assert("tif"@[0] != "raw"@[0]);
                }
            }
            lemma_not_among(camera_raw_formats(), "tif"@);
        } else if i == 8 {
            assert(still_image_formats()[8] == "heic"@);
            assert(image_extensions()[8] == "heic"@);
            assert forall|j: int| 0 <= j < 15 implies #[trigger] camera_raw_formats()[j] != "heic"@ by {
                if j == 0 {
                    assert(camera_raw_formats()[0] == "cr2"@);
                    assert("heic"@.len() != "cr2"@.len());
                } else if j == 1 {
                    assert(camera_raw_formats()[1] == "cr3"@);
                    assert("heic"@.len() != "cr3"@.len());
                } else if j == 2 {
                    assert(camera_raw_formats()[2] == "nef"@);
                    assert("heic"@.len() != "nef"@.len());
                } else if j == 3 {
                    assert(camera_raw_formats()[3] == "arw"@);
                    assert("heic"@.len() != "arw"@.len());
                } else if j == 4 {
                    assert(camera_raw_formats()[4] == "orf"@);
                    assert("heic"@.len() != "orf"@.len());
                } else if j == 5 {
                    assert(camera_raw_formats()[5] == "rw2"@);
                    assert("heic"@.len() != "rw2"@.len());
                } else if j == 6 {
                    assert(camera_raw_formats()[6] == "dng"@);
                    assert("heic"@.len() != "dng"@.len());
                } else if j == 7 {
                    assert(camera_raw_formats()[7] == "raf"@);
                    assert("heic"@.len() != "raf"@.len());
                } else if j == 8 {
                    assert(camera_raw_formats()[8] == "pef"@);
                    assert("heic"@.len() != "pef"@.len());
                } else if j == 9 {
                    assert(camera_raw_formats()[9] == "srw"@);
                    assert("heic"@.len() != "srw"@.len());
                } else if j == 10 {
                    assert(camera_raw_formats()[10] == "x3f"@);
                    assert("heic"@.len() != "x3f"@.len());
                } else if j == 11 {
                    assert(camera_raw_formats()[11] == "3fr"@);
                    assert("heic"@.len() != "3fr"@.len());
                } else if j == 12 {
                    assert(camera_raw_formats()[12] == "mrw"@);
                    assert("heic"@.len() != "mrw"@.len());
                } else if j == 13 {
                    assert(camera_raw_formats()[13] == "nrw"@);
                    assert("heic"@.len() != "nrw"@.len());
                } else if j == 14 {
                    assert(camera_raw_formats()[14] == "raw"@);
                    assert("heic"@.len() != "raw"@.len());
                }
            }
            lemma_not_among(camera_raw_formats(), "heic"@);
        } else if i == 9 {
            assert(still_image_formats()[9] == "heif"@);
            assert(image_extensions()[9] == "heif"@);
            assert forall|j: int| 0 <= j < 15 implies #[trigger] camera_raw_formats()[j] != "heif"@ by {
                if j == 0 {
                    assert(camera_raw_formats()[0] == "cr2"@);
                    assert("heif"@.len() != "cr2"@.len());
                } else if j == 1 {
                    assert(camera_raw_formats()[1] == "cr3"@);
                    assert("heif"@.len() != "cr3"@.len());
                } else if j == 2 {
                    assert(camera_raw_formats()[2] == "nef"@);
                    assert("heif"@.len() != "nef"@.len());
                } else if j == 3 {
                    assert(camera_raw_formats()[3] == "arw"@);
                    assert("heif"@.len() != "arw"@.len());
                } else if j == 4 {
                    assert(camera_raw_formats()[4] == "orf"@);
                    assert("heif"@.len() != "orf"@.len());
                } else if j == 5 {
                    assert(camera_raw_formats()[5] == "rw2"@);
                    assert("heif"@.len() != "rw2"@.len());
                } else if j == 6 {
                    assert(camera_raw_formats()[6] == "dng"@);
                    assert("heif"@.len() != "dng"@.len());
                } else if j == 7 {
                    assert(camera_raw_formats()[7] == "raf"@);
                    assert("heif"@.len() != "raf"@.len());
                } else if j == 8 {
                    assert(camera_raw_formats()[8] == "pef"@);
                    assert("heif"@.len() != "pef"@.len());
                } else if j == 9 {
                    assert(camera_raw_formats()[9] == "srw"@);
                    assert("heif"@.len() != "srw"@.len());
                } else if j == 10 {
                    assert(camera_raw_formats()[10] == "x3f"@);
                    assert("heif"@.len() != "x3f"@.len());
                } else if j == 11 {
                    assert(camera_raw_formats()[11] == "3fr"@);
                    assert("heif"@.len() != "3fr"@.len());
                } else if j == 12 {
                    assert(camera_raw_formats()[12] == "mrw"@);
                    assert("heif"@.len() != "mrw"@.len());
                } else if j == 13 {
                    assert(camera_raw_formats()[13] == "nrw"@);
                    assert("heif"@.len() != "nrw"@.len());
                } else if j == 14 {
                    assert(camera_raw_formats()[14] == "raw"@);
                    assert("heif"@.len() != "raw"@.len());
                }
            }
            lemma_not_among(camera_raw_formats(), "heif"@);
        }
    }
    assert forall|i: int| 0 <= i < 6 implies kind_of_extension(#[trigger] video_formats()[i]) == FileKind::Video by {
        if i == 0 {
            assert(video_formats()[0] == "mp4"@);
            assert(video_extensions()[0] == "mp4"@);
            assert forall|j: int| 0 <= j < 15 implies #[trigger] camera_raw_formats()[j] != "mp4"@ by {
                if j == 0 {
                    assert(camera_raw_formats()[0] == "cr2"@);
                    assert("mp4"@[0] != "cr2"@[0]);
                } else if j == 1 {
                    assert(camera_raw_formats()[1] == "cr3"@);
                    assert("mp4"@[0] != "cr3"@[0]);
                } else if j == 2 {
                    assert(camera_raw_formats()[2] == "nef"@);
                    assert("mp4"@[0] != "nef"@[0]);
                } else if j == 3 {
                    assert(camera_raw_formats()[3] == "arw"@);
                    assert("mp4"@[0] != "arw"@[0]);
                } else if j == 4 {
                    assert(camera_raw_formats()[4] == "orf"@);
                    assert("mp4"@[0] != "orf"@[0]);
                } else if j == 5 {
                    assert(camera_raw_formats()[5] == "rw2"@);
                    assert("mp4"@[0] != "rw2"@[0]);
                } else if j == 6 {
                    assert(camera_raw_formats()[6] == "dng"@);
                    assert("mp4"@[0] != "dng"@[0]);
                } else if j == 7 {
                    assert(camera_raw_formats()[7] == "raf"@);
                    assert("mp4"@[0] != "raf"@[0]);
                } else if j == 8 {
                    assert(camera_raw_formats()[8] == "pef"@);
                    assert("mp4"@[0] != "pef"@[0]);
                } else if j == 9 {
                    assert(camera_raw_formats()[9] == "srw"@);
                    assert("mp4"@[0] != "srw"@[0]);
                } else if j == 10 {
                    assert(camera_raw_formats()[10] == "x3f"@);
                    assert("mp4"@[0] != "x3f"@[0]);
                } else if j == 11 {
                    assert(camera_raw_formats()[11] == "3fr"@);
                    assert("mp4"@[0] != "3fr"@[0]);
                } else if j == 12 {
                    assert(camera_raw_formats()[12] == "mrw"@);
                    assert("mp4"@[1] != "mrw"@[1]);
                } else if j == 13 {
                    assert(camera_raw_formats()[13] == "nrw"@);
                    assert("mp4"@[0] != "nrw"@[0]);
                } else if j == 14 {
                    assert(camera_raw_formats()[14] == "raw"@);
                    assert("mp4"@[0] != "raw"@[0]);
                }
            }
            lemma_not_among(camera_raw_formats(), "mp4"@);
            assert forall|j: int| 0 <= j < 10 implies #[trigger] still_image_formats()[j] != "mp4"@ by {
                if j == 0 {
                    assert(still_image_formats()[0] == "jpg"@);
                    assert("mp4"@[0] != "jpg"@[0]);
                } else if j == 1 {
                    assert(still_image_formats()[1] == "jpeg"@);
                    assert("mp4"@.len() != "jpeg"@.len());
                } else if j == 2 {
                    assert(still_image_formats()[2] == "png"@);
                    assert("mp4"@[0] != "png"@[0]);
                } else if j == 3 {
                    assert(still_image_formats()[3] == "gif"@);
                    assert("mp4"@[0] != "gif"@[0]);
                } else if j == 4 {
                    assert(still_image_formats()[4] == "bmp"@);
                    assert("mp4"@[0] != "bmp"@[0]);
                } else if j == 5 {
                    assert(still_image_formats()[5] == "webp"@);
                    assert("mp4"@.len() != "webp"@.len());
                } else if j == 6 {
                    assert(still_image_formats()[6] == "tiff"@);
                    assert("mp4"@.len() != "tiff"@.len());
                } else if j == 7 {
                    assert(still_image_formats()[7] == "tif"@);
                    assert("mp4"@[0] != "tif"@[0]);
                } else if j == 8 {
                    assert(still_image_formats()[8] == "heic"@);
                    assert("mp4"@.len() != "heic"@.len());
                } else if j == 9 {
                    assert(still_image_formats()[9] == "heif"@);
                    assert("mp4"@.len() != "heif"@.len());
                }
            }
            lemma_not_among(still_image_formats(), "mp4"@);
        } else if i == 1 {
            assert(video_formats()[1] == "mov"@);
            assert(video_extensions()[1] == "mov"@);
            assert forall|j: int| 0 <= j < 15 implies #[trigger] camera_raw_formats()[j] != "mov"@ by {
                if j == 0 {
                    assert(camera_raw_formats()[0] == "cr2"@);
                    assert("mov"@[0] != "cr2"@[0]);
                } else if j == 1 {
                    assert(camera_raw_formats()[1] == "cr3"@);
                    assert("mov"@[0] != "cr3"@[0]);
                } else if j == 2 {
                    assert(camera_raw_formats()[2] == "nef"@);
                    assert("mov"@[0] != "nef"@[0]);
                } else if j == 3 {
                    assert(camera_raw_formats()[3] == "arw"@);
                    assert("mov"@[0] != "arw"@[0]);
                } else if j == 4 {
                    assert(camera_raw_formats()[4] == "orf"@);
                    assert("mov"@[0] != "orf"@[0]);
                } else if j == 5 {
                    assert(camera_raw_formats()[5] == "rw2"@);
                    assert("mov"@[0] != "rw2"@[0]);
                } else if j == 6 {
                    assert(camera_raw_formats()[6] == "dng"@);
                    assert("mov"@[0] != "dng"@[0]);
                } else if j == 7 {
                    assert(camera_raw_formats()[7] == "raf"@);
                    assert("mov"@[0] != "raf"@[0]);
                } else if j == 8 {
                    assert(camera_raw_formats()[8] == "pef"@);
                    assert("mov"@[0] != "pef"@[0]);
                } else if j == 9 {
                    assert(camera_raw_formats()[9] == "srw"@);
                    assert("mov"@[0] != "srw"@[0]);
                } else if j == 10 {
                    assert(camera_raw_formats()[10] == "x3f"@);
                    assert("mov"@[0] != "x3f"@[0]);
                } else if j == 11 {
                    assert(camera_raw_formats()[11] == "3fr"@);
                    assert("mov"@[0] != "3fr"@[0]);
                } else if j == 12 {
                    assert(camera_raw_formats()[12] == "mrw"@);
                    assert("mov"@[1] != "mrw"@[1]);
                } else if j == 13 {
                    assert(camera_raw_formats()[13] == "nrw"@);
                    assert("mov"@[0] != "nrw"@[0]);
                } else if j == 14 {
                    assert(camera_raw_formats()[14] == "raw"@);
                    assert("mov"@[0] != "raw"@[0]);
                }
            }
            lemma_not_among(camera_raw_formats(), "mov"@);
            assert forall|j: int| 0 <= j < 10 implies #[trigger] still_image_formats()[j] != "mov"@ by {
                if j == 0 {
                    assert(still_image_formats()[0] == "jpg"@);
                    assert("mov"@[0] != "jpg"@[0]);
                } else if j == 1 {
                    assert(still_image_formats()[1] == "jpeg"@);
                    assert("mov"@.len() != "jpeg"@.len());
                } else if j == 2 {
                    assert(still_image_formats()[2] == "png"@);
                    assert("mov"@[0] != "png"@[0]);
                } else if j == 3 {
                    assert(still_image_formats()[3] == "gif"@);
                    assert("mov"@[0] != "gif"@[0]);
                } else if j == 4 {
                    assert(still_image_formats()[4] == "bmp"@);
                    assert("mov"@[0] != "bmp"@[0]);
                } else if j == 5 {
                    assert(still_image_formats()[5] == "webp"@);
                    assert("mov"@.len() != "webp"@.len());
                } else if j == 6 {
                    assert(still_image_formats()[6] == "tiff"@);
                    assert("mov"@.len() != "tiff"@.len());
                } else if j == 7 {
                    assert(still_image_formats()[7] == "tif"@);
                    assert("mov"@[0] != "tif"@[0]);
                } else if j == 8 {
                    assert(still_image_formats()[8] == "heic"@);
                    assert("mov"@.len() != "heic"@.len());
                } else if j == 9 {
                    assert(still_image_formats()[9] == "heif"@);
                    assert("mov"@.len() != "heif"@.len());
                }
            }
            lemma_not_among(still_image_formats(), "mov"@);
        } else if i == 2 {
            assert(video_formats()[2] == "avi"@);
            assert(video_extensions()[2] == "avi"@);
            assert forall|j: int| 0 <= j < 15 implies #[trigger] camera_raw_formats()[j] != "avi"@ by {
                if j == 0 {
                    assert(camera_raw_formats()[0] == "cr2"@);
                    assert("avi"@[0] != "cr2"@[0]);
                } else if j == 1 {
                    assert(camera_raw_formats()[1] == "cr3"@);
                    assert("avi"@[0] != "cr3"@[0]);
                } else if j == 2 {
                    assert(camera_raw_formats()[2] == "nef"@);
                    assert("avi"@[0] != "nef"@[0]);
                } else if j == 3 {
                    assert(camera_raw_formats()[3] == "arw"@);
                    assert("avi"@[1] != "arw"@[1]);
                } else if j == 4 {
                    assert(camera_raw_formats()[4] == "orf"@);
                    assert("avi"@[0] != "orf"@[0]);
                } else if j == 5 {
                    assert(camera_raw_formats()[5] == "rw2"@);
                    assert("avi"@[0] != "rw2"@[0]);
                } else if j == 6 {
                    assert(camera_raw_formats()[6] == "dng"@);
                    assert("avi"@[0] != "dng"@[0]);
                } else if j == 7 {
                    assert(camera_raw_formats()[7] == "raf"@);
                    assert("avi"@[0] != "raf"@[0]);
                } else if j == 8 {
                    assert(camera_raw_formats()[8] == "pef"@);
                    assert("avi"@[0] != "pef"@[0]);
                } else if j == 9 {
                    assert(camera_raw_formats()[9] == "srw"@);
                    assert("avi"@[0] != "srw"@[0]);
                } else if j == 10 {
                    assert(camera_raw_formats()[10] == "x3f"@);
                    assert("avi"@[0] != "x3f"@[0]);
                } else if j == 11 {
                    assert(camera_raw_formats()[11] == "3fr"@);
                    assert("avi"@[0] != "3fr"@[0]);
                } else if j == 12 {
                    assert(camera_raw_formats()[12] == "mrw"@);
                    assert("avi"@[0] != "mrw"@[0]);
                } else if j == 13 {
                    assert(camera_raw_formats()[13] == "nrw"@);
                    assert("avi"@[0] != "nrw"@[0]);
                } else if j == 14 {
                    assert(camera_raw_formats()[14] == "raw"@);
                    assert("avi"@[0] != "raw"@[0]);
                }
            }
            lemma_not_among(camera_raw_formats(), "avi"@);
            assert forall|j: int| 0 <= j < 10 implies #[trigger] still_image_formats()[j] != "avi"@ by {
                if j == 0 {
                    assert(still_image_formats()[0] == "jpg"@);
                    assert("avi"@[0] != "jpg"@[0]);
                } else if j == 1 {
                    assert(still_image_formats()[1] == "jpeg"@);
                    assert("avi"@.len() != "jpeg"@.len());
                } else if j == 2 {
                    assert(still_image_formats()[2] == "png"@);
                    assert("avi"@[0] != "png"@[0]);
                } else if j == 3 {
                    assert(still_image_formats()[3] == "gif"@);
                    assert("avi"@[0] != "gif"@[0]);
                } else if j == 4 {
                    assert(still_image_formats()[4] == "bmp"@);
                    assert("avi"@[0] != "bmp"@[0]);
                } else if j == 5 {
                    assert(still_image_formats()[5] == "webp"@);
                    assert("avi"@.len() != "webp"@.len());
                } else if j == 6 {
                    assert(still_image_formats()[6] == "tiff"@);
                    assert("avi"@.len() != "tiff"@.len());
                } else if j == 7 {
                    assert(still_image_formats()[7] == "tif"@);
                    assert("avi"@[0] != "tif"@[0]);
                } else if j == 8 {
                    assert(still_image_formats()[8] == "heic"@);
                    assert("avi"@.len() != "heic"@.len());
                } else if j == 9 {
                    assert(still_image_formats()[9] == "heif"@);
                    assert("avi"@.len() != "heif"@.len());
                }
            }
            lemma_not_among(still_image_formats(), "avi"@);
        } else if i == 3 {
            assert(video_formats()[3] == "mkv"@);
            assert(video_extensions()[3] == "mkv"@);
            assert forall|j: int| 0 <= j < 15 implies #[trigger] camera_raw_formats()[j] != "mkv"@ by {
                if j == 0 {
                    assert(camera_raw_formats()[0] == "cr2"@);
                    assert("mkv"@[0] != "cr2"@[0]);
                } else if j == 1 {
                    assert(camera_raw_formats()[1] == "cr3"@);
                    assert("mkv"@[0] != "cr3"@[0]);
                } else if j == 2 {
                    assert(camera_raw_formats()[2] == "nef"@);
                    assert("mkv"@[0] != "nef"@[0]);
                } else if j == 3 {
                    assert(camera_raw_formats()[3] == "arw"@);
                    assert("mkv"@[0] != "arw"@[0]);
                } else if j == 4 {
                    assert(camera_raw_formats()[4] == "orf"@);
                    assert("mkv"@[0] != "orf"@[0]);
                } else if j == 5 {
                    assert(camera_raw_formats()[5] == "rw2"@);
                    assert("mkv"@[0] != "rw2"@[0]);
                } else if j == 6 {
                    assert(camera_raw_formats()[6] == "dng"@);
                    assert("mkv"@[0] != "dng"@[0]);
                } else if j == 7 {
                    assert(camera_raw_formats()[7] == "raf"@);
                    assert("mkv"@[0] != "raf"@[0]);
                } else if j == 8 {
                    assert(camera_raw_formats()[8] == "pef"@);
                    assert("mkv"@[0] != "pef"@[0]);
                } else if j == 9 {
                    assert(camera_raw_formats()[9] == "srw"@);
                    assert("mkv"@[0] != "srw"@[0]);
                } else if j == 10 {
                    assert(camera_raw_formats()[10] == "x3f"@);
                    assert("mkv"@[0] != "x3f"@[0]);
                } else if j == 11 {
                    assert(camera_raw_formats()[11] == "3fr"@);
                    assert("mkv"@[0] != "3fr"@[0]);
                } else if j == 12 {
                    assert(camera_raw_formats()[12] == "mrw"@);
                    assert("mkv"@[1] != "mrw"@[1]);
                } else if j == 13 {
                    assert(camera_raw_formats()[13] == "nrw"@);
                    assert("mkv"@[0] != "nrw"@[0]);
                } else if j == 14 {
                    assert(camera_raw_formats()[14] == "raw"@);
                    assert("mkv"@[0] != "raw"@[0]);
                }
            }
            lemma_not_among(camera_raw_formats(), "mkv"@);
            assert forall|j: int| 0 <= j < 10 implies #[trigger] still_image_formats()[j] != "mkv"@ by {
                if j == 0 {
                    assert(still_image_formats()[0] == "jpg"@);
                    assert("mkv"@[0] != "jpg"@[0]);
                } else if j == 1 {
                    assert(still_image_formats()[1] == "jpeg"@);
                    assert("mkv"@.len() != "jpeg"@.len());
                } else if j == 2 {
                    assert(still_image_formats()[2] == "png"@);
                    assert("mkv"@[0] != "png"@[0]);
                } else if j == 3 {
                    assert(still_image_formats()[3] == "gif"@);
                    assert("mkv"@[0] != "gif"@[0]);
                } else if j == 4 {
                    assert(still_image_formats()[4] == "bmp"@);
                    assert("mkv"@[0] != "bmp"@[0]);
                } else if j == 5 {
                    assert(still_image_formats()[5] == "webp"@);
                    assert("mkv"@.len() != "webp"@.len());
                } else if j == 6 {
                    assert(still_image_formats()[6] == "tiff"@);
                    assert("mkv"@.len() != "tiff"@.len());
                } else if j == 7 {
                    assert(still_image_formats()[7] == "tif"@);
                    assert("mkv"@[0] != "tif"@[0]);
                } else if j == 8 {
                    assert(still_image_formats()[8] == "heic"@);
                    assert("mkv"@.len() != "heic"@.len());
                } else if j == 9 {
                    assert(still_image_formats()[9] == "heif"@);
                    assert("mkv"@.len() != "heif"@.len());
                }
            }
            lemma_not_among(still_image_formats(), "mkv"@);
        } else if i == 4 {
            assert(video_formats()[4] == "360"@);
            assert(video_extensions()[4] == "360"@);
            assert forall|j: int| 0 <= j < 15 implies #[trigger] camera_raw_formats()[j] != "360"@ by {
                if j == 0 {
                    assert(camera_raw_formats()[0] == "cr2"@);
                    assert("360"@[0] != "cr2"@[0]);
                } else if j == 1 {
                    assert(camera_raw_formats()[1] == "cr3"@);
                    assert("360"@[0] != "cr3"@[0]);
                } else if j == 2 {
                    assert(camera_raw_formats()[2] == "nef"@);
                    assert("360"@[0] != "nef"@[0]);
                } else if j == 3 {
                    assert(camera_raw_formats()[3] == "arw"@);
                    assert("360"@[0] != "arw"@[0]);
                } else if j == 4 {
                    assert(camera_raw_formats()[4] == "orf"@);
                    assert("360"@[0] != "orf"@[0]);
                } else if j == 5 {
                    assert(camera_raw_formats()[5] == "rw2"@);
                    assert("360"@[0] != "rw2"@[0]);
                } else if j == 6 {
                    assert(camera_raw_formats()[6] == "dng"@);
                    assert("360"@[0] != "dng"@[0]);
                } else if j == 7 {
                    assert(camera_raw_formats()[7] == "raf"@);
                    assert("360"@[0] != "raf"@[0]);
                } else if j == 8 {
                    assert(camera_raw_formats()[8] == "pef"@);
                    assert("360"@[0] != "pef"@[0]);
                } else if j == 9 {
                    assert(camera_raw_formats()[9] == "srw"@);
                    assert("360"@[0] != "srw"@[0]);
                } else if j == 10 {
                    assert(camera_raw_formats()[10] == "x3f"@);
                    assert("360"@[0] != "x3f"@[0]);
                } else if j == 11 {
                    assert(camera_raw_formats()[11] == "3fr"@);
                    assert("360"@[1] != "3fr"@[1]);
                } else if j == 12 {
                    assert(camera_raw_formats()[12] == "mrw"@);
                    assert("360"@[0] != "mrw"@[0]);
                } else if j == 13 {
                    assert(camera_raw_formats()[13] == "nrw"@);
                    assert("360"@[0] != "nrw"@[0]);
                } else if j == 14 {
                    assert(camera_raw_formats()[14] == "raw"@);
                    assert("360"@[0] != "raw"@[0]);
                }
            }
            lemma_not_among(camera_raw_formats(), "360"@);
            assert forall|j: int| 0 <= j < 10 implies #[trigger] still_image_formats()[j] != "360"@ by {
                if j == 0 {
                    assert(still_image_formats()[0] == "jpg"@);
                    assert("360"@[0] != "jpg"@[0]);
                } else if j == 1 {
                    assert(still_image_formats()[1] == "jpeg"@);
                    assert("360"@.len() != "jpeg"@.len());
                } else if j == 2 {
                    assert(still_image_formats()[2] == "png"@);
                    assert("360"@[0] != "png"@[0]);
                } else if j == 3 {
                    assert(still_image_formats()[3] == "gif"@);
                    assert("360"@[0] != "gif"@[0]);
                } else if j == 4 {
                    assert(still_image_formats()[4] == "bmp"@);
                    assert("360"@[0] != "bmp"@[0]);
                } else if j == 5 {
                    assert(still_image_formats()[5] == "webp"@);
                    assert("360"@.len() != "webp"@.len());
                } else if j == 6 {
                    assert(still_image_formats()[6] == "tiff"@);
                    assert("360"@.len() != "tiff"@.len());
                } else if j == 7 {
                    assert(still_image_formats()[7] == "tif"@);
                    assert("360"@[0] != "tif"@[0]);
                } else if j == 8 {
                    assert(still_image_formats()[8] == "heic"@);
                    assert("360"@.len() != "heic"@.len());
                } else if j == 9 {
                    assert(still_image_formats()[9] == "heif"@);
                    assert("360"@.len() != "heif"@.len());
                }
            }
            lemma_not_among(still_image_formats(), "360"@);
        } else if i == 5 {
            assert(video_formats()[5] == "webm"@);
            assert(video_extensions()[5] == "webm"@);
            assert forall|j: int| 0 <= j < 15 implies #[trigger] camera_raw_formats()[j] != "webm"@ by {
                if j == 0 {
                    assert(camera_raw_formats()[0] == "cr2"@);
                    assert("webm"@.len() != "cr2"@.len());
                } else if j == 1 {
                    assert(camera_raw_formats()[1] == "cr3"@);
                    assert("webm"@.len() != "cr3"@.len());
                } else if j == 2 {
                    assert(camera_raw_formats()[2] == "nef"@);
                    assert("webm"@.len() != "nef"@.len());
                } else if j == 3 {
                    assert(camera_raw_formats()[3] == "arw"@);
                    assert("webm"@.len() != "arw"@.len());
                } else if j == 4 {
                    assert(camera_raw_formats()[4] == "orf"@);
                    assert("webm"@.len() != "orf"@.len());
                } else if j == 5 {
                    assert(camera_raw_formats()[5] == "rw2"@);
                    assert("webm"@.len() != "rw2"@.len());
                } else if j == 6 {
                    assert(camera_raw_formats()[6] == "dng"@);
                    assert("webm"@.len() != "dng"@.len());
                } else if j == 7 {
                    assert(camera_raw_formats()[7] == "raf"@);
                    assert("webm"@.len() != "raf"@.len());
                } else if j == 8 {
                    assert(camera_raw_formats()[8] == "pef"@);
                    assert("webm"@.len() != "pef"@.len());
                } else if j == 9 {
                    assert(camera_raw_formats()[9] == "srw"@);
                    assert("webm"@.len() != "srw"@.len());
                } else if j == 10 {
                    assert(camera_raw_formats()[10] == "x3f"@);
                    assert("webm"@.len() != "x3f"@.len());
                } else if j == 11 {
                    assert(camera_raw_formats()[11] == "3fr"@);
                    assert("webm"@.len() != "3fr"@.len());
                } else if j == 12 {
                    assert(camera_raw_formats()[12] == "mrw"@);
                    assert("webm"@.len() != "mrw"@.len());
                } else if j == 13 {
                    assert(camera_raw_formats()[13] == "nrw"@);
                    assert("webm"@.len() != "nrw"@.len());
                } else if j == 14 {
                    assert(camera_raw_formats()[14] == "raw"@);
                    assert("webm"@.len() != "raw"@.len());
                }
            }
            lemma_not_among(camera_raw_formats(), "webm"@);
            assert forall|j: int| 0 <= j < 10 implies #[trigger] still_image_formats()[j] != "webm"@ by {
                if j == 0 {
                    assert(still_image_formats()[0] == "jpg"@);
                    assert("webm"@.len() != "jpg"@.len());
                } else if j == 1 {
                    assert(still_image_formats()[1] == "jpeg"@);
                    assert("webm"@[0] != "jpeg"@[0]);
                } else if j == 2 {
                    assert(still_image_formats()[2] == "png"@);
                    assert("webm"@.len() != "png"@.len());
                } else if j == 3 {
                    assert(still_image_formats()[3] == "gif"@);
                    assert("webm"@.len() != "gif"@.len());
                } else if j == 4 {
                    assert(still_image_formats()[4] == "bmp"@);
                    assert("webm"@.len() != "bmp"@.len());
                } else if j == 5 {
                    assert(still_image_formats()[5] == "webp"@);
                    assert("webm"@[3] != "webp"@[3]);
                } else if j == 6 {
                    assert(still_image_formats()[6] == "tiff"@);
                    assert("webm"@[0] != "tiff"@[0]);
                } else if j == 7 {
                    assert(still_image_formats()[7] == "tif"@);
                    assert("webm"@.len() != "tif"@.len());
                } else if j == 8 {
                    assert(still_image_formats()[8] == "heic"@);
                    assert("webm"@[0] != "heic"@[0]);
                } else if j == 9 {
                    assert(still_image_formats()[9] == "heif"@);
                    assert("webm"@[0] != "heif"@[0]);
                }
            }
            lemma_not_among(still_image_formats(), "webm"@);
        }
    }
}

/// A sequence none of whose elements is `e` does not contain it.
proof fn lemma_not_among(l: Seq<Seq<char>>, e: Seq<char>)
    requires
        forall|j: int| 0 <= j < l.len() ==> #[trigger] l[j] != e,
    ensures
        !l.contains(e),
{
}

/// Whatever the lists, the kind of an extension follows them: a RAW
/// extension is RAW, an image one an image, a video one a video, and any
/// other extension is "other".
pub proof fn law_kind_follows_extension_lists(e: Seq<char>)
    ensures
        raw_extensions().contains(e) ==> kind_of_extension(e) == FileKind::Raw,
        image_extensions().contains(e) && !raw_extensions().contains(e) ==> kind_of_extension(e)
            == FileKind::Image,
        video_extensions().contains(e) && !raw_extensions().contains(e) && !image_extensions().contains(
            e,
        ) ==> kind_of_extension(e) == FileKind::Video,
        !raw_extensions().contains(e) && !image_extensions().contains(e) && !video_extensions().contains(
            e,
        ) ==> kind_of_extension(e) == FileKind::Other,
{
}

/// The request gives field `f` the value `v`.
spec fn field_given(u: UpdateMemory, f: MemoryField, v: Seq<char>) -> bool {
    let o = match f {
        MemoryField::Title => u.title,
        MemoryField::Description => u.description,
        MemoryField::CoverPath => u.cover_path,
        MemoryField::Location => u.location,
        MemoryField::StartedAt => u.started_at,
        MemoryField::EndedAt => u.ended_at,
    };
    o is Some && o.unwrap()@ == v
}

proof fn lemma_concat_contains<A>(a: Seq<A>, b: Seq<A>, x: A)
    ensures
        (a + b).contains(x) <==> a.contains(x) || b.contains(x),
{
    if (a + b).contains(x) {
        let i = choose|i: int| 0 <= i < (a + b).len() && (a + b)[i] == x;
        if i >= a.len() {
            assert(b[i - a.len()] == x);
        }
    }
    if a.contains(x) {
        let i = choose|i: int| 0 <= i < a.len() && a[i] == x;
        assert((a + b)[i] == x);
    }
    if b.contains(x) {
        let i = choose|i: int| 0 <= i < b.len() && b[i] == x;
        assert((a + b)[a.len() + i] == x);
    }
}

proof fn lemma_change_of_contains(f: MemoryField, o: Option<String>, g: MemoryField, v: Seq<char>)
    ensures
        change_of(f, o).contains((g, v)) <==> (f == g && o is Some && o.unwrap()@ == v),
{
    match o {
        Some(s) => {
            if f == g && s@ == v {
                assert(change_of(f, o)[0] == (g, v));
            }
        },
        None => {},
    }
}

/// Each change of a memory update carries the value of its own field, and
/// only fields given a value change.
pub proof fn law_changes_carry_their_fields(u: UpdateMemory, v: Seq<char>)
    ensures
        changes_of(u).contains((MemoryField::Title, v)) <==> (u.title is Some && u.title.unwrap()@ == v),
        changes_of(u).contains((MemoryField::Description, v)) <==> (u.description is Some
            && u.description.unwrap()@ == v),
        changes_of(u).contains((MemoryField::CoverPath, v)) <==> (u.cover_path is Some
            && u.cover_path.unwrap()@ == v),
        changes_of(u).contains((MemoryField::Location, v)) <==> (u.location is Some
            && u.location.unwrap()@ == v),
        changes_of(u).contains((MemoryField::StartedAt, v)) <==> (u.started_at is Some
            && u.started_at.unwrap()@ == v),
        changes_of(u).contains((MemoryField::EndedAt, v)) <==> (u.ended_at is Some
            && u.ended_at.unwrap()@ == v),
{
    let c = changes_of(u);
    let c1 = change_of(MemoryField::Title, u.title);
    let c2 = change_of(MemoryField::Description, u.description);
    let c3 = change_of(MemoryField::CoverPath, u.cover_path);
    let c4 = change_of(MemoryField::Location, u.location);
    let c5 = change_of(MemoryField::StartedAt, u.started_at);
    let c6 = change_of(MemoryField::EndedAt, u.ended_at);
    assert forall|g: MemoryField| #[trigger] field_given(u, g, v) == c.contains((g, v)) by {
        lemma_concat_contains(c1, c2, (g, v));
        lemma_concat_contains(c1 + c2, c3, (g, v));
        lemma_concat_contains(c1 + c2 + c3, c4, (g, v));
        lemma_concat_contains(c1 + c2 + c3 + c4, c5, (g, v));
        lemma_concat_contains(c1 + c2 + c3 + c4 + c5, c6, (g, v));
        lemma_change_of_contains(MemoryField::Title, u.title, g, v);
        lemma_change_of_contains(MemoryField::Description, u.description, g, v);
        lemma_change_of_contains(MemoryField::CoverPath, u.cover_path, g, v);
        lemma_change_of_contains(MemoryField::Location, u.location, g, v);
        lemma_change_of_contains(MemoryField::StartedAt, u.started_at, g, v);
        lemma_change_of_contains(MemoryField::EndedAt, u.ended_at, g, v);
    }
    assert(field_given(u, MemoryField::Title, v) == c.contains((MemoryField::Title, v)));
    assert(field_given(u, MemoryField::Description, v) == c.contains((MemoryField::Description, v)));
    assert(field_given(u, MemoryField::CoverPath, v) == c.contains((MemoryField::CoverPath, v)));
    assert(field_given(u, MemoryField::Location, v) == c.contains((MemoryField::Location, v)));
    assert(field_given(u, MemoryField::StartedAt, v) == c.contains((MemoryField::StartedAt, v)));
    assert(field_given(u, MemoryField::EndedAt, v) == c.contains((MemoryField::EndedAt, v)));
}

/// The browse entry of a picture (an image or RAW file) is processed
/// exactly when its catalog entry has both a thumbnail and a preview;
/// directories, videos and other files always are. It shows the catalog's
/// content id once the thumbnail is ready, and the catalog's capture date
/// in place of the file's time when there is one.
pub proof fn law_browse_entry_fields(e: BrowseEntry, f: FileEntry, info: Option<CatalogEntry>)
    requires
        entry_for(e, f, info),
    ensures
        !f.is_dir && (kind_of_name(f.name@) == FileKind::Image || kind_of_name(f.name@)
            == FileKind::Raw) ==> (e.processed <==> (info is Some && info.unwrap().has_thumbnail
            && info.unwrap().has_preview)),
        f.is_dir || kind_of_name(f.name@) == FileKind::Video || kind_of_name(f.name@)
            == FileKind::Other ==> e.processed,
        e.cid is Some <==> (info is Some && info.unwrap().has_thumbnail),
        e.cid is Some ==> e.cid.unwrap()@ == info.unwrap().cid@,
        info is Some && info.unwrap().modified is Some ==> e.modified is Some
            && e.modified.unwrap()@ == info.unwrap().modified.unwrap()@,
        !(info is Some && info.unwrap().modified is Some) ==> opt_view(e.modified) == opt_view(
            f.modified,
        ),
{
}

} // verus!
