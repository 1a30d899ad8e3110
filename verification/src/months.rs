//! Grouping of browsed files by the month they were modified in.
use vstd::prelude::*;
use vstd::utf8::{decode_utf8, encode_utf8, encode_utf8_decode_utf8};
use vstd::utf8::is_char_boundary;
use vstd::string::StringSliceAdditionalSpecFns;

use crate::text::{after_first, chars_of, first_segment, owned, push_chars, split_first, str_eq};

verus! {

/// Whether a date's month key is defined: when its UTF-8 encoding has at
/// least seven bytes, the seventh byte must end a character.
pub open spec fn month_key_ok(modified: Option<Seq<char>>) -> bool {
    match modified {
        Some(s) => encode_utf8(s).len() >= 7 ==> is_char_boundary(encode_utf8(s), 7),
        None => true,
    }
}

/// The month key of a modification date: the text of its first seven bytes
/// ("YYYY-MM" for an ISO 8601 date), or "unknown" when there is no date or
/// it is shorter than that.
pub open spec fn month_key_of(modified: Option<Seq<char>>) -> Seq<char> {
    match modified {
        Some(s) => if encode_utf8(s).len() >= 7 {
            decode_utf8(encode_utf8(s).take(7))
        } else {
            "unknown"@
        },
        None => "unknown"@,
    }
}

/// The month key of a modification date: its first seven bytes, or
/// "unknown" when there is no date or it is shorter than that.
pub fn month_key(modified: Option<&str>) -> (key: String)
    requires
        month_key_ok(
            match modified {
                Some(s) => Some(s@),
                None => None,
            },
        ),
    ensures
        key@ == month_key_of(
            match modified {
                Some(s) => Some(s@),
                None => None,
            },
        ),
        key@.len() > 0,
{
    proof {
        reveal_strlit("unknown");
    }
    match modified {
        Some(s) => {
            let bytes = s.as_bytes();
            if bytes.len() >= 7 {
                let (head, _tail) = s.split_at(7);
                let key = owned(head);
                proof {
                    assert(head.spec_bytes() == encode_utf8(head@));
                    assert(s.spec_bytes().take(7) =~= s.spec_bytes().subrange(0, 7));
                    encode_utf8_decode_utf8(key@);
                    if key@.len() == 0 {
                        assert(key@ =~= Seq::<char>::empty());
                        assert(encode_utf8(Seq::<char>::empty()) =~= Seq::<u8>::empty());
                    }
                }
                key
            } else {
                owned("unknown")
            }
        },
        None => owned("unknown"),
    }
}

/// The English name of a two-digit month number.
pub open spec fn month_name(m: Seq<char>) -> Seq<char> {
    if m == "01"@ {
        "January"@
    } else if m == "02"@ {
        "February"@
    } else if m == "03"@ {
        "March"@
    } else if m == "04"@ {
        "April"@
    } else if m == "05"@ {
        "May"@
    } else if m == "06"@ {
        "June"@
    } else if m == "07"@ {
        "July"@
    } else if m == "08"@ {
        "August"@
    } else if m == "09"@ {
        "September"@
    } else if m == "10"@ {
        "October"@
    } else if m == "11"@ {
        "November"@
    } else if m == "12"@ {
        "December"@
    } else {
        "Unknown"@
    }
}

/// The label shown for a month key: "Unknown Date" for "unknown"; the key
/// itself when it has no '-'; otherwise the month's name (from the part
/// after the first '-') and the year (the part before it).
pub open spec fn month_label_of(key: Seq<char>) -> Seq<char> {
    if key == "unknown"@ {
        "Unknown Date"@
    } else if !key.contains('-') {
        key
    } else {
        month_name(first_segment(after_first(key, '-'), '-')) + " "@ + first_segment(key, '-')
    }
}

fn month_name_of(m: &str) -> (name: &'static str)
    ensures
        name@ == month_name(m@),
{
    if str_eq(m, "01") {
        "January"
    } else if str_eq(m, "02") {
        "February"
    } else if str_eq(m, "03") {
        "March"
    } else if str_eq(m, "04") {
        "April"
    } else if str_eq(m, "05") {
        "May"
    } else if str_eq(m, "06") {
        "June"
    } else if str_eq(m, "07") {
        "July"
    } else if str_eq(m, "08") {
        "August"
    } else if str_eq(m, "09") {
        "September"
    } else if str_eq(m, "10") {
        "October"
    } else if str_eq(m, "11") {
        "November"
    } else if str_eq(m, "12") {
        "December"
    } else {
        "Unknown"
    }
}

/// The label shown for a month key, such as "March 2024".
pub fn month_label(key: &str) -> (label: String)
    ensures
        label@ == month_label_of(key@),
{
    if str_eq(key, "unknown") {
        return owned("Unknown Date");
    }
    let cs = chars_of(key);
    let (year, rest) = split_first(&cs, '-');
    match rest {
        None => owned(key),
        Some(rest) => {
            let (month, _) = split_first(&rest, '-');
            let month = crate::text::string_of(&month);
            let mut label = owned(month_name_of(month.as_str()));
            let space = chars_of(" ");
            push_chars(&mut label, &space);
            push_chars(&mut label, &year);
            label
        },
    }
}

} // verus!

verus! {

/// A run of consecutive files that share a month, as the month index of the
/// browse API reports it.
pub struct MonthGroup {
    /// The month key ("YYYY-MM" or "unknown").
    pub month: String,
    /// The label of the month, such as "March 2024".
    pub label: String,
    /// How many consecutive files fall in the month.
    pub count: usize,
    /// The position of the run's first file in the listing.
    pub offset: usize,
}

/// Run `j` follows on from run `j - 1`... written for `j` and `j + 1`: the
/// next run starts right after run `j`, with a different key.
pub open spec fn runs_adjoin(g: Seq<MonthGroup>, j: int) -> bool {
    &&& g[j + 1].offset == g[j].offset + g[j].count
    &&& g[j].month@ != g[j + 1].month@
}

/// Run `j` is non-empty, labelled after its key, and every key it covers
/// equals its key.
pub open spec fn run_holds(keys: Seq<Seq<char>>, g: Seq<MonthGroup>, j: int) -> bool {
    &&& g[j].count >= 1
    &&& g[j].offset + g[j].count <= keys.len()
    &&& g[j].label@ == month_label_of(g[j].month@)
    &&& forall|i: int| g[j].offset <= i < g[j].offset + g[j].count ==> #[trigger] keys[i] == g[j].month@
}

/// `g` splits `keys` into maximal runs of equal keys, in order: the runs
/// are contiguous, non-empty, cover every key once, hold equal keys, and
/// neighbouring runs have different keys. Each run carries its key's label.
pub open spec fn groups_of(keys: Seq<Seq<char>>, g: Seq<MonthGroup>) -> bool {
    &&& (keys.len() == 0 <==> g.len() == 0)
    &&& g.len() > 0 ==> g[0].offset == 0
    &&& g.len() > 0 ==> g.last().offset + g.last().count == keys.len()
    &&& forall|j: int| 0 <= j < g.len() - 1 ==> #[trigger] runs_adjoin(g, j)
    &&& forall|j: int| 0 <= j < g.len() ==> #[trigger] run_holds(keys, g, j)
}

proof fn lemma_groups_start(
    prefix: Seq<Seq<char>>,
    k: Seq<char>,
    old: Seq<MonthGroup>,
    ng: MonthGroup,
)
    requires
        groups_of(prefix, old),
        old.len() == 0 || old.last().month@ != k,
        ng.month@ == k,
        ng.label@ == month_label_of(k),
        ng.count == 1,
        ng.offset == prefix.len(),
    ensures
        groups_of(prefix.push(k), old.push(ng)),
{
    let g = old.push(ng);
    let next = prefix.push(k);
    assert forall|j: int| 0 <= j < g.len() - 1 implies #[trigger] runs_adjoin(g, j) by {
        assert(old[j] == g[j]);
        if j < g.len() - 2 {
            assert(runs_adjoin(old, j));
            assert(old[j + 1] == g[j + 1]);
        }
    }
    assert forall|j: int| 0 <= j < g.len() implies #[trigger] run_holds(next, g, j) by {
        if j < g.len() - 1 {
            assert(old[j] == g[j]);
            assert(run_holds(prefix, old, j));
            assert forall|t: int| g[j].offset <= t < g[j].offset + g[j].count implies #[trigger] next[t]
                == g[j].month@ by {
                assert(prefix[t] == next[t]);
            }
        } else {
            assert forall|t: int| g[j].offset <= t < g[j].offset + g[j].count implies #[trigger] next[t]
                == g[j].month@ by {}
        }
    }
}

proof fn lemma_groups_extend(
    prefix: Seq<Seq<char>>,
    k: Seq<char>,
    old: Seq<MonthGroup>,
    ng: MonthGroup,
)
    requires
        groups_of(prefix, old),
        old.len() > 0,
        old.last().month@ == k,
        ng.month@ == k,
        ng.label@ == old.last().label@,
        ng.count == old.last().count + 1,
        ng.offset == old.last().offset,
    ensures
        groups_of(prefix.push(k), old.drop_last().push(ng)),
{
    let g = old.drop_last().push(ng);
    let next = prefix.push(k);
    let last = old.len() - 1;
    assert(run_holds(prefix, old, last));
    assert forall|j: int| 0 <= j < g.len() - 1 implies #[trigger] runs_adjoin(g, j) by {
        assert(runs_adjoin(old, j));
        assert(old[j] == g[j]);
    }
    assert forall|j: int| 0 <= j < g.len() implies #[trigger] run_holds(next, g, j) by {
        if j < last {
            assert(old[j] == g[j]);
            assert(run_holds(prefix, old, j));
            assert forall|t: int| g[j].offset <= t < g[j].offset + g[j].count implies #[trigger] next[t]
                == g[j].month@ by {
                assert(prefix[t] == next[t]);
            }
        } else {
            assert forall|t: int| g[j].offset <= t < g[j].offset + g[j].count implies #[trigger] next[t]
                == g[j].month@ by {
                if t < prefix.len() {
                    assert(prefix[t] == next[t]);
                    assert(prefix[t] == old[last].month@);
                }
            }
        }
    }
}

/// Splits a listing's month keys into runs of consecutive equal keys.
pub fn group_keys(keys: &Vec<String>) -> (groups: Vec<MonthGroup>)
    requires
        forall|i: int| 0 <= i < keys@.len() ==> #[trigger] keys@[i]@.len() > 0,
    ensures
        groups_of(keys@.map_values(|k: String| k@), groups@),
{
    let ghost ks = keys@.map_values(|k: String| k@);
    let n = keys.len();
    let mut groups: Vec<MonthGroup> = Vec::new();
    let mut i: usize = 0;
    while i < n
        invariant
            n == keys@.len(),
            ks == keys@.map_values(|k: String| k@),
            forall|t: int| 0 <= t < keys@.len() ==> #[trigger] keys@[t]@.len() > 0,
            i <= n,
            groups_of(ks.take(i as int), groups@),
        decreases n - i,
    {
        let ghost old_groups = groups@;
        let ghost prefix = ks.take(i as int);
        let ghost next = ks.take(i + 1);
        assert(next =~= prefix.push(ks[i as int]));
        let key = &keys[i];
        let glen = groups.len();
        let starts = if glen == 0 {
            true
        } else {
            !str_eq(groups[glen - 1].month.as_str(), key.as_str())
        };
        if starts {
            let label = month_label(key.as_str());
            let month = owned(key.as_str());
            let g = MonthGroup { month, label, count: 1, offset: i };
            proof {
                lemma_groups_start(prefix, ks[i as int], old_groups, g);
            }
            groups.push(g);
        } else {
            let last = groups.pop().unwrap();
            let ghost last_view = last;
            assert(last_view == old_groups.last());
            let bumped = MonthGroup {
                month: last.month,
                label: last.label,
                count: last.count + 1,
                offset: last.offset,
            };
            proof {
                lemma_groups_extend(prefix, ks[i as int], old_groups, bumped);
            }
            groups.push(bumped);
        }
        i = i + 1;
    }
    assert(ks.take(n as int) =~= ks);
    groups
}

} // verus!
