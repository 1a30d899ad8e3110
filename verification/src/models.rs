//! The memory bank's records: memories, their media items and notes,
//! collections, and how a memory is played back.
use vstd::prelude::*;

use crate::order::{key_views, stable_order, stably_sorted};
use crate::text::owned;

verus! {

/// A memory: a titled, dated set of media and notes.
pub struct Memory {
    pub id: String,
    pub title: String,
    pub description: String,
    pub cover_path: Option<String>,
    pub location: Option<String>,
    pub started_at: Option<String>,
    pub ended_at: Option<String>,
    pub created_at: String,
    pub updated_at: String,
}

/// A media file of a memory, kept on a device of the mesh.
pub struct MemoryItem {
    pub id: String,
    pub memory_id: String,
    pub kind: String,
    pub device_id: String,
    pub dir: String,
    pub path: String,
    pub file_type: String,
    pub caption: String,
    pub taken_at: Option<String>,
    pub sort_order: i32,
    pub created_at: String,
    pub cid: Option<String>,
}

/// A written note of a memory.
pub struct MemoryNote {
    pub id: String,
    pub memory_id: String,
    pub content: String,
    pub sort_order: i32,
    pub created_at: String,
}

/// A memory with its items and notes.
pub struct MemoryWithItems {
    pub memory: Memory,
    pub items: Vec<MemoryItem>,
    pub notes: Vec<MemoryNote>,
}

/// A request to create a memory.
pub struct CreateMemory {
    pub title: String,
    pub description: String,
    pub cover_path: Option<String>,
    pub location: Option<String>,
    pub started_at: Option<String>,
    pub ended_at: Option<String>,
}

/// A request to change some fields of a memory.
pub struct UpdateMemory {
    pub title: Option<String>,
    pub description: Option<String>,
    pub cover_path: Option<String>,
    pub location: Option<String>,
    pub started_at: Option<String>,
    pub ended_at: Option<String>,
}

/// A request to add a media file to a memory.
pub struct AddMemoryItem {
    pub device_id: String,
    pub dir: String,
    pub path: String,
    pub file_type: String,
    pub caption: String,
    pub taken_at: Option<String>,
    pub sort_order: i32,
    pub cid: Option<String>,
}

/// A named collection of memories.
pub struct Collection {
    pub id: String,
    pub title: String,
    pub description: String,
    pub created_at: String,
    pub updated_at: String,
}

/// A collection with its memories.
pub struct CollectionWithMemories {
    pub collection: Collection,
    pub memories: Vec<Memory>,
}

/// A request to create a collection.
pub struct CreateCollection {
    pub title: String,
    pub description: String,
}

/// A request to add a memory to a collection.
pub struct AddCollectionMemory {
    pub memory_id: String,
    pub sort_order: i32,
}

/// One step of a memory's playback: a media item or a note.
pub struct PlaybackEntry {
    /// "media" or "note".
    pub entry_type: String,
    pub sort_order: i32,
    pub item: Option<MemoryItem>,
    pub note: Option<MemoryNote>,
}

/// The file type of an added item when the request names none.
pub fn default_file_type() -> (s: String)
    ensures
        s@ == "image"@,
{
    owned("image")
}

fn clone_opt(o: &Option<String>) -> (r: Option<String>)
    ensures
        r == *o,
{
    match o {
        Some(s) => Some(s.clone()),
        None => None,
    }
}

impl MemoryItem {
    /// A copy of the item.
    pub fn duplicate(&self) -> (r: MemoryItem)
        ensures
            r == *self,
    {
        MemoryItem {
            id: self.id.clone(),
            memory_id: self.memory_id.clone(),
            kind: self.kind.clone(),
            device_id: self.device_id.clone(),
            dir: self.dir.clone(),
            path: self.path.clone(),
            file_type: self.file_type.clone(),
            caption: self.caption.clone(),
            taken_at: clone_opt(&self.taken_at),
            sort_order: self.sort_order,
            created_at: self.created_at.clone(),
            cid: clone_opt(&self.cid),
        }
    }
}

impl MemoryNote {
    /// A copy of the note.
    pub fn duplicate(&self) -> (r: MemoryNote)
        ensures
            r == *self,
    {
        MemoryNote {
            id: self.id.clone(),
            memory_id: self.memory_id.clone(),
            content: self.content.clone(),
            sort_order: self.sort_order,
            created_at: self.created_at.clone(),
        }
    }
}

/// The sort orders of a memory's items followed by those of its notes: the
/// timeline that playback orders.
pub open spec fn timeline_keys(items: Seq<MemoryItem>, notes: Seq<MemoryNote>) -> Seq<i32> {
    items.map_values(|i: MemoryItem| i.sort_order) + notes.map_values(|n: MemoryNote| n.sort_order)
}

/// `e` is the playback step for position `j` of the timeline: an item's
/// "media" step for the items, a note's "note" step after them.
pub open spec fn step_for(
    e: PlaybackEntry,
    items: Seq<MemoryItem>,
    notes: Seq<MemoryNote>,
    j: int,
) -> bool {
    if j < items.len() {
        &&& e.entry_type@ == "media"@
        &&& e.sort_order == items[j].sort_order
        &&& e.item == Some(items[j])
        &&& e.note is None
    } else {
        &&& e.entry_type@ == "note"@
        &&& e.sort_order == notes[j - items.len()].sort_order
        &&& e.item is None
        &&& e.note == Some(notes[j - items.len()])
    }
}

/// `r` is the playback of a memory with `items` and `notes`.
pub open spec fn is_playback(items: Seq<MemoryItem>, notes: Seq<MemoryNote>, r: Seq<PlaybackEntry>) -> bool {
    exists|p: Seq<usize>|
        {
            &&& stably_sorted::<i32>(timeline_keys(items, notes), false, p)
            &&& r.len() == p.len()
            &&& forall|k: int| 0 <= k < p.len() ==> step_for(#[trigger] r[k], items, notes, p[k] as int)
        }
}

/// A memory's playback: its items and then its notes, stably sorted by
/// sort order, so that on equal sort orders items come before notes and
/// each keeps its own order.
pub fn playback_entries(items: &Vec<MemoryItem>, notes: &Vec<MemoryNote>) -> (r: Vec<PlaybackEntry>)
    requires
        items@.len() + notes@.len() <= usize::MAX,
    ensures
        is_playback(items@, notes@, r@),
{
    let ni = items.len();
    let nn = notes.len();
    let mut keys: Vec<i32> = Vec::new();
    let mut i: usize = 0;
    while i < ni
        invariant
            ni == items@.len(),
            i <= ni,
            keys@ =~= items@.take(i as int).map_values(|x: MemoryItem| x.sort_order),
        decreases ni - i,
    {
        keys.push(items[i].sort_order);
        i = i + 1;
    }
    let mut j: usize = 0;
    while j < nn
        invariant
            ni == items@.len(),
            nn == notes@.len(),
            j <= nn,
            keys@ =~= items@.map_values(|x: MemoryItem| x.sort_order) + notes@.take(
                j as int,
            ).map_values(|x: MemoryNote| x.sort_order),
        decreases nn - j,
    {
        assert(items@.take(ni as int) =~= items@);
        keys.push(notes[j].sort_order);
        j = j + 1;
    }
    assert(items@.take(ni as int) =~= items@);
    assert(notes@.take(nn as int) =~= notes@);
    let ghost tk = timeline_keys(items@, notes@);
    assert(key_views(keys@) =~= tk);
    let order = stable_order(&keys, false);
    let total = ni + nn;
    let mut out: Vec<PlaybackEntry> = Vec::new();
    let mut k: usize = 0;
    while k < total
        invariant
            ni == items@.len(),
            nn == notes@.len(),
            total == ni + nn,
            order@.len() == total,
            forall|t: int| 0 <= t < total ==> #[trigger] order@[t] < total,
            k <= total,
            out@.len() == k,
            forall|t: int| 0 <= t < k ==> step_for(#[trigger] out@[t], items@, notes@, order@[t] as int),
        decreases total - k,
    {
        let j = order[k];
        let e = if j < ni {
            let item = items[j].duplicate();
            PlaybackEntry {
                entry_type: owned("media"),
                sort_order: item.sort_order,
                item: Some(item),
                note: None,
            }
        } else {
            let note = notes[j - ni].duplicate();
            PlaybackEntry {
                entry_type: owned("note"),
                sort_order: note.sort_order,
                item: None,
                note: Some(note),
            }
        };
        out.push(e);
        k = k + 1;
    }
    assert(is_playback(items@, notes@, out@)) by {
        assert(stably_sorted::<i32>(timeline_keys(items@, notes@), false, order@));
    }
    out
}

/// The fields of a memory that a request can change.
#[derive(Clone, Copy, Debug, PartialEq, Eq, Structural)]
pub enum MemoryField {
    Title,
    Description,
    CoverPath,
    Location,
    StartedAt,
    EndedAt,
}

impl MemoryField {
    /// The database column that holds the field.
    pub fn column(&self) -> (c: &'static str)
        ensures
            c@ == column_of(*self),
    {
        match self {
            MemoryField::Title => "title",
            MemoryField::Description => "description",
            MemoryField::CoverPath => "cover_path",
            MemoryField::Location => "location",
            MemoryField::StartedAt => "started_at",
            MemoryField::EndedAt => "ended_at",
        }
    }
}

/// The database column of each field.
pub open spec fn column_of(f: MemoryField) -> Seq<char> {
    match f {
        MemoryField::Title => "title"@,
        MemoryField::Description => "description"@,
        MemoryField::CoverPath => "cover_path"@,
        MemoryField::Location => "location"@,
        MemoryField::StartedAt => "started_at"@,
        MemoryField::EndedAt => "ended_at"@,
    }
}

/// The change of one field, when a value is given for it.
pub open spec fn change_of(f: MemoryField, v: Option<String>) -> Seq<(MemoryField, Seq<char>)> {
    match v {
        Some(s) => seq![(f, s@)],
        None => Seq::empty(),
    }
}

/// The changes a request makes, field by field in the order title,
/// description, cover path, location, start, end; fields it leaves out are
/// kept.
pub open spec fn changes_of(u: UpdateMemory) -> Seq<(MemoryField, Seq<char>)> {
    change_of(MemoryField::Title, u.title) + change_of(MemoryField::Description, u.description)
        + change_of(MemoryField::CoverPath, u.cover_path) + change_of(
        MemoryField::Location,
        u.location,
    ) + change_of(MemoryField::StartedAt, u.started_at) + change_of(
        MemoryField::EndedAt,
        u.ended_at,
    )
}

/// The views of a list of changes.
pub open spec fn change_views(v: Seq<(MemoryField, String)>) -> Seq<(MemoryField, Seq<char>)> {
    v.map_values(|c: (MemoryField, String)| (c.0, c.1@))
}

fn push_change(v: &mut Vec<(MemoryField, String)>, f: MemoryField, value: &Option<String>)
    ensures
        change_views(final(v)@) == change_views(old(v)@) + change_of(f, *value),
{
    match value {
        Some(s) => {
            v.push((f, s.clone()));
            assert(change_views(v@) =~= change_views(old(v)@) + change_of(f, *value));
        },
        None => {
            assert(change_views(v@) =~= change_views(old(v)@) + change_of(f, *value));
        },
    }
}

impl UpdateMemory {
    /// The field changes that the request makes, in order.
    pub fn changes(&self) -> (r: Vec<(MemoryField, String)>)
        ensures
            change_views(r@) == changes_of(*self),
    {
        let mut r: Vec<(MemoryField, String)> = Vec::new();
        push_change(&mut r, MemoryField::Title, &self.title);
        push_change(&mut r, MemoryField::Description, &self.description);
        push_change(&mut r, MemoryField::CoverPath, &self.cover_path);
        push_change(&mut r, MemoryField::Location, &self.location);
        push_change(&mut r, MemoryField::StartedAt, &self.started_at);
        push_change(&mut r, MemoryField::EndedAt, &self.ended_at);
        assert(change_views(r@) =~= changes_of(*self));
        r
    }
}

} // verus!
