//! The progress registry: the entries of all uploads, keyed by upload id and kept
//! in the order of their creation times, so that a snapshot is the queue.

use crate::clock::now_millis;
use crate::progress::clone_progress;
use crate::text::str_eq;
use crate::types::{ProgressUpdate, ProgressView};
use vstd::prelude::*;
use vstd::string::*;

verus! {

// ---------------------------------------------------------------------------
// The model: a sequence of (id, entry), ids distinct, oldest first
// ---------------------------------------------------------------------------

/// An upload id and the entry stored under it.
pub type Entry = (Seq<char>, ProgressView);

/// No two entries have the same id.
pub open spec fn ids_distinct(entries: Seq<Entry>) -> bool {
    forall|i: int, j: int|
        0 <= i < entries.len() && 0 <= j < entries.len() && i != j ==> (#[trigger] entries[i]).0 != (
        #[trigger] entries[j]).0
}

/// No entry stands before one that was created earlier.
pub open spec fn oldest_first(entries: Seq<Entry>) -> bool {
    forall|i: int, j: int|
        0 <= i <= j < entries.len() ==> (#[trigger] entries[i]).1.created_at <= (
        #[trigger] entries[j]).1.created_at
}

/// What holds of the registry at all times.
pub open spec fn registry_ok(entries: Seq<Entry>) -> bool {
    ids_distinct(entries) && oldest_first(entries)
}

/// Whether an entry is stored under `id`.
pub open spec fn has_id(entries: Seq<Entry>, id: Seq<char>) -> bool {
    exists|i: int| 0 <= i < entries.len() && (#[trigger] entries[i]).0 == id
}

/// The position of the entry stored under `id`.
pub open spec fn position_of(entries: Seq<Entry>, id: Seq<char>) -> int
    recommends
        has_id(entries, id),
{
    choose|i: int| 0 <= i < entries.len() && (#[trigger] entries[i]).0 == id
}

/// The entry stored under `id`, if there is one.
pub open spec fn lookup(entries: Seq<Entry>, id: Seq<char>) -> Option<ProgressView> {
    if has_id(entries, id) {
        Some(entries[position_of(entries, id)].1)
    } else {
        None
    }
}

/// Where an entry created at `created_at` goes: behind every entry that is not
/// younger, so that entries of one creation time stay in the order they came.
pub open spec fn insertion_point(entries: Seq<Entry>, created_at: u64) -> int
    decreases entries.len(),
{
    if entries.len() == 0 || entries[0].1.created_at > created_at {
        0
    } else {
        1 + insertion_point(entries.drop_first(), created_at)
    }
}

/// The creation time that a new entry gets: its own, or the clock's where it has
/// none.
pub open spec fn stamped(entry: ProgressView, now: u64) -> ProgressView {
    ProgressView { created_at: if entry.created_at == 0 { now } else { entry.created_at }, ..entry }
}

/// The registry after `entry` was written under `id` at time `now`.
///
/// An entry that replaces another takes over its creation time and its place. A
/// new entry keeps its own creation time, or gets `now` where that is zero.
pub open spec fn upserted(entries: Seq<Entry>, id: Seq<char>, entry: ProgressView, now: u64) -> Seq<
    Entry,
> {
    if has_id(entries, id) {
        let at = position_of(entries, id);
        entries.update(at, (id, ProgressView { created_at: entries[at].1.created_at, ..entry }))
    } else {
        let fresh = stamped(entry, now);
        entries.insert(insertion_point(entries, fresh.created_at), (id, fresh))
    }
}

/// The registry without the entry stored under `id`.
pub open spec fn deleted(entries: Seq<Entry>, id: Seq<char>) -> Seq<Entry> {
    if has_id(entries, id) {
        entries.remove(position_of(entries, id))
    } else {
        entries
    }
}

/// The insertion point parts the entries: those before it are not younger than
/// the new entry, those from it on are.
pub proof fn lemma_insertion_point(entries: Seq<Entry>, created_at: u64)
    requires
        oldest_first(entries),
    ensures
        0 <= insertion_point(entries, created_at) <= entries.len(),
        forall|i: int|
            0 <= i < insertion_point(entries, created_at) ==> (#[trigger] entries[i]).1.created_at
                <= created_at,
        forall|i: int|
            insertion_point(entries, created_at) <= i < entries.len() ==> (
            #[trigger] entries[i]).1.created_at > created_at,
    decreases entries.len(),
{
    if entries.len() == 0 || entries[0].1.created_at > created_at {
        assert forall|i: int| 0 <= i < entries.len() implies (#[trigger] entries[i]).1.created_at
            > created_at by {
            assert(entries[0].1.created_at <= entries[i].1.created_at);
        }
    } else {
        let rest = entries.drop_first();
        assert(oldest_first(rest)) by {
            assert forall|i: int, j: int| 0 <= i <= j < rest.len() implies (
            #[trigger] rest[i]).1.created_at <= (#[trigger] rest[j]).1.created_at by {
                assert(rest[i] == entries[i + 1]);
                assert(rest[j] == entries[j + 1]);
            }
        }
        lemma_insertion_point(rest, created_at);
        let p = insertion_point(rest, created_at);
        assert forall|i: int| 0 <= i < p + 1 implies (#[trigger] entries[i]).1.created_at
            <= created_at by {
            if i > 0 {
                assert(rest[i - 1] == entries[i]);
            }
        }
        assert forall|i: int| p + 1 <= i < entries.len() implies (
        #[trigger] entries[i]).1.created_at > created_at by {
            assert(rest[i - 1] == entries[i]);
        }
    }
}

/// Writing an entry keeps the registry in order and its ids distinct.
pub proof fn lemma_upsert_keeps_order(
    entries: Seq<Entry>,
    id: Seq<char>,
    entry: ProgressView,
    now: u64,
)
    requires
        registry_ok(entries),
    ensures
        registry_ok(upserted(entries, id, entry, now)),
{
    let after = upserted(entries, id, entry, now);
    if has_id(entries, id) {
        let at = position_of(entries, id);
        assert forall|i: int, j: int|
            0 <= i < after.len() && 0 <= j < after.len() && i != j implies (#[trigger] after[i]).0
            != (#[trigger] after[j]).0 by {
            assert(after[i].0 == entries[i].0);
            assert(after[j].0 == entries[j].0);
        }
        assert forall|i: int, j: int| 0 <= i <= j < after.len() implies (
        #[trigger] after[i]).1.created_at <= (#[trigger] after[j]).1.created_at by {
            assert(after[i].1.created_at == entries[i].1.created_at);
            assert(after[j].1.created_at == entries[j].1.created_at);
        }
    } else {
        let fresh = stamped(entry, now);
        let p = insertion_point(entries, fresh.created_at);
        lemma_insertion_point(entries, fresh.created_at);
        assert forall|i: int, j: int|
            0 <= i < after.len() && 0 <= j < after.len() && i != j implies (#[trigger] after[i]).0
            != (#[trigger] after[j]).0 by {
            let oi = if i < p {
                i
            } else {
                i - 1
            };
            let oj = if j < p {
                j
            } else {
                j - 1
            };
            if i != p {
                assert(after[i] == entries[oi]);
            }
            if j != p {
                assert(after[j] == entries[oj]);
            }
        }
        assert forall|i: int, j: int| 0 <= i <= j < after.len() implies (
        #[trigger] after[i]).1.created_at <= (#[trigger] after[j]).1.created_at by {
            let oi = if i < p {
                i
            } else {
                i - 1
            };
            let oj = if j < p {
                j
            } else {
                j - 1
            };
            if i != p {
                assert(after[i] == entries[oi]);
            }
            if j != p {
                assert(after[j] == entries[oj]);
            }
        }
    }
}

/// After an entry was written under `id`, the registry holds it there: with the
/// creation time of the entry it replaced, or else with its own, or the clock's
/// where it had none. Every other id has what it had.
pub proof fn lemma_upsert_lookup(
    entries: Seq<Entry>,
    id: Seq<char>,
    entry: ProgressView,
    now: u64,
    other: Seq<char>,
)
    requires
        registry_ok(entries),
    ensures
        lookup(upserted(entries, id, entry, now), id) == Some(
            match lookup(entries, id) {
                Some(prior) => ProgressView { created_at: prior.created_at, ..entry },
                None => stamped(entry, now),
            },
        ),
        other != id ==> lookup(upserted(entries, id, entry, now), other) == lookup(entries, other),
{
    let after = upserted(entries, id, entry, now);
    lemma_upsert_keeps_order(entries, id, entry, now);
    if has_id(entries, id) {
        let at = position_of(entries, id);
        assert(after[at].0 == id);
        assert(has_id(after, id));
        let found = position_of(after, id);
        assert(found == at) by {
            if found != at {
                assert(after[found].0 != after[at].0);
            }
        }
        if other == id {
        } else if has_id(entries, other) {
            let o = position_of(entries, other);
            assert(after[o] == entries[o]);
            assert(has_id(after, other));
            let fo = position_of(after, other);
            assert(fo == o) by {
                if fo != o {
                    assert(after[fo].0 != after[o].0);
                }
            }
        } else {
            if has_id(after, other) {
                let fo = position_of(after, other);
                assert(entries[fo].0 == after[fo].0);
            }
        }
    } else {
        let fresh = stamped(entry, now);
        let p = insertion_point(entries, fresh.created_at);
        lemma_insertion_point(entries, fresh.created_at);
        assert(after[p] == (id, fresh));
        assert(has_id(after, id));
        let found = position_of(after, id);
        assert(found == p) by {
            if found != p {
                assert(after[found].0 != after[p].0);
            }
        }
        if other == id {
        } else if has_id(entries, other) {
            let o = position_of(entries, other);
            let no = if o < p {
                o
            } else {
                o + 1
            };
            assert(after[no] == entries[o]);
            assert(has_id(after, other));
            let fo = position_of(after, other);
            assert(fo == no) by {
                if fo != no {
                    assert(after[fo].0 != after[no].0);
                }
            }
        } else {
            if has_id(after, other) {
                let fo = position_of(after, other);
                let oo = if fo < p {
                    fo
                } else {
                    fo - 1
                };
                assert(fo != p);
                assert(entries[oo] == after[fo]);
            }
        }
    }
}

/// The creation time of an upload never changes: whatever is written under an id
/// that has an entry, the entry found there afterwards was created when the first
/// one was.
pub proof fn lemma_created_at_is_kept(
    entries: Seq<Entry>,
    id: Seq<char>,
    entry: ProgressView,
    now: u64,
)
    requires
        registry_ok(entries),
        has_id(entries, id),
    ensures
        lookup(upserted(entries, id, entry, now), id) is Some,
        lookup(upserted(entries, id, entry, now), id)->0.created_at == lookup(
            entries,
            id,
        )->0.created_at,
{
    lemma_upsert_lookup(entries, id, entry, now, id);
}

/// Deleting keeps the registry in order; the id is gone and every other id has
/// what it had.
pub proof fn lemma_delete(entries: Seq<Entry>, id: Seq<char>, other: Seq<char>)
    requires
        registry_ok(entries),
    ensures
        registry_ok(deleted(entries, id)),
        lookup(deleted(entries, id), id) is None,
        other != id ==> lookup(deleted(entries, id), other) == lookup(entries, other),
{
    let after = deleted(entries, id);
    if has_id(entries, id) {
        let at = position_of(entries, id);
        assert forall|i: int| 0 <= i < after.len() implies #[trigger] after[i] == entries[if i
            < at {
            i
        } else {
            i + 1
        }] by {}
        assert forall|i: int, j: int|
            0 <= i < after.len() && 0 <= j < after.len() && i != j implies (#[trigger] after[i]).0
            != (#[trigger] after[j]).0 by {
            let oi = if i < at {
                i
            } else {
                i + 1
            };
            let oj = if j < at {
                j
            } else {
                j + 1
            };
            assert(after[i] == entries[oi]);
            assert(after[j] == entries[oj]);
        }
        assert forall|i: int, j: int| 0 <= i <= j < after.len() implies (
        #[trigger] after[i]).1.created_at <= (#[trigger] after[j]).1.created_at by {
            let oi = if i < at {
                i
            } else {
                i + 1
            };
            let oj = if j < at {
                j
            } else {
                j + 1
            };
            assert(after[i] == entries[oi]);
            assert(after[j] == entries[oj]);
        }
        if has_id(after, id) {
            let f = position_of(after, id);
            let of = if f < at {
                f
            } else {
                f + 1
            };
            assert(after[f] == entries[of]);
            assert(entries[of].0 != entries[at].0);
        }
        if other == id {
        } else if has_id(entries, other) {
            let o = position_of(entries, other);
            let no = if o < at {
                o
            } else {
                o - 1
            };
            assert(o != at);
            assert(after[no] == entries[o]);
            assert(has_id(after, other));
            let fo = position_of(after, other);
            assert(fo == no) by {
                if fo != no {
                    assert(after[fo].0 != after[no].0);
                }
            }
        } else {
            if has_id(after, other) {
                let fo = position_of(after, other);
                let oo = if fo < at {
                    fo
                } else {
                    fo + 1
                };
                assert(after[fo] == entries[oo]);
            }
        }
    }
}

// ---------------------------------------------------------------------------
// The registry
// ---------------------------------------------------------------------------

struct Slot {
    id: String,
    update: ProgressUpdate,
}

/// The entries of all uploads.
pub struct ProgressRegistry {
    slots: Vec<Slot>,
}

impl View for ProgressRegistry {
    type V = Seq<Entry>;

    closed spec fn view(&self) -> Seq<Entry> {
        Seq::new(self.slots@.len(), |i: int| (self.slots@[i].id@, self.slots@[i].update@))
    }
}

impl ProgressRegistry {
    /// What every function of the registry asks for and keeps: ids are distinct
    /// and entries stand oldest first.
    pub open spec fn wf(&self) -> bool {
        registry_ok(self@)
    }

    /// A registry without entries.
    pub fn new() -> (r: ProgressRegistry)
        ensures
            r@ == Seq::<Entry>::empty(),
            r.wf(),
    {
        let r = ProgressRegistry { slots: Vec::new() };
        assert(r@ =~= Seq::<Entry>::empty());
        r
    }

    fn find(&self, upload_id: &str) -> (r: Option<usize>)
        requires
            self.wf(),
        ensures
            match r {
                Some(i) => has_id(self@, upload_id@) && i == position_of(self@, upload_id@) && i
                    < self.slots@.len(),
                None => !has_id(self@, upload_id@),
            },
    {
        let mut i: usize = 0;
        while i < self.slots.len()
            invariant
                self.wf(),
                i <= self.slots@.len(),
                forall|k: int| 0 <= k < i ==> (#[trigger] self@[k]).0 != upload_id@,
            decreases self.slots@.len() - i,
        {
            if str_eq(self.slots[i].id.as_str(), upload_id) {
                proof {
                    assert(self@[i as int].0 == upload_id@);
                    let p = position_of(self@, upload_id@);
                    if p != i {
                        assert(self@[p].0 != self@[i as int].0);
                    }
                }
                return Some(i);
            }
            i += 1;
        }
        None
    }

    /// The number of entries.
    pub fn len(&self) -> (n: usize)
        ensures
            n == self@.len(),
    {
        self.slots.len()
    }

    /// Whether an entry is stored under `upload_id`.
    pub fn contains(&self, upload_id: &str) -> (r: bool)
        requires
            self.wf(),
        ensures
            r == has_id(self@, upload_id@),
    {
        self.find(upload_id).is_some()
    }

    /// A copy of the entry stored under `upload_id`.
    pub fn get(&self, upload_id: &str) -> (r: Option<ProgressUpdate>)
        requires
            self.wf(),
        ensures
            match r {
                Some(p) => lookup(self@, upload_id@) == Some(p@),
                None => lookup(self@, upload_id@) is None,
            },
    {
        match self.find(upload_id) {
            Some(i) => Some(clone_progress(&self.slots[i].update)),
            None => None,
        }
    }

    /// Writes `entry` under `upload_id`, the clock reading `now` milliseconds.
    ///
    /// An entry that replaces another takes over its creation time; a new entry
    /// keeps its own, or gets `now` where it has none.
    pub fn upsert(&mut self, upload_id: &str, entry: ProgressUpdate, now: u64)
        requires
            old(self).wf(),
        ensures
            final(self).wf(),
            final(self)@ == upserted(old(self)@, upload_id@, entry@, now),
    {
        proof {
            lemma_upsert_keeps_order(self@, upload_id@, entry@, now);
        }
        let ghost given = entry@;
        let mut entry = entry;
        let ghost before = self@;
        match self.find(upload_id) {
            Some(i) => {
                entry.created_at = self.slots[i].update.created_at;
                let slot = Slot { id: String::from_str(upload_id), update: entry };
                proof {
                    let next = self.slots@.update(i as int, slot);
                    assert(Seq::new(next.len(), |k: int| (next[k].id@, next[k].update@))
                        =~= upserted(before, upload_id@, given, now));
                }
                self.slots.set(i, slot);
            },
            None => {
                if entry.created_at == 0 {
                    entry.created_at = now;
                }
                let at = self.insertion_index(entry.created_at);
                let slot = Slot { id: String::from_str(upload_id), update: entry };
                proof {
                    let next = self.slots@.insert(at as int, slot);
                    assert(Seq::new(next.len(), |k: int| (next[k].id@, next[k].update@))
                        =~= upserted(before, upload_id@, given, now));
                }
                self.slots.insert(at, slot);
            },
        }
    }

    fn insertion_index(&self, created_at: u64) -> (at: usize)
        ensures
            at == insertion_point(self@, created_at),
            at <= self.slots@.len(),
    {
        let mut i: usize = 0;
        assert(self@.skip(0) =~= self@);
        while i < self.slots.len() && self.slots[i].update.created_at <= created_at
            invariant
                i <= self.slots@.len(),
                insertion_point(self@, created_at) == i + insertion_point(
                    self@.skip(i as int),
                    created_at,
                ),
            decreases self.slots@.len() - i,
        {
            proof {
                let rest = self@.skip(i as int);
                assert(rest[0] == self@[i as int]);
                assert(rest.drop_first() =~= self@.skip(i as int + 1));
            }
            i += 1;
        }
        proof {
            let rest = self@.skip(i as int);
            if i < self.slots@.len() {
                assert(rest[0] == self@[i as int]);
            }
        }
        i
    }

    /// Removes the entry stored under `upload_id`, if there is one.
    pub fn delete(&mut self, upload_id: &str)
        requires
            old(self).wf(),
        ensures
            final(self).wf(),
            final(self)@ == deleted(old(self)@, upload_id@),
    {
        proof {
            lemma_delete(self@, upload_id@, upload_id@);
        }
        let ghost before = self@;
        match self.find(upload_id) {
            Some(i) => {
                proof {
                    let next = self.slots@.remove(i as int);
                    assert(Seq::new(next.len(), |k: int| (next[k].id@, next[k].update@))
                        =~= deleted(before, upload_id@));
                }
                self.slots.remove(i);
            },
            None => {},
        }
    }

    /// The entries with their ids, oldest first: the queue.
    pub fn snapshot(&self) -> (r: Vec<(String, ProgressUpdate)>)
        requires
            self.wf(),
        ensures
            r@.len() == self@.len(),
            forall|i: int|
                0 <= i < r@.len() ==> (#[trigger] r@[i]).0@ == self@[i].0 && r@[i].1@ == self@[i].1,
            forall|i: int, j: int|
                0 <= i <= j < r@.len() ==> (#[trigger] r@[i]).1.created_at <= (
                #[trigger] r@[j]).1.created_at,
    {
        let mut r: Vec<(String, ProgressUpdate)> = Vec::new();
        let mut i: usize = 0;
        while i < self.slots.len()
            invariant
                i <= self.slots@.len(),
                r@.len() == i,
                forall|k: int|
                    0 <= k < i ==> (#[trigger] r@[k]).0@ == self@[k].0 && r@[k].1@ == self@[k].1,
            decreases self.slots@.len() - i,
        {
            r.push((self.slots[i].id.clone(), clone_progress(&self.slots[i].update)));
            i += 1;
        }
        proof {
            assert forall|i: int, j: int| 0 <= i <= j < r@.len() implies (
            #[trigger] r@[i]).1.created_at <= (#[trigger] r@[j]).1.created_at by {
                assert(r@[i].1@ == self@[i].1);
                assert(r@[j].1@ == self@[j].1);
            }
        }
        r
    }
}

/// Writes `update` under `upload_id`, keeping the creation time of the entry it
/// replaces.
///
/// The clock is read once, for the creation time of a new entry that has none:
/// the registry is then what [`ProgressRegistry::upsert`] makes of it for some
/// reading of the clock.
pub fn update_progress(registry: &mut ProgressRegistry, upload_id: &str, update: ProgressUpdate)
    requires
        old(registry).wf(),
    ensures
        final(registry).wf(),
        exists|now: u64| final(registry)@ == upserted(old(registry)@, upload_id@, update@, now),
{
    let now = now_millis();
    registry.upsert(upload_id, update, now);
    assert(registry@ == upserted(old(registry)@, upload_id@, update@, now));
}

} // verus!
