//! Identity-safe operations on the in-memory store.
//!
//! Every lookup, update and removal addresses entries by their stable `id`,
//! never by list position.  All operations that change a field also refresh
//! the entry's `last_modified` stamp.

use vstd::prelude::*;
use crate::entry::{Config, ConfigView, DatabaseFile, EntryType, EntryView, FileView, PasswordEntry};

verus! {

/// True when some entry of `entries` bears `id`.
pub open spec fn has_entry(entries: Seq<EntryView>, id: Seq<char>) -> bool {
    exists|i: int| 0 <= i < entries.len() && entries[i].id == id
}

/// True when `entries[i]` is the first entry bearing `id`.
pub open spec fn is_first_match(entries: Seq<EntryView>, id: Seq<char>, i: int) -> bool {
    &&& 0 <= i < entries.len()
    &&& entries[i].id == id
    &&& forall|j: int| 0 <= j < i ==> entries[j].id != id
}

/// The field of `e` addressed by `idx` under the fixed ordinal mapping
/// 0 = title, 1 = name, 2 = value, 3 = url, 4 = comment.  Any other index
/// names no field and reads as the empty string.
pub open spec fn spec_field(e: EntryView, idx: int) -> Seq<char> {
    if idx == 0 {
        e.title
    } else if idx == 1 {
        e.name
    } else if idx == 2 {
        e.value
    } else if idx == 3 {
        e.url
    } else if idx == 4 {
        e.comment
    } else {
        Seq::<char>::empty()
    }
}

/// `e` with the field addressed by `idx` set to `v` and its stamp set to
/// `ts`.  An index outside the mapping refreshes only the stamp.
pub open spec fn spec_set_field(e: EntryView, idx: int, v: Seq<char>, ts: Seq<char>) -> EntryView {
    let stamped = EntryView { last_modified: ts, ..e };
    if idx == 0 {
        EntryView { title: v, ..stamped }
    } else if idx == 1 {
        EntryView { name: v, ..stamped }
    } else if idx == 2 {
        EntryView { value: v, ..stamped }
    } else if idx == 3 {
        EntryView { url: v, ..stamped }
    } else if idx == 4 {
        EntryView { comment: v, ..stamped }
    } else {
        stamped
    }
}

/// A freshly created entry: all text fields empty, classic-password type,
/// the given id and stamp, and no attached files.
pub open spec fn spec_blank_entry(id: Seq<char>, ts: Seq<char>) -> EntryView {
    EntryView {
        id,
        title: Seq::<char>::empty(),
        name: Seq::<char>::empty(),
        value: Seq::<char>::empty(),
        url: Seq::<char>::empty(),
        comment: Seq::<char>::empty(),
        entry_type: EntryType::ClassicPassword,
        last_modified: ts,
        files: Seq::<FileView>::empty(),
    }
}

/// The store after `update_entry` hit the entry at `i`: that entry has the
/// field addressed by `idx` set to `v` and its stamp set to `ts`.
pub open spec fn spec_updated_entries(
    entries: Seq<EntryView>,
    i: int,
    idx: int,
    v: Seq<char>,
    ts: Seq<char>,
) -> Seq<EntryView> {
    entries.update(i, spec_set_field(entries[i], idx, v, ts))
}

/// The value `update_entry` applies: the last element of the edit history,
/// or a fixed placeholder when the history is empty.
pub open spec fn spec_applied_message(message: Seq<Seq<char>>) -> Seq<char> {
    if message.len() > 0 {
        message.last()
    } else {
        "error while parsing text"@
    }
}

/// The applied value, read straight off the history vector's contents.
pub open spec fn applied_message_of(message: Seq<String>) -> Seq<char> {
    spec_applied_message(message.map_values(|m: String| m@))
}

/// `entries` with every entry bearing `id` removed, order kept.
pub open spec fn spec_entries_without(entries: Seq<EntryView>, id: Seq<char>) -> Seq<EntryView> {
    entries.filter(|e: EntryView| e.id != id)
}

/// One unfolding step of [`spec_entries_without`], from the back.
proof fn lemma_without_unfold(entries: Seq<EntryView>, id: Seq<char>)
    requires
        entries.len() > 0,
    ensures
        spec_entries_without(entries, id) == if entries.last().id != id {
            spec_entries_without(entries.drop_last(), id).push(entries.last())
        } else {
            spec_entries_without(entries.drop_last(), id)
        },
{
    reveal(Seq::filter);
}

/// Removing an id that nothing bears changes nothing.
proof fn lemma_without_absent(entries: Seq<EntryView>, id: Seq<char>)
    requires
        forall|j: int| 0 <= j < entries.len() ==> entries[j].id != id,
    ensures
        spec_entries_without(entries, id) == entries,
    decreases entries.len(),
{
    reveal(Seq::filter);
    if entries.len() > 0 {
        lemma_without_absent(entries.drop_last(), id);
        lemma_without_unfold(entries, id);
        assert(spec_entries_without(entries, id) =~= entries);
    } else {
        assert(spec_entries_without(entries, id) =~= entries);
    }
}

/// Removing an id that exactly the entry at `i` bears drops exactly that
/// entry.
proof fn lemma_without_skips_one(entries: Seq<EntryView>, id: Seq<char>, i: int)
    requires
        0 <= i < entries.len(),
        entries[i].id == id,
        forall|j: int| 0 <= j < entries.len() && j != i ==> entries[j].id != id,
    ensures
        spec_entries_without(entries, id) == entries.remove(i),
    decreases entries.len(),
{
    lemma_without_unfold(entries, id);
    if i == entries.len() - 1 {
        lemma_without_absent(entries.drop_last(), id);
        assert(spec_entries_without(entries, id) =~= entries.remove(i));
    } else {
        lemma_without_skips_one(entries.drop_last(), id, i);
        assert(entries.drop_last().remove(i).push(entries.last()) =~= entries.remove(i));
    }
}

/// Relies on `uuid::Uuid::new_v4` and its `Display` form: a fresh random
/// identifier, rendered in the 36-character hyphenated shape.  Nothing is
/// assumed about which identifier comes back.  If the operating system's
/// randomness source fails, the call panics inside the uuid crate.
#[verifier::external_body]
fn fresh_uuid() -> (r: String)
    ensures
        r@.len() == 36,
{
    uuid::Uuid::new_v4().to_string()
}

/// Relies on `chrono::Local::now` and its `Display` form: the current local
/// time as text.  Nothing is assumed about the value.
#[verifier::external_body]
fn now_string() -> (r: String)
{
    chrono::Local::now().to_string()
}

impl DatabaseFile {
    /// A fresh store with no entries, carrying the vault metadata and the
    /// passphrase it will be sealed with.
    pub fn new_database(author: String, comment: String, password: String) -> (db: DatabaseFile)
        ensures
            db@.entries == Seq::<EntryView>::empty(),
            db@.config == (ConfigView { comment: comment@, author: author@ }),
            db@.password == password@,
    {
        let db = DatabaseFile {
            entries: Vec::new(),
            config: Config { comment, author },
            last_access: now_string(),
            password,
        };
        proof {
            assert(db@.entries =~= Seq::<EntryView>::empty());
        }
        db
    }

    /// Refresh the `last_access` stamp; done on every successful open.
    pub fn touch_last_access(&mut self)
        ensures
            final(self)@.entries == old(self)@.entries,
            final(self)@.config == old(self)@.config,
            final(self)@.password == old(self)@.password,
    {
        self.last_access = now_string();
    }

    /// Append a brand-new entry: all text fields empty, classic-password
    /// type, a freshly generated id, and the stamp set to the current time.
    /// Returns the new id so the caller can select the entry at once.
    pub fn add_empty_entry(&mut self) -> (r: String)
        ensures
            r@.len() == 36,
            final(self)@.entries.len() == old(self)@.entries.len() + 1,
            exists|ts: Seq<char>|
                final(self)@.entries == old(self)@.entries.push(#[trigger] spec_blank_entry(r@, ts)),
            final(self)@.config == old(self)@.config,
            final(self)@.last_access == old(self)@.last_access,
            final(self)@.password == old(self)@.password,
    {
        let id = fresh_uuid();
        let id_ret = id.clone();
        let stamp = now_string();
        let ghost ts = stamp@;
        let entry = PasswordEntry {
            id,
            title: String::new(),
            name: String::new(),
            value: String::new(),
            url: String::new(),
            comment: String::new(),
            entry_type: EntryType::ClassicPassword,
            last_modified: stamp,
            files: Vec::new(),
        };
        let ghost ev = entry@;
        self.entries.push(entry);
        proof {
            assert(ev.files =~= Seq::<FileView>::empty());
            assert(ev == spec_blank_entry(id_ret@, ts));
            assert(final(self)@.entries =~= old(self)@.entries.push(spec_blank_entry(id_ret@, ts)));
        }
        id_ret
    }

    /// Remove every entry bearing `id`; report whether any removal occurred.
    /// An id that matches nothing is a no-op returning `false`.
    pub fn remove_entry_by_id(&mut self, id: String) -> (removed: bool)
        ensures
            final(self)@.entries == spec_entries_without(old(self)@.entries, id@),
            removed == has_entry(old(self)@.entries, id@),
            final(self)@.config == old(self)@.config,
            final(self)@.last_access == old(self)@.last_access,
            final(self)@.password == old(self)@.password,
    {
        let ghost orig = self@.entries;
        let mut i: usize = 0;
        let mut removed = false;
        let ghost k: int = 0;
        proof {
            assert(orig.take(0) =~= Seq::<EntryView>::empty());
            reveal(Seq::filter);
            assert(self@.entries =~= spec_entries_without(orig.take(0), id@) + orig.skip(0));
        }
        while i < self.entries.len()
            invariant
                0 <= k <= orig.len(),
                i == spec_entries_without(orig.take(k), id@).len(),
                self@.entries == spec_entries_without(orig.take(k), id@) + orig.skip(k),
                removed == exists|j: int| 0 <= j < k && orig[j].id == id@,
                self.config == old(self).config,
                self.last_access == old(self).last_access,
                self.password == old(self).password,
            decreases orig.len() - k,
        {
            let ghost kept = spec_entries_without(orig.take(k), id@);
            proof {
                if k == orig.len() {
                    assert(orig.skip(k) =~= Seq::<EntryView>::empty());
                    assert(false);
                }
                assert(self@.entries[i as int] == orig.skip(k)[0]);
                assert(orig.skip(k)[0] == orig[k]);
                let taken = orig.take(k + 1);
                assert(taken.drop_last() =~= orig.take(k));
                assert(taken.last() == orig[k]);
                lemma_without_unfold(taken, id@);
            }
            let matches = self.entries[i].id == id;
            if matches {
                self.entries.remove(i);
                removed = true;
                proof {
                    assert(spec_entries_without(orig.take(k + 1), id@) == kept);
                    assert((kept + orig.skip(k)).remove(i as int) =~= kept + orig.skip(k + 1));
                    assert(self@.entries =~= spec_entries_without(orig.take(k + 1), id@) + orig.skip(
                        k + 1,
                    ));
                }
            } else {
                i = i + 1;
                proof {
                    assert(spec_entries_without(orig.take(k + 1), id@) == kept.push(orig[k]));
                    assert(kept.push(orig[k]) + orig.skip(k + 1) =~= kept + orig.skip(k));
                    assert(self@.entries =~= spec_entries_without(orig.take(k + 1), id@) + orig.skip(
                        k + 1,
                    ));
                }
            }
            proof {
                k = k + 1;
            }
        }
        proof {
            assert(orig.take(k) =~= orig);
            assert(orig.skip(k) =~= Seq::<EntryView>::empty());
            assert(self@.entries =~= spec_entries_without(orig, id@));
            if removed {
                assert(has_entry(orig, id@));
            }
        }
        removed
    }

    /// Read the field of the first entry bearing `id`, under the fixed
    /// ordinal mapping; an index outside the mapping reads as empty.
    pub fn get_value_from_selected_detail(&self, index_detail: usize, id: String) -> (r: String)
        requires
            has_entry(self@.entries, id@),
        ensures
            exists|i: int|
                is_first_match(self@.entries, id@, i) && r@ == spec_field(
                    self@.entries[i],
                    index_detail as int,
                ),
    {
        let n = self.entries.len();
        let mut i: usize = 0;
        while i < n
            invariant
                n == self@.entries.len(),
                0 <= i <= n,
                has_entry(self@.entries, id@),
                forall|j: int| 0 <= j < i ==> self@.entries[j].id != id@,
            decreases n - i,
        {
            if self.entries[i].id == id {
                let e = &self.entries[i];
                let r = if index_detail == 0 {
                    e.title.clone()
                } else if index_detail == 1 {
                    e.name.clone()
                } else if index_detail == 2 {
                    e.value.clone()
                } else if index_detail == 3 {
                    e.url.clone()
                } else if index_detail == 4 {
                    e.comment.clone()
                } else {
                    String::new()
                };
                proof {
                    assert(is_first_match(self@.entries, id@, i as int));
                }
                return r;
            }
            i = i + 1;
        }
        proof {
            assert(forall|j: int| 0 <= j < self@.entries.len() ==> self@.entries[j].id != id@);
            assert(false);
        }
        String::new()
    }

    /// Set the field addressed by `index_detail` on the first entry bearing
    /// `id` to the last element of the edit history, and refresh the entry's
    /// stamp.  An index outside the mapping refreshes only the stamp.
    pub fn update_entry(&mut self, index_detail: usize, id: String, message: Vec<String>)
        requires
            has_entry(old(self)@.entries, id@),
        ensures
            exists|i: int|
                #[trigger] is_first_match(old(self)@.entries, id@, i) && exists|ts: Seq<char>|
                    final(self)@.entries == #[trigger] spec_updated_entries(
                        old(self)@.entries,
                        i,
                        index_detail as int,
                        applied_message_of(message@),
                        ts,
                    ),
            final(self)@.config == old(self)@.config,
            final(self)@.last_access == old(self)@.last_access,
            final(self)@.password == old(self)@.password,
    {
        let converted: String = match message.last() {
            Some(m) => m.clone(),
            None => "error while parsing text".to_owned(),
        };
        proof {
            if message@.len() > 0 {
                assert(applied_message_of(message@) == message@[message@.len() - 1]@);
            } else {
                assert(applied_message_of(message@) == "error while parsing text"@);
            }
        }
        let n = self.entries.len();
        let mut i: usize = 0;
        while i < n
            invariant
                n == self@.entries.len(),
                0 <= i <= n,
                *self == *old(self),
                has_entry(old(self)@.entries, id@),
                converted@ == applied_message_of(message@),
                forall|j: int| 0 <= j < i ==> self@.entries[j].id != id@,
            decreases n - i,
        {
            if self.entries[i].id == id {
                proof {
                    assert(is_first_match(old(self)@.entries, id@, i as int));
                }
                let stamp = now_string();
                let ghost ts = stamp@;
                let ghost pre = old(self)@.entries[i as int];
                let mut e: PasswordEntry = self.entries.remove(i);
                if index_detail == 0 {
                    e.title = converted;
                } else if index_detail == 1 {
                    e.name = converted;
                } else if index_detail == 2 {
                    e.value = converted;
                } else if index_detail == 3 {
                    e.url = converted;
                } else if index_detail == 4 {
                    e.comment = converted;
                }
                e.last_modified = stamp;
                proof {
                    assert(e@ == spec_set_field(
                        pre,
                        index_detail as int,
                        applied_message_of(message@),
                        ts,
                    ));
                }
                self.entries.insert(i, e);
                proof {
                    assert(final(self)@.entries =~= old(self)@.entries.update(i as int, e@));
                    assert(final(self)@.entries == spec_updated_entries(
                        old(self)@.entries,
                        i as int,
                        index_detail as int,
                        applied_message_of(message@),
                        ts,
                    ));
                }
                return ;
            }
            i = i + 1;
        }
        proof {
            assert(forall|j: int| 0 <= j < self@.entries.len() ==> self@.entries[j].id != id@);
            assert(false);
        }
    }

    /// Erase the session's secrets before the store is dropped: the
    /// passphrase and every entry's secret value are overwritten with
    /// zeroes and left empty.  Identities and the other fields stay.
    pub fn wipe(&mut self)
        ensures
            final(self)@.password == Seq::<char>::empty(),
            final(self)@.entries.len() == old(self)@.entries.len(),
            forall|k: int|
                0 <= k < old(self)@.entries.len() ==> final(self)@.entries[k] == (EntryView {
                    value: Seq::<char>::empty(),
                    ..old(self)@.entries[k]
                }),
            final(self)@.config == old(self)@.config,
            final(self)@.last_access == old(self)@.last_access,
    {
        crate::crypto::zeroize_string(&mut self.password);
        proof {
            assert(self.password@ =~= Seq::<char>::empty());
        }
        let n = self.entries.len();
        let mut i: usize = 0;
        while i < n
            invariant
                0 <= i <= n,
                n == self@.entries.len(),
                n == old(self)@.entries.len(),
                forall|k: int|
                    0 <= k < i ==> self@.entries[k] == (EntryView {
                        value: Seq::<char>::empty(),
                        ..old(self)@.entries[k]
                    }),
                forall|k: int| i <= k < n ==> self@.entries[k] == old(self)@.entries[k],
                self@.password == Seq::<char>::empty(),
                self.config == old(self).config,
                self.last_access == old(self).last_access,
            decreases n - i,
        {
            let ghost pre = self@.entries;
            let mut e = self.entries.remove(i);
            crate::crypto::zeroize_string(&mut e.value);
            proof {
                assert(e.value@ =~= Seq::<char>::empty());
                assert(e@ == (EntryView { value: Seq::<char>::empty(), ..pre[i as int] }));
            }
            self.entries.insert(i, e);
            proof {
                assert(self@.entries =~= pre.update(
                    i as int,
                    EntryView { value: Seq::<char>::empty(), ..pre[i as int] },
                ));
            }
            i = i + 1;
        }
    }

    /// Look up the first entry bearing `id`, read-only.
    pub fn get_entry_by_id(&self, id: String) -> (r: Option<&PasswordEntry>)
        ensures
            match r {
                Some(e) => exists|i: int|
                    is_first_match(self@.entries, id@, i) && e@ == self@.entries[i],
                None => !has_entry(self@.entries, id@),
            },
    {
        let n = self.entries.len();
        let mut i: usize = 0;
        while i < n
            invariant
                n == self@.entries.len(),
                0 <= i <= n,
                forall|j: int| 0 <= j < i ==> self@.entries[j].id != id@,
            decreases n - i,
        {
            if self.entries[i].id == id {
                proof {
                    assert(is_first_match(self@.entries, id@, i as int));
                }
                return Some(&self.entries[i]);
            }
            i = i + 1;
        }
        None
    }
}

/// Identity stability: updating any field of the entry addressed by `id`
/// keeps every entry's id in place, so the same id still finds an entry
/// bearing that id, at the same position.  Applied once per step, this
/// carries over any sequence of updates, since the conclusion re-establishes
/// the hypothesis.
pub proof fn lemma_update_keeps_identity(
    entries: Seq<EntryView>,
    id: Seq<char>,
    i: int,
    idx: int,
    v: Seq<char>,
    ts: Seq<char>,
)
    requires
        is_first_match(entries, id, i),
    ensures
        ({
            let updated = entries.update(i, spec_set_field(entries[i], idx, v, ts));
            &&& updated.len() == entries.len()
            &&& forall|j: int| 0 <= j < entries.len() ==> updated[j].id == entries[j].id
            &&& is_first_match(updated, id, i)
        }),
{
    let updated = entries.update(i, spec_set_field(entries[i], idx, v, ts));
    assert(forall|j: int| 0 <= j < entries.len() ==> updated[j].id == entries[j].id);
}

/// Deletion correctness: removing an id that exactly one entry bears
/// shrinks the store by one, leaves no entry bearing the id, and a second
/// removal of the same id changes nothing.
pub proof fn lemma_remove_exactly_one(entries: Seq<EntryView>, id: Seq<char>, i: int)
    requires
        is_first_match(entries, id, i),
        forall|j: int| 0 <= j < entries.len() && j != i ==> entries[j].id != id,
    ensures
        ({
            let once = spec_entries_without(entries, id);
            &&& once.len() == entries.len() - 1
            &&& !has_entry(once, id)
            &&& spec_entries_without(once, id) == once
        }),
{
    let once = spec_entries_without(entries, id);
    lemma_without_skips_one(entries, id, i);
    assert(forall|j: int| 0 <= j < once.len() ==> once[j].id != id);
    lemma_without_absent(once, id);
}

/// Field-mapping determinism: reading a field right after writing it, on the
/// same entry addressed by the same id, yields exactly the value written.
pub proof fn lemma_field_mapping_roundtrip(
    entries: Seq<EntryView>,
    id: Seq<char>,
    i: int,
    idx: int,
    v: Seq<char>,
    ts: Seq<char>,
)
    requires
        is_first_match(entries, id, i),
        0 <= idx < 5,
    ensures
        ({
            let updated = entries.update(i, spec_set_field(entries[i], idx, v, ts));
            &&& is_first_match(updated, id, i)
            &&& spec_field(updated[i], idx) == v
        }),
{
    lemma_update_keeps_identity(entries, id, i, idx, v, ts);
}

} // verus!
