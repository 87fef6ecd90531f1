//! The note store: a collection of records keyed by the storage key derived
//! from each note's title. The store itself is in-memory; the surrounding
//! binary mirrors it to disk, one record per file, using [`crate::text::file_name`].

use crate::note::{Note, NoteError, NoteV};
use crate::text::{key_of, lex_le, storage_key, str_le};
use vstd::prelude::*;

verus! {

/// The store's invariant: every record is well formed and no two records
/// share a storage key.
pub open spec fn store_inv(s: Seq<NoteV>) -> bool {
    &&& forall|i: int| 0 <= i < s.len() ==> (#[trigger] s[i]).wf()
    &&& forall|i: int, j: int|
        0 <= i < j < s.len() ==> key_of(#[trigger] s[i].title) != key_of(#[trigger] s[j].title)
}

/// Whether some record's title derives to the given storage key.
pub open spec fn has_key(s: Seq<NoteV>, k: Seq<char>) -> bool {
    exists|i: int| 0 <= i < s.len() && key_of(#[trigger] s[i].title) == k
}

/// The position of the record with the given storage key.
pub open spec fn index_of_key(s: Seq<NoteV>, k: Seq<char>) -> int {
    choose|i: int| 0 <= i < s.len() && key_of(#[trigger] s[i].title) == k
}

/// The record with the given storage key.
pub open spec fn note_at(s: Seq<NoteV>, k: Seq<char>) -> NoteV {
    s[index_of_key(s, k)]
}

/// What saving a record does: it fully overwrites the record sharing its
/// storage key, or is appended if no record shares it.
pub open spec fn save_spec(s: Seq<NoteV>, n: NoteV) -> Seq<NoteV> {
    if has_key(s, key_of(n.title)) {
        s.update(index_of_key(s, key_of(n.title)), n)
    } else {
        s.push(n)
    }
}

/// What deleting the record with the given storage key does.
pub open spec fn delete_spec(s: Seq<NoteV>, k: Seq<char>) -> Seq<NoteV> {
    s.remove(index_of_key(s, k))
}

/// In a store that satisfies the invariant, a position whose record matches a
/// key is the one position the key selects.
pub proof fn lemma_key_unique(s: Seq<NoteV>, k: Seq<char>, i: int)
    requires
        store_inv(s),
        0 <= i < s.len(),
        key_of(s[i].title) == k,
    ensures
        has_key(s, k),
        index_of_key(s, k) == i,
        note_at(s, k) == s[i],
{
    assert(has_key(s, k));
    let j = index_of_key(s, k);
    if i < j {
        assert(key_of(s[i].title) != key_of(s[j].title));
    } else if j < i {
        assert(key_of(s[j].title) != key_of(s[i].title));
    }
}

/// The note store.
pub struct NoteStore {
    notes: Vec<Note>,
}

impl View for NoteStore {
    type V = Seq<NoteV>;

    closed spec fn view(&self) -> Seq<NoteV> {
        self.notes@.map_values(|n: Note| n@)
    }
}

impl NoteStore {
    pub open spec fn wf(self) -> bool {
        store_inv(self@)
    }

    /// An empty store.
    pub fn new() -> (r: NoteStore)
        ensures
            r@ == Seq::<NoteV>::empty(),
            r.wf(),
    {
        let r = NoteStore { notes: Vec::new() };
        proof {
            assert(r@ =~= Seq::<NoteV>::empty());
        }
        r
    }

    /// How many records the store holds.
    pub fn count(&self) -> (r: usize)
        ensures
            r == self@.len(),
    {
        self.notes.len()
    }

    fn find_index(&self, key: &String) -> (r: Option<usize>)
        ensures
            match r {
                Some(i) => i < self@.len() && key_of(self@[i as int].title) == key@,
                None => !has_key(self@, key@),
            },
    {
        let mut j: usize = 0;
        while j < self.notes.len()
            invariant
                j <= self.notes.len(),
                forall|t: int| 0 <= t < j ==> key_of(#[trigger] self@[t].title) != key@,
            decreases self.notes.len() - j,
        {
            let kj = storage_key(self.notes[j].title.as_str());
            if kj == *key {
                return Some(j);
            }
            j += 1;
        }
        None
    }

    /// Whether a record is present for the key derived from this title.
    pub fn contains_title(&self, title: &str) -> (r: bool)
        requires
            self.wf(),
        ensures
            r == has_key(self@, key_of(title@)),
    {
        let key = storage_key(title);
        match self.find_index(&key) {
            Some(i) => {
                proof {
                    lemma_key_unique(self@, key@, i as int);
                }
                true
            },
            None => false,
        }
    }

    /// The record stored under the key derived from this title; the record
    /// keeps the title it was saved with, which may differ from the queried
    /// one in case or spacing.
    pub fn load(&self, title: &str) -> (r: Result<Note, NoteError>)
        requires
            self.wf(),
        ensures
            has_key(self@, key_of(title@)) ==> (r matches Ok(n) && n@ == note_at(
                self@,
                key_of(title@),
            )),
            !has_key(self@, key_of(title@)) ==> r == Err::<Note, NoteError>(NoteError::NotFound),
    {
        let key = storage_key(title);
        match self.find_index(&key) {
            Some(i) => {
                proof {
                    lemma_key_unique(self@, key@, i as int);
                }
                Ok(self.notes[i].clone())
            },
            None => Err(NoteError::NotFound),
        }
    }

    /// Writes the record keyed by the note's derived storage key, fully
    /// overwriting any record that shared it.
    pub fn save(&mut self, note: Note)
        requires
            old(self).wf(),
            note@.wf(),
        ensures
            final(self).wf(),
            final(self)@ == save_spec(old(self)@, note@),
    {
        let key = storage_key(note.title.as_str());
        proof {
            lemma_save_inv(self@, note@);
        }
        match self.find_index(&key) {
            Some(i) => {
                proof {
                    lemma_key_unique(self@, key@, i as int);
                }
                self.notes.remove(i);
                self.notes.insert(i, note);
                proof {
                    assert(self@ =~= old(self)@.update(i as int, note@));
                }
            },
            None => {
                self.notes.push(note);
                proof {
                    assert(self@ =~= old(self)@.push(note@));
                }
            },
        }
    }

    /// Creates a note: fails with `AlreadyExists`, changing nothing, when a
    /// record already answers to the title's storage key; otherwise stores a
    /// fresh record whose creation and modification timestamps both read `now`.
    pub fn create(&mut self, title: String, content: String, now: String) -> (r: Result<
        (),
        NoteError,
    >)
        requires
            old(self).wf(),
            title@.len() > 0,
        ensures
            final(self).wf(),
            has_key(old(self)@, key_of(title@)) ==> r == Err::<(), NoteError>(
                NoteError::AlreadyExists,
            ) && final(self)@ == old(self)@,
            !has_key(old(self)@, key_of(title@)) ==> r == Ok::<(), NoteError>(()) && final(self)@
                == old(self)@.push(
                NoteV { title: title@, content: content@, created: now@, modified: now@ },
            ),
    {
        let key = storage_key(title.as_str());
        match self.find_index(&key) {
            Some(i) => {
                proof {
                    lemma_key_unique(self@, key@, i as int);
                }
                Err(NoteError::AlreadyExists)
            },
            None => {
                let note = Note::new(title, content, now);
                self.save(note);
                Ok(())
            },
        }
    }

    /// Replaces the selected note's content and bumps its modification
    /// timestamp to `now` — unless the new content is identical, in which case
    /// nothing changes and `Ok(false)` says so. Fails with `NotFound` when no
    /// record answers to the title's storage key.
    pub fn edit(&mut self, title: &str, edited: String, now: String) -> (r: Result<
        bool,
        NoteError,
    >)
        requires
            old(self).wf(),
            has_key(old(self)@, key_of(title@)) ==> lex_le(
                note_at(old(self)@, key_of(title@)).created,
                now@,
            ),
        ensures
            final(self).wf(),
            !has_key(old(self)@, key_of(title@)) ==> r == Err::<bool, NoteError>(
                NoteError::NotFound,
            ) && final(self)@ == old(self)@,
            has_key(old(self)@, key_of(title@)) && edited@ == note_at(
                old(self)@,
                key_of(title@),
            ).content ==> r == Ok::<bool, NoteError>(false) && final(self)@ == old(self)@,
            has_key(old(self)@, key_of(title@)) && edited@ != note_at(
                old(self)@,
                key_of(title@),
            ).content ==> r == Ok::<bool, NoteError>(true) && final(self)@ == save_spec(
                old(self)@,
                NoteV {
                    title: note_at(old(self)@, key_of(title@)).title,
                    content: edited@,
                    created: note_at(old(self)@, key_of(title@)).created,
                    modified: now@,
                },
            ),
    {
        let key = storage_key(title);
        match self.find_index(&key) {
            Some(i) => {
                proof {
                    lemma_key_unique(self@, key@, i as int);
                }
                if self.notes[i].content == edited {
                    Ok(false)
                } else {
                    let updated = Note {
                        title: self.notes[i].title.clone(),
                        content: edited,
                        creation_date: self.notes[i].creation_date.clone(),
                        modification_date: now,
                    };
                    self.save(updated);
                    Ok(true)
                }
            },
            None => Err(NoteError::NotFound),
        }
    }

    /// Removes the record answering to the title's storage key; reports
    /// `NotFound`, changing nothing, when there is none.
    pub fn delete(&mut self, title: &str) -> (r: Result<(), NoteError>)
        requires
            old(self).wf(),
        ensures
            final(self).wf(),
            has_key(old(self)@, key_of(title@)) ==> r == Ok::<(), NoteError>(()) && final(self)@
                == delete_spec(old(self)@, key_of(title@)),
            !has_key(old(self)@, key_of(title@)) ==> r == Err::<(), NoteError>(NoteError::NotFound)
                && final(self)@ == old(self)@,
    {
        let key = storage_key(title);
        match self.find_index(&key) {
            Some(i) => {
                proof {
                    lemma_key_unique(self@, key@, i as int);
                    lemma_delete_inv(self@, key@);
                }
                self.notes.remove(i);
                proof {
                    assert(self@ =~= old(self)@.remove(i as int));
                }
                Ok(())
            },
            None => Err(NoteError::NotFound),
        }
    }
}

impl NoteStore {
    /// Creates a note timestamped with the current instant: both timestamps
    /// of the fresh record are one and the same non-empty clock reading.
    pub fn create_now(&mut self, title: String, content: String) -> (r: Result<(), NoteError>)
        requires
            old(self).wf(),
            title@.len() > 0,
        ensures
            final(self).wf(),
            has_key(old(self)@, key_of(title@)) ==> r == Err::<(), NoteError>(
                NoteError::AlreadyExists,
            ) && final(self)@ == old(self)@,
            !has_key(old(self)@, key_of(title@)) ==> r == Ok::<(), NoteError>(()) && (exists|
                ts: Seq<char>,
            |
                ts.len() > 0 && final(self)@ == #[trigger] old(self)@.push(
                    NoteV { title: title@, content: content@, created: ts, modified: ts },
                )),
    {
        let now = crate::clock::now_rfc3339();
        let ghost ts = now@;
        let ghost title_v = title@;
        let ghost content_v = content@;
        let r = self.create(title, content, now);
        proof {
            if r is Ok {
                assert(final(self)@ == old(self)@.push(
                    NoteV { title: title_v, content: content_v, created: ts, modified: ts },
                ));
            }
        }
        r
    }

    /// Edits a note against the current instant: on a real change the
    /// modification timestamp becomes the clock reading, clamped so that it
    /// never precedes the creation timestamp; an identical content is a no-op.
    pub fn edit_now(&mut self, title: &str, edited: String) -> (r: Result<bool, NoteError>)
        requires
            old(self).wf(),
        ensures
            final(self).wf(),
            !has_key(old(self)@, key_of(title@)) ==> r == Err::<bool, NoteError>(
                NoteError::NotFound,
            ) && final(self)@ == old(self)@,
            has_key(old(self)@, key_of(title@)) && edited@ == note_at(
                old(self)@,
                key_of(title@),
            ).content ==> r == Ok::<bool, NoteError>(false) && final(self)@ == old(self)@,
            has_key(old(self)@, key_of(title@)) && edited@ != note_at(
                old(self)@,
                key_of(title@),
            ).content ==> r == Ok::<bool, NoteError>(true) && (exists|ts: Seq<char>|
                lex_le(note_at(old(self)@, key_of(title@)).created, ts) && final(self)@
                    == #[trigger] save_spec(
                    old(self)@,
                    NoteV {
                        title: note_at(old(self)@, key_of(title@)).title,
                        content: edited@,
                        created: note_at(old(self)@, key_of(title@)).created,
                        modified: ts,
                    },
                )),
    {
        let loaded = match self.load(title) {
            Ok(n) => n,
            Err(e) => {
                return Err(e);
            },
        };
        let now = crate::clock::now_rfc3339();
        let stamp: String = if crate::text::str_le(loaded.creation_date.as_str(), now.as_str()) {
            now
        } else {
            proof {
                crate::text::lemma_lex_le_refl(loaded@.created);
            }
            loaded.creation_date.clone()
        };
        let ghost ts = stamp@;
        let r = self.edit(title, edited, stamp);
        proof {
            if r == Ok::<bool, NoteError>(true) {
                assert(lex_le(note_at(old(self)@, key_of(title@)).created, ts));
            }
        }
        r
    }
}

/// The views of a run of notes.
pub open spec fn views_of(s: Seq<Note>) -> Seq<NoteV> {
    s.map_values(|n: Note| n@)
}

/// The listing order: most recently modified first.
pub open spec fn sorted_desc(s: Seq<NoteV>) -> bool {
    forall|i: int, j: int|
        #![trigger s[i], s[j]]
        0 <= i <= j < s.len() ==> lex_le(s[j].modified, s[i].modified)
}

impl NoteStore {
    /// Every record, ordered by modification timestamp descending: most
    /// recently modified first.
    pub fn load_all(&self) -> (r: Vec<Note>)
        ensures
            views_of(r@).to_multiset() == self@.to_multiset(),
            sorted_desc(views_of(r@)),
    {
        proof {
            broadcast use vstd::seq_lib::group_to_multiset_ensures;

        }
        let mut out: Vec<Note> = Vec::new();
        proof {
            assert(views_of(out@) =~= Seq::<NoteV>::empty());
            assert(self@.subrange(0, 0) =~= Seq::<NoteV>::empty());
        }
        let mut j: usize = 0;
        while j < self.notes.len()
            invariant
                j <= self.notes.len(),
                self@.len() == self.notes.len(),
                views_of(out@).to_multiset() == self@.subrange(0, j as int).to_multiset(),
                sorted_desc(views_of(out@)),
            decreases self.notes.len() - j,
        {
            let note = self.notes[j].clone();
            let mut p: usize = 0;
            while p < out.len() && str_le(note.modification_date.as_str(),
                out[p].modification_date.as_str())
                invariant
                    p <= out.len(),
                    forall|t: int|
                        0 <= t < p ==> lex_le(note@.modified, #[trigger] out@[t]@.modified),
                decreases out.len() - p,
            {
                p += 1;
            }
            proof {
                lemma_sorted_insert(views_of(out@), p as int, note@);
                assert(views_of(out@.insert(p as int, note)) =~= views_of(out@).insert(
                    p as int,
                    note@,
                ));
                broadcast use vstd::seq_lib::group_to_multiset_ensures;

                assert(self@.subrange(0, j + 1) =~= self@.subrange(0, j as int).push(
                    self@[j as int],
                ));
                assert(note@ == self@[j as int]);
            }
            out.insert(p, note);
            j += 1;
        }
        proof {
            assert(self@.subrange(0, self@.len() as int) =~= self@);
        }
        out
    }
}

/// Inserting a record at the first position whose timestamp is no later keeps
/// the listing sorted.
proof fn lemma_sorted_insert(s: Seq<NoteV>, p: int, n: NoteV)
    requires
        sorted_desc(s),
        0 <= p <= s.len(),
        forall|t: int| 0 <= t < p ==> lex_le(n.modified, #[trigger] s[t].modified),
        p < s.len() ==> !lex_le(n.modified, s[p].modified),
    ensures
        sorted_desc(s.insert(p, n)),
{
    let s2 = s.insert(p, n);
    if p < s.len() {
        crate::text::lemma_lex_le_total(n.modified, s[p].modified);
    }
    assert forall|i: int, j: int|
        #![trigger s2[i], s2[j]]
        0 <= i <= j < s2.len() implies lex_le(s2[j].modified, s2[i].modified) by {
        let i0 = if i < p {
            i
        } else {
            i - 1
        };
        let j0 = if j < p {
            j
        } else {
            j - 1
        };
        if i == p && j == p {
            crate::text::lemma_lex_le_refl(n.modified);
        } else if i == p {
            // n sits above a record that was at or after position p
            assert(s2[j] == s[j0]);
            crate::text::lemma_lex_le_trans(s[j0].modified, s[p].modified, n.modified);
        } else if j == p {
            assert(s2[i] == s[i0]);
        } else {
            assert(s2[i] == s[i0]);
            assert(s2[j] == s[j0]);
        }
    }
}

/// Saving a well-formed note preserves the store invariant.
pub proof fn lemma_save_inv(s: Seq<NoteV>, n: NoteV)
    requires
        store_inv(s),
        n.wf(),
    ensures
        store_inv(save_spec(s, n)),
{
    let k = key_of(n.title);
    if has_key(s, k) {
        let i = index_of_key(s, k);
        let s2 = s.update(i, n);
        assert forall|x: int, y: int| 0 <= x < y < s2.len() implies key_of(#[trigger] s2[x].title)
            != key_of(#[trigger] s2[y].title) by {
            assert(key_of(s[i].title) == k);
            assert(s2[x] == if x == i {
                n
            } else {
                s[x]
            });
            assert(s2[y] == if y == i {
                n
            } else {
                s[y]
            });
        }
    } else {
        let s2 = s.push(n);
        assert forall|x: int, y: int| 0 <= x < y < s2.len() implies key_of(#[trigger] s2[x].title)
            != key_of(#[trigger] s2[y].title) by {
            if y == s.len() {
                assert(s2[x] == s[x]);
                assert(!(0 <= x < s.len() && key_of(s[x].title) == k));
            }
        }
    }
}

/// Saving back exactly the record that a title loads leaves the store as it
/// was, so loading the title again yields the same record: the save/load
/// round trip is idempotent.
pub proof fn lemma_save_load_round_trip(s: Seq<NoteV>, title: Seq<char>)
    requires
        store_inv(s),
        has_key(s, key_of(title)),
    ensures
        save_spec(s, note_at(s, key_of(title))) == s,
{
    let k = key_of(title);
    let i = index_of_key(s, k);
    assert(0 <= i < s.len() && key_of(s[i].title) == k);
    lemma_key_unique(s, key_of(note_at(s, k).title), i);
    assert(s.update(i, s[i]) =~= s);
}

/// After a save, the saved note's storage key is present and loads exactly
/// the record that was saved.
pub proof fn lemma_load_after_save(s: Seq<NoteV>, n: NoteV)
    requires
        store_inv(s),
        n.wf(),
    ensures
        has_key(save_spec(s, n), key_of(n.title)),
        note_at(save_spec(s, n), key_of(n.title)) == n,
{
    lemma_save_inv(s, n);
    let k = key_of(n.title);
    if has_key(s, k) {
        let i = index_of_key(s, k);
        assert(0 <= i < s.len() && key_of(s[i].title) == k);
        lemma_key_unique(s.update(i, n), k, i);
    } else {
        lemma_key_unique(s.push(n), k, s.len() as int);
    }
}

/// After a delete, the deleted storage key is no longer present.
pub proof fn lemma_gone_after_delete(s: Seq<NoteV>, k: Seq<char>)
    requires
        store_inv(s),
        has_key(s, k),
    ensures
        !has_key(delete_spec(s, k), k),
{
    let i = index_of_key(s, k);
    assert(0 <= i < s.len() && key_of(s[i].title) == k);
    let s2 = s.remove(i);
    if has_key(s2, k) {
        let j = index_of_key(s2, k);
        assert(0 <= j < s2.len() && key_of(s2[j].title) == k);
        let j0 = if j < i {
            j
        } else {
            j + 1
        };
        assert(s2[j] == s[j0]);
        lemma_key_unique(s, k, j0);
        assert(false);
    }
}

/// Deleting a record preserves the store invariant.
pub proof fn lemma_delete_inv(s: Seq<NoteV>, k: Seq<char>)
    requires
        store_inv(s),
        has_key(s, k),
    ensures
        store_inv(delete_spec(s, k)),
{
    let i = index_of_key(s, k);
    let s2 = s.remove(i);
    assert forall|x: int, y: int| 0 <= x < y < s2.len() implies key_of(#[trigger] s2[x].title)
        != key_of(#[trigger] s2[y].title) by {
        let x0 = if x < i {
            x
        } else {
            x + 1
        };
        let y0 = if y < i {
            y
        } else {
            y + 1
        };
        assert(s2[x] == s[x0]);
        assert(s2[y] == s[y0]);
    }
}

} // verus!
