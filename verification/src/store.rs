//! The paste store: a table of live entries keyed by a short identifier.
//!
//! Entries are kept in insertion order: the position of an entry in the
//! store's view is its insertion rank, so the entry at index 0 is the oldest
//! and eviction removes a prefix. Mutation goes through `&mut PasteStore`,
//! which serializes writers exactly as a single-connection writer pool would,
//! while any number of shared borrows can read concurrently.
use crate::text::str_eq;
use rand::Rng;
use vstd::prelude::*;

verus! {

/// One live paste: the externally visible id and the stored body.
pub struct Entry {
    pub id: String,
    pub content: String,
}

/// The table of live entries, oldest first.
pub struct PasteStore {
    entries: Vec<Entry>,
}

impl View for PasteStore {
    type V = Seq<(Seq<char>, Seq<char>)>;

    closed spec fn view(&self) -> Seq<(Seq<char>, Seq<char>)> {
        Seq::new(self.entries@.len(), |i: int| (self.entries@[i].id@, self.entries@[i].content@))
    }
}

/// Whether some live entry carries the given id.
pub open spec fn has_id(s: Seq<(Seq<char>, Seq<char>)>, id: Seq<char>) -> bool {
    exists|i: int| 0 <= i < s.len() && s[i].0 == id
}

/// The index of the entry carrying the given id (meaningful when the ids are
/// unique and `has_id` holds).
pub open spec fn id_index(s: Seq<(Seq<char>, Seq<char>)>, id: Seq<char>) -> int {
    choose|i: int| 0 <= i < s.len() && s[i].0 == id
}

/// The content stored under the given id, if any.
pub open spec fn lookup_id(s: Seq<(Seq<char>, Seq<char>)>, id: Seq<char>) -> Option<Seq<char>> {
    if has_id(s, id) {
        Some(s[id_index(s, id)].1)
    } else {
        None
    }
}

/// The table without the entry carrying the given id (unchanged when absent).
pub open spec fn remove_id(s: Seq<(Seq<char>, Seq<char>)>, id: Seq<char>) -> Seq<
    (Seq<char>, Seq<char>),
> {
    if has_id(s, id) {
        s.remove(id_index(s, id))
    } else {
        s
    }
}

/// No two live entries share an id.
pub open spec fn ids_unique(s: Seq<(Seq<char>, Seq<char>)>) -> bool {
    forall|i: int, j: int| 0 <= i < j < s.len() ==> s[i].0 != s[j].0
}

/// In a table with unique ids, an index holding the id is the index `id_index`
/// picks.
pub proof fn lemma_unique_index(s: Seq<(Seq<char>, Seq<char>)>, i: int, id: Seq<char>)
    requires
        ids_unique(s),
        0 <= i < s.len(),
        s[i].0 == id,
    ensures
        has_id(s, id),
        id_index(s, id) == i,
        lookup_id(s, id) == Some(s[i].1),
{
    assert(has_id(s, id));
    let j = id_index(s, id);
    assert(0 <= j < s.len() && s[j].0 == id);
    if i < j {
        assert(false);
    } else if j < i {
        assert(false);
    }
}

/// Appending an entry under a fresh id keeps the ids unique, stores the new
/// content under that id, and leaves every other lookup unchanged.
pub proof fn lemma_push_fresh(s: Seq<(Seq<char>, Seq<char>)>, id: Seq<char>, c: Seq<char>)
    requires
        ids_unique(s),
        !has_id(s, id),
    ensures
        ids_unique(s.push((id, c))),
        lookup_id(s.push((id, c)), id) == Some(c),
        forall|o: Seq<char>| o != id ==> #[trigger] lookup_id(s.push((id, c)), o) == lookup_id(
            s,
            o,
        ),
{
    let t = s.push((id, c));
    assert forall|i: int, j: int| 0 <= i < j < t.len() implies t[i].0 != t[j].0 by {
        if j < s.len() {
            assert(t[i] == s[i] && t[j] == s[j]);
        } else {
            assert(t[j] == (id, c));
            assert(t[i] == s[i]);
        }
    }
    assert(t[s.len() as int] == (id, c));
    lemma_unique_index(t, s.len() as int, id);
    assert forall|o: Seq<char>| o != id implies #[trigger] lookup_id(t, o) == lookup_id(s, o) by {
        if has_id(s, o) {
            let i = id_index(s, o);
            assert(t[i] == s[i]);
            lemma_unique_index(t, i, o);
            lemma_unique_index(s, i, o);
        } else {
            if has_id(t, o) {
                let i = id_index(t, o);
                assert(0 <= i < t.len() && t[i].0 == o);
                if i < s.len() {
                    assert(t[i] == s[i]);
                    assert(has_id(s, o));
                } else {
                    assert(t[i] == (id, c));
                }
                assert(false);
            }
        }
    }
}

/// Removing the entry under one id keeps the ids unique, makes that id
/// absent, and leaves every other lookup unchanged.
pub proof fn lemma_remove_id(s: Seq<(Seq<char>, Seq<char>)>, id: Seq<char>)
    requires
        ids_unique(s),
    ensures
        ids_unique(remove_id(s, id)),
        !has_id(remove_id(s, id), id),
        forall|o: Seq<char>| o != id ==> #[trigger] lookup_id(remove_id(s, id), o) == lookup_id(
            s,
            o,
        ),
        remove_id(s, id).len() == if has_id(s, id) {
            s.len() - 1
        } else {
            s.len() as int
        },
{
    if !has_id(s, id) {
        assert(remove_id(s, id) == s);
    } else {
        let k = id_index(s, id);
        let t = s.remove(k);
        assert(0 <= k < s.len() && s[k].0 == id);
        assert(forall|m: int| 0 <= m < k ==> #[trigger] t[m] == s[m]);
        assert(forall|m: int| k <= m < t.len() ==> #[trigger] t[m] == s[m + 1]);
        assert forall|i: int, j: int| 0 <= i < j < t.len() implies t[i].0 != t[j].0 by {
            let si = if i < k {
                i
            } else {
                i + 1
            };
            let sj = if j < k {
                j
            } else {
                j + 1
            };
            assert(t[i] == s[si] && t[j] == s[sj]);
        }
        assert forall|m: int| 0 <= m < t.len() implies #[trigger] t[m].0 != id by {
            let sm = if m < k {
                m
            } else {
                m + 1
            };
            assert(t[m] == s[sm]);
            if sm != k {
                assert(s[sm].0 != s[k].0);
            }
        }
        assert(!has_id(t, id));
        assert forall|o: Seq<char>| o != id implies #[trigger] lookup_id(t, o) == lookup_id(
            s,
            o,
        ) by {
            if has_id(s, o) {
                let i = id_index(s, o);
                assert(s[i].0 == o);
                assert(i != k);
                let ti = if i < k {
                    i
                } else {
                    i - 1
                };
                assert(t[ti] == s[i]);
                lemma_unique_index(t, ti, o);
                lemma_unique_index(s, i, o);
            } else {
                if has_id(t, o) {
                    let i = id_index(t, o);
                    let si = if i < k {
                        i
                    } else {
                        i + 1
                    };
                    assert(t[i] == s[si]);
                    assert(has_id(s, o));
                    assert(false);
                }
            }
        }
    }
}

/// Evicting a prefix of the table keeps the ids unique and leaves the lookup
/// of every surviving id unchanged; it introduces no id that was absent.
pub proof fn lemma_skip(s: Seq<(Seq<char>, Seq<char>)>, k: int)
    requires
        ids_unique(s),
        0 <= k <= s.len(),
    ensures
        ids_unique(s.skip(k)),
        forall|o: Seq<char>|
            #[trigger] has_id(s.skip(k), o) ==> lookup_id(s.skip(k), o) == lookup_id(s, o),
        forall|o: Seq<char>| !has_id(s, o) ==> !#[trigger] has_id(s.skip(k), o),
{
    let t = s.skip(k);
    assert(forall|m: int| 0 <= m < t.len() ==> #[trigger] t[m] == s[m + k]);
    assert forall|i: int, j: int| 0 <= i < j < t.len() implies t[i].0 != t[j].0 by {
        assert(t[i] == s[i + k] && t[j] == s[j + k]);
    }
    assert forall|o: Seq<char>| #[trigger] has_id(t, o) implies lookup_id(t, o) == lookup_id(
        s,
        o,
    ) by {
        let i = id_index(t, o);
        assert(0 <= i < t.len() && t[i].0 == o);
        assert(t[i] == s[i + k]);
        lemma_unique_index(t, i, o);
        lemma_unique_index(s, i + k, o);
    }
    assert forall|o: Seq<char>| !has_id(s, o) implies !#[trigger] has_id(t, o) by {
        if has_id(t, o) {
            let i = id_index(t, o);
            assert(t[i] == s[i + k]);
            assert(has_id(s, o));
        }
    }
}

impl PasteStore {
    /// The store invariant: all live ids are distinct.
    pub open spec fn inv(&self) -> bool {
        ids_unique(self@)
    }

    /// An empty store; the analogue of creating the backing table.
    pub fn new() -> (r: PasteStore)
        ensures
            r@ == Seq::<(Seq<char>, Seq<char>)>::empty(),
            r.inv(),
    {
        let s = PasteStore { entries: Vec::new() };
        proof {
            assert(s@ =~= Seq::<(Seq<char>, Seq<char>)>::empty());
        }
        s
    }

    /// The number of live entries.
    pub fn len(&self) -> (r: usize)
        ensures
            r == self@.len(),
    {
        self.entries.len()
    }

    fn find_entry(&self, id: &str) -> (r: Option<usize>)
        ensures
            match r {
                Some(i) => i < self@.len() && self@[i as int].0 == id@,
                None => !has_id(self@, id@),
            },
    {
        let n = self.entries.len();
        let mut i: usize = 0;
        while i < n
            invariant
                i <= n,
                n == self@.len(),
                n == self.entries@.len(),
                forall|j: int| 0 <= j < i ==> #[trigger] self@[j].0 != id@,
            decreases n - i,
        {
            if str_eq(self.entries[i].id.as_str(), id) {
                return Some(i);
            }
            i += 1;
        }
        None
    }

    fn insert_or_replace(&mut self, id: &String, content: &String)
        requires
            old(self).inv(),
        ensures
            final(self).inv(),
            final(self)@ == remove_id(old(self)@, id@).push((id@, content@)),
            lookup_id(final(self)@, id@) == Some(content@),
            forall|o: Seq<char>| o != id@ ==> #[trigger] lookup_id(final(self)@, o) == lookup_id(
                old(self)@,
                o,
            ),
    {
        let ghost pre = self@;
        match self.find_entry(id.as_str()) {
            Some(i) => {
                self.entries.remove(i);
                proof {
                    assert(self@ =~= pre.remove(i as int));
                    lemma_unique_index(pre, i as int, id@);
                    assert(self@ == remove_id(pre, id@));
                }
            },
            None => {
                proof {
                    assert(self@ == remove_id(pre, id@));
                }
            },
        }
        proof {
            lemma_remove_id(pre, id@);
        }
        let ghost mid = self@;
        self.entries.push(Entry { id: id.clone(), content: content.clone() });
        proof {
            assert(self@ =~= mid.push((id@, content@)));
            lemma_push_fresh(mid, id@, content@);
        }
    }

    fn evict_to(&mut self, target: usize) -> (removed: usize)
        requires
            old(self).inv(),
        ensures
            final(self).inv(),
            removed == if old(self)@.len() > target {
                old(self)@.len() - target
            } else {
                0
            },
            final(self)@ == old(self)@.skip(removed as int),
            final(self)@.len() <= target,
    {
        let ghost orig = self@;
        let n = self.entries.len();
        proof {
            assert(orig.len() == n);
        }
        let mut removed: usize = 0;
        while self.entries.len() > target
            invariant
                ids_unique(orig),
                removed as int <= orig.len(),
                orig.len() <= usize::MAX,
                removed as int + self@.len() == orig.len(),
                self@ == orig.skip(removed as int),
                self@.len() == self.entries@.len(),
                orig.len() > target ==> removed as int <= orig.len() - target,
                orig.len() <= target ==> removed == 0,
            decreases self.entries@.len(),
        {
            let ghost prev = self@;
            self.entries.remove(0);
            proof {
                assert(self@ =~= prev.skip(1));
                assert(self@ =~= orig.skip(removed as int + 1));
            }
            removed += 1;
        }
        proof {
            lemma_skip(orig, removed as int);
        }
        removed
    }

    fn insert_if_absent(&mut self, id: &String, content: &String) -> (r: bool)
        requires
            old(self).inv(),
        ensures
            final(self).inv(),
            r == !has_id(old(self)@, id@),
            r ==> final(self)@ == old(self)@.push((id@, content@)),
            !r ==> final(self)@ == old(self)@,
    {
        match self.find_entry(id.as_str()) {
            Some(_) => false,
            None => {
                let ghost pre = self@;
                self.entries.push(Entry { id: id.clone(), content: content.clone() });
                proof {
                    assert(self@ =~= pre.push((id@, content@)));
                    lemma_push_fresh(pre, id@, content@);
                }
                true
            },
        }
    }
}

/// The identifier alphabet: visually ambiguous characters (0/o, 1/i/l, u/v)
/// are left out to reduce transcription errors.
pub open spec fn id_alphabet() -> Seq<char> {
    "abcdefghjkmnpqrstwxyz23456789"@
}

/// A well-formed identifier of the given length: every character is drawn
/// from the identifier alphabet.
pub open spec fn is_id_string(s: Seq<char>, len: int) -> bool {
    s.len() == len && forall|i: int| 0 <= i < s.len() ==> id_alphabet().contains(#[trigger] s[i])
}

/// Relies on rand::thread_rng and rand::Rng::gen_range: a draw from a
/// non-empty range lies below its upper bound. Nothing more is assumed of a
/// random value.
#[verifier::external_body]
fn random_below(bound: usize) -> (r: usize)
    requires
        1 <= bound,
    ensures
        r < bound,
{
    rand::thread_rng().gen_range(0..bound)
}

/// Generates a random identifier of exactly `length` characters, each drawn
/// independently from the identifier alphabet. The generator promises no
/// uniqueness: collision handling is the write path's job.
pub fn generate_id(length: usize) -> (r: String)
    ensures
        is_id_string(r@, length as int),
{
    let chars = "abcdefghjkmnpqrstwxyz23456789";
    proof {
        reveal_strlit("abcdefghjkmnpqrstwxyz23456789");
        assert(chars@.len() == 29);
    }
    let mut r = String::new();
    let mut i: usize = 0;
    while i < length
        invariant
            i <= length,
            r@.len() == i,
            chars@ == id_alphabet(),
            chars@.len() == 29,
            forall|j: int| 0 <= j < i ==> id_alphabet().contains(#[trigger] r@[j]),
        decreases length - i,
    {
        let idx = random_below(29);
        let c = chars.substring_char(idx, idx + 1);
        proof {
            assert(c@ =~= seq![chars@[idx as int]]);
            assert(id_alphabet().contains(chars@[idx as int]));
        }
        r.append(c);
        i += 1;
    }
    r
}

/// The error a mutating operation can report: the targeted id holds no live
/// entry. (The in-process table itself cannot fail.)
#[derive(Clone, Copy, Debug, PartialEq, Eq)]
pub enum IOError {
    NotFound,
}

/// Deletes the paste stored under exactly this id.
///
/// Absence is an error here, never silent success: when no live entry has the
/// id, the store is untouched and `NotFound` comes back. Every other lookup
/// is unchanged either way.
pub fn delete_paste(store: &mut PasteStore, id: String) -> (r: Result<String, IOError>)
    requires
        old(store).inv(),
    ensures
        final(store).inv(),
        has_id(old(store)@, id@) ==> r is Ok && r->Ok_0@ == id@ && final(store)@ == remove_id(
            old(store)@,
            id@,
        ),
        !has_id(old(store)@, id@) ==> r == Err::<String, IOError>(IOError::NotFound)
            && final(store)@ == old(store)@,
        !has_id(final(store)@, id@),
        forall|o: Seq<char>| o != id@ ==> #[trigger] lookup_id(final(store)@, o) == lookup_id(
            old(store)@,
            o,
        ),
{
    let ghost pre = store@;
    match store.find_entry(id.as_str()) {
        Some(i) => {
            store.entries.remove(i);
            proof {
                assert(store@ =~= pre.remove(i as int));
                lemma_unique_index(pre, i as int, id@);
                assert(store@ == remove_id(pre, id@));
                lemma_remove_id(pre, id@);
            }
            Ok(id)
        },
        None => {
            proof {
                lemma_remove_id(pre, id@);
            }
            Err(IOError::NotFound)
        },
    }
}

/// Evicts the oldest entries until at most `max_entries` are live, and
/// reports how many were removed. A bound at or below zero clears the store.
///
/// Exactly `max(live_count - max_entries, 0)` entries go, those with the
/// lowest insertion ranks: eviction is FIFO in creation order, and reads
/// never refresh an entry's rank.
pub fn remove_old(store: &mut PasteStore, max_entries: i32) -> (r: Result<u64, IOError>)
    requires
        old(store).inv(),
    ensures
        final(store).inv(),
        r is Ok,
        ({
            let target = if max_entries >= 0 {
                max_entries as int
            } else {
                0
            };
            let excess = if old(store)@.len() > target {
                old(store)@.len() - target
            } else {
                0
            };
            r->Ok_0 == excess && final(store)@ == old(store)@.skip(excess) && final(store)@.len()
                <= target
        }),
{
    let target: usize = if max_entries >= 0 {
        max_entries as usize
    } else {
        0
    };
    let removed = store.evict_to(target);
    Ok(removed as u64)
}

/// Stores a paste under the caller-supplied id, replacing any live entry
/// with that id: explicit overwrite semantics, with no collision handling
/// and no capacity enforcement. It never fails, and the replaced-or-new
/// entry's insertion rank is reset to newest.
pub fn store_paste_given_id(store: &mut PasteStore, id: String, content: String) -> (r: Result<
    String,
    IOError,
>)
    requires
        old(store).inv(),
    ensures
        final(store).inv(),
        r is Ok && r->Ok_0@ == id@,
        final(store)@ == remove_id(old(store)@, id@).push((id@, content@)),
        lookup_id(final(store)@, id@) == Some(content@),
        forall|o: Seq<char>| o != id@ ==> #[trigger] lookup_id(final(store)@, o) == lookup_id(
            old(store)@,
            o,
        ),
{
    store.insert_or_replace(&id, &content);
    Ok(id)
}

/// How many fresh identifiers the write path draws after a collision before
/// falling back to an unconditional insert-or-replace.
pub const STORE_MAX_RETRIES: usize = 20;

/// How many of the oldest entries a `store_paste` call evicts: exactly as
/// many as stand above `max_entries - 1` (the one slot is for the insertion
/// in flight).
pub open spec fn store_evicted(s: Seq<(Seq<char>, Seq<char>)>, max_entries: i32) -> int {
    if s.len() > max_entries - 1 {
        s.len() - (max_entries - 1)
    } else {
        0
    }
}

/// Stores a paste under a fresh random id and returns that id. It never
/// fails.
///
/// Capacity is enforced at the start of every call: the oldest entries are
/// evicted until at most `max_entries - 1` remain (one insertion is in
/// flight), so the call returns with at most `max_entries` live entries even
/// when the store began above capacity. A collision of the candidate id with
/// a live entry is not an error: the path retries with fresh ids, a bounded
/// number of times, and as a last resort inserts unconditionally, accepting
/// that this may replace the colliding entry.
///
/// The final store is some suffix of the old entries (the survivors of the
/// FIFO eviction), minus at most the one entry a last-resort insert
/// replaced, plus the new entry as the newest.
pub fn store_paste(
    store: &mut PasteStore,
    id_length: usize,
    max_entries: i32,
    content: String,
) -> (r: Result<String, IOError>)
    requires
        old(store).inv(),
        1 <= max_entries,
    ensures
        final(store).inv(),
        r is Ok,
        is_id_string(r->Ok_0@, id_length as int),
        lookup_id(final(store)@, r->Ok_0@) == Some(content@),
        final(store)@.len() <= max_entries as int,
        final(store)@ == remove_id(old(store)@.skip(store_evicted(old(store)@, max_entries)), r->Ok_0@)
            .push((r->Ok_0@, content@)),
{
    let ghost orig = store@;
    let target: usize = (max_entries - 1) as usize;
    let evicted = store.evict_to(target);
    let ghost kept = store@;
    proof {
        assert(kept == orig.skip(evicted as int));
        assert(evicted as int == store_evicted(orig, max_entries));
    }
    let id = generate_id(id_length);
    if store.insert_if_absent(&id, &content) {
        proof {
            assert(remove_id(kept, id@) == kept);
            lemma_push_fresh(kept, id@, content@);
        }
        return Ok(id);
    }
    // The candidate id collided with a live entry: capacity is already
    // enforced, so retry with fresh ids only.
    let mut retries: usize = 0;
    while retries < STORE_MAX_RETRIES
        invariant
            store.inv(),
            store@ == kept,
            kept.len() <= target,
            0 <= evicted as int <= orig.len(),
            orig == old(store)@,
            kept == orig.skip(evicted as int),
            evicted as int == store_evicted(orig, max_entries),
            target as int == max_entries - 1,
        decreases STORE_MAX_RETRIES - retries,
    {
        let id2 = generate_id(id_length);
        if store.insert_if_absent(&id2, &content) {
            proof {
                assert(remove_id(kept, id2@) == kept);
                lemma_push_fresh(kept, id2@, content@);
            }
            return Ok(id2);
        }
        retries += 1;
    }
    // Last resort: insert unconditionally, replacing a colliding entry if
    // one is still in the way.
    let id3 = generate_id(id_length);
    store.insert_or_replace(&id3, &content);
    proof {
        lemma_remove_id(kept, id3@);
    }
    Ok(id3)
}

/// Looks a paste up by exact id. Absence is `None`, never an error, and the
/// store is not touched: a failed `get` after deletion or eviction reports
/// absent.
pub fn get_paste(store: &PasteStore, id: &str) -> (r: Result<Option<String>, IOError>)
    requires
        store.inv(),
    ensures
        r is Ok,
        lookup_id(store@, id@) is Some <==> r->Ok_0 is Some,
        r->Ok_0 is Some ==> r->Ok_0->Some_0@ == lookup_id(store@, id@)->Some_0,
{
    match store.find_entry(id) {
        Some(i) => {
            proof {
                lemma_unique_index(store@, i as int, id@);
            }
            Ok(Some(store.entries[i].content.clone()))
        },
        None => Ok(None),
    }
}

/// Uniqueness: in a well-formed store no two live entries share an id, at
/// any two distinct positions. Every mutating operation of this module
/// establishes `inv` on the store it leaves behind, so the property holds at
/// every point between operations, however the serialized writers interleave.
pub proof fn lemma_uniqueness(s: Seq<(Seq<char>, Seq<char>)>, i: int, j: int)
    requires
        ids_unique(s),
        0 <= i < s.len(),
        0 <= j < s.len(),
        i != j,
    ensures
        s[i].0 != s[j].0,
{
}

/// Round-trip persistence across writes: storing under one id leaves the
/// lookup of every other id exactly as it was. Together with `lemma_skip`
/// (eviction keeps every surviving lookup) this says a stored entry reads
/// back byte-for-byte until it is deleted, overwritten or evicted.
pub proof fn lemma_store_frame(
    base: Seq<(Seq<char>, Seq<char>)>,
    new_id: Seq<char>,
    c: Seq<char>,
    o: Seq<char>,
)
    requires
        ids_unique(base),
        o != new_id,
    ensures
        lookup_id(remove_id(base, new_id).push((new_id, c)), o) == lookup_id(base, o),
{
    lemma_remove_id(base, new_id);
    lemma_push_fresh(remove_id(base, new_id), new_id, c);
}

/// Returns every live entry as an (id, content) pair, oldest first.
pub fn get_all_paste(store: &PasteStore) -> (r: Vec<(String, String)>)
    ensures
        r@.len() == store@.len(),
        forall|i: int|
            0 <= i < r@.len() ==> (#[trigger] r@[i]).0@ == store@[i].0 && r@[i].1@ == store@[i].1,
{
    let n = store.entries.len();
    let mut r: Vec<(String, String)> = Vec::new();
    let mut i: usize = 0;
    while i < n
        invariant
            i <= n,
            n == store@.len(),
            n == store.entries@.len(),
            r@.len() == i,
            forall|j: int|
                0 <= j < i ==> (#[trigger] r@[j]).0@ == store@[j].0 && r@[j].1@ == store@[j].1,
        decreases n - i,
    {
        r.push((store.entries[i].id.clone(), store.entries[i].content.clone()));
        i += 1;
    }
    r
}

} // verus!
