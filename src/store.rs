use vstd::prelude::*;
use vstd::set_lib::lemma_len_subset;

use crate::ident::{all_url_safe, random_id, ID_LEN};
use crate::paste::{Paste, PasteError, PasteModel};

verus! {

/// The most pastes a store will hold. No machine has the memory for this
/// many, so the bound never turns a paste away in practice; it keeps the
/// length of a widened identifier within what the generator accepts.
pub const MAX_PASTES: usize = usize::MAX / 16;

/// What a structured fetch of `id` from a store holding `m` yields.
pub open spec fn fetch(m: Map<Seq<char>, PasteModel>, id: Seq<char>) -> Option<PasteModel> {
    if m.contains_key(id) {
        Some(m[id])
    } else {
        None
    }
}

/// What a raw-text fetch of `id` from a store holding `m` yields.
pub open spec fn fetch_raw(m: Map<Seq<char>, PasteModel>, id: Seq<char>) -> Option<Seq<char>> {
    if m.contains_key(id) {
        Some(m[id].text)
    } else {
        None
    }
}

/// How many identifiers stored in `m` have at least `len` characters.
pub open spec fn ids_at_least(m: Map<Seq<char>, PasteModel>, len: nat) -> nat {
    m.dom().filter(|k: Seq<char>| k.len() >= len).len()
}

/// A stored identifier of exactly `len` characters leaves fewer stored
/// identifiers of at least `len + 1` characters than of at least `len`.
proof fn lemma_collision_shrinks(m: Map<Seq<char>, PasteModel>, id: Seq<char>, len: nat)
    requires
        m.dom().finite(),
        m.contains_key(id),
        id.len() == len,
    ensures
        ids_at_least(m, len + 1) < ids_at_least(m, len),
{
    let longer = m.dom().filter(|k: Seq<char>| k.len() >= len + 1);
    let at_least = m.dom().filter(|k: Seq<char>| k.len() >= len);
    m.dom().lemma_len_filter(|k: Seq<char>| k.len() >= len);
    assert(at_least.contains(id));
    assert(longer.subset_of(at_least.remove(id)));
    lemma_len_subset(longer, at_least.remove(id));
}

/// One stored paste with its identifier.
struct Entry {
    id: String,
    paste: Paste,
}

/// All pastes of the process, keyed by identifiers that the store drew
/// itself. Entries are only ever added: none is removed or replaced.
///
/// Its view maps each identifier to the paste stored under it. Sharing a
/// store between tasks is left to the caller, behind a reader-writer lock:
/// reads take `&self`, an insertion takes `&mut self`.
pub struct PasteStore {
    entries: Vec<Entry>,
    model: Ghost<Map<Seq<char>, PasteModel>>,
}

impl View for PasteStore {
    type V = Map<Seq<char>, PasteModel>;

    closed spec fn view(&self) -> Map<Seq<char>, PasteModel> {
        self.model@
    }
}

impl PasteStore {
    /// The entries hold exactly the view, one entry per identifier.
    pub closed spec fn wf(&self) -> bool {
        &&& self.model@.dom().finite()
        &&& self.model@.len() == self.entries@.len()
        &&& forall|i: int|
            0 <= i < self.entries@.len() ==> {
                &&& self.model@.contains_key(#[trigger] self.entries@[i].id@)
                &&& self.model@[self.entries@[i].id@] == self.entries@[i].paste@
            }
        &&& forall|i: int, j: int|
            0 <= i < j < self.entries@.len() ==> #[trigger] self.entries@[i].id@
                != #[trigger] self.entries@[j].id@
        &&& forall|k: Seq<char>|
            #[trigger] self.model@.contains_key(k) ==> exists|i: int|
                0 <= i < self.entries@.len() && #[trigger] self.entries@[i].id@ == k
    }

    /// An empty store.
    pub fn new() -> (r: PasteStore)
        ensures
            r.wf(),
            r@ == Map::<Seq<char>, PasteModel>::empty(),
    {
        PasteStore { entries: Vec::new(), model: Ghost(Map::empty()) }
    }

    /// The number of stored pastes.
    pub fn len(&self) -> (r: usize)
        requires
            self.wf(),
        ensures
            r == self@.len(),
    {
        self.entries.len()
    }

    /// The position of the entry stored under `id`, if there is one.
    fn find(&self, id: &String) -> (r: Option<usize>)
        requires
            self.wf(),
        ensures
            match r {
                Some(i) => i < self.entries@.len() && self.entries@[i as int].id@ == id@,
                None => !self@.contains_key(id@),
            },
    {
        let mut i: usize = 0;
        while i < self.entries.len()
            invariant
                self.wf(),
                i <= self.entries@.len(),
                forall|j: int| 0 <= j < i ==> #[trigger] self.entries@[j].id@ != id@,
            decreases self.entries@.len() - i,
        {
            if self.entries[i].id == *id {
                return Some(i);
            }
            i = i + 1;
        }
        None
    }

    /// Whether a paste is stored under `id`.
    pub fn contains(&self, id: &str) -> (r: bool)
        requires
            self.wf(),
        ensures
            r == self@.contains_key(id@),
    {
        let key = id.to_owned();
        match self.find(&key) {
            Some(_) => true,
            None => false,
        }
    }

    /// The paste stored under `id`, or `NotFound`.
    pub fn get(&self, id: &str) -> (r: Result<Paste, PasteError>)
        requires
            self.wf(),
        ensures
            match r {
                Ok(p) => fetch(self@, id@) == Some(p@),
                Err(e) => fetch(self@, id@) == None::<PasteModel> && e == PasteError::NotFound,
            },
    {
        let key = id.to_owned();
        match self.find(&key) {
            Some(i) => Ok(self.entries[i].paste.duplicate()),
            None => Err(PasteError::NotFound),
        }
    }

    /// The text of the paste stored under `id`, and nothing else, or `NotFound`.
    pub fn raw(&self, id: &str) -> (r: Result<String, PasteError>)
        requires
            self.wf(),
        ensures
            match r {
                Ok(t) => fetch_raw(self@, id@) == Some(t@),
                Err(e) => fetch_raw(self@, id@) == None::<Seq<char>> && e == PasteError::NotFound,
            },
    {
        let key = id.to_owned();
        match self.find(&key) {
            Some(i) => Ok(self.entries[i].paste.text.clone()),
            None => Err(PasteError::NotFound),
        }
    }

    /// Draws a fresh identifier, stores `paste` under it and returns it.
    ///
    /// The identifier is drawn at `ID_LEN` characters. Should it match one
    /// already stored, it is drawn again one character longer, so no paste is
    /// ever overwritten, and the drawing ends: each retry leaves fewer stored
    /// identifiers as long as the next one drawn.
    pub fn insert(&mut self, paste: Paste) -> (r: String)
        requires
            old(self).wf(),
            old(self)@.len() < MAX_PASTES,
        ensures
            final(self).wf(),
            !old(self)@.contains_key(r@),
            final(self)@ == old(self)@.insert(r@, paste@),
            ID_LEN <= r@.len() <= ID_LEN + old(self)@.len(),
            all_url_safe(r@),
    {
        let ghost m = self@;
        let mut size: usize = ID_LEN;
        proof {
            m.dom().lemma_len_filter(|k: Seq<char>| k.len() >= ID_LEN as nat);
        }
        loop
            invariant
                self.wf(),
                self@ == m,
                m == old(self)@,
                m.len() < MAX_PASTES,
                ID_LEN <= size,
                (size - ID_LEN) + ids_at_least(m, size as nat) <= m.len(),
            decreases ids_at_least(m, size as nat),
        {
            let id = random_id(size);
            if !self.contains(id.as_str()) {
                let stored = self.insert_with_id(id.clone(), paste);
                assert(stored);
                return id;
            }
            proof {
                lemma_collision_shrinks(m, id@, size as nat);
            }
            size = size + 1;
        }
    }

    /// Stores `paste` under `id` if no paste is stored there yet; otherwise
    /// leaves the store as it was. Returns whether it stored the paste.
    pub fn insert_with_id(&mut self, id: String, paste: Paste) -> (r: bool)
        requires
            old(self).wf(),
        ensures
            final(self).wf(),
            r == !old(self)@.contains_key(id@),
            r ==> final(self)@ == old(self)@.insert(id@, paste@),
            !r ==> final(self)@ == old(self)@,
    {
        if self.find(&id).is_some() {
            return false;
        }
        proof {
            assert(!self.model@.dom().contains(id@));
        }
        let ghost key = id@;
        let ghost value = paste@;
        self.model = Ghost(self.model@.insert(key, value));
        self.entries.push(Entry { id, paste });
        assert forall|k: Seq<char>| #[trigger] self.model@.contains_key(k) implies exists|i: int|
            0 <= i < self.entries@.len() && #[trigger] self.entries@[i].id@ == k by {
            if k != key {
                let i = choose|i: int| 0 <= i < old(self).entries@.len() && #[trigger] old(self).entries@[i].id@ == k;
                assert(self.entries@[i] == old(self).entries@[i]);
            } else {
                assert(self.entries@[self.entries@.len() - 1].id@ == k);
            }
        }
        true
    }
}

} // verus!
