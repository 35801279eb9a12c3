//! The array heap: variable-length arrays of 32-bit words, each keyed by a
//! 32-bit identifier. Identifier 0 is reserved for the program array and is
//! always live. Abandoned identifiers go onto a free list and the newest
//! abandoned one is reused first, so the identifier space grows only with
//! the peak number of live arrays.

use vstd::prelude::*;

verus! {

/// A sequence of `n` zero words: the contents of a fresh array.
pub open spec fn zero_words(n: nat) -> Seq<u32> {
    Seq::new(n, |_i: int| 0u32)
}

/// A growable array of items: the storage for one heap array.
pub struct Collection<T> {
    items: Vec<T>,
}

impl<T> View for Collection<T> {
    type V = Seq<T>;

    closed spec fn view(&self) -> Seq<T> {
        self.items@
    }
}

impl<T: Copy> Collection<T> {
    pub fn new() -> (r: Self)
        ensures
            r@ == Seq::<T>::empty(),
    {
        Collection { items: Vec::new() }
    }

    pub fn from_vec(items: Vec<T>) -> (r: Self)
        ensures
            r@ == items@,
    {
        Collection { items }
    }

    pub fn len(&self) -> (n: usize)
        ensures
            n == self@.len(),
    {
        self.items.len()
    }

    pub fn get(&self, i: usize) -> (r: T)
        requires
            i < self@.len(),
        ensures
            r == self@[i as int],
    {
        self.items[i]
    }

    pub fn set(&mut self, i: usize, v: T)
        requires
            i < old(self)@.len(),
        ensures
            final(self)@ == old(self)@.update(i as int, v),
    {
        self.items.set(i, v);
    }

    pub fn push(&mut self, v: T)
        ensures
            final(self)@ == old(self)@.push(v),
    {
        self.items.push(v);
    }

    /// Grows with copies of `fill`, or shrinks, to exactly `new_len` items;
    /// items below the old and new lengths keep their values.
    pub fn resize(&mut self, new_len: usize, fill: T)
        ensures
            final(self)@.len() == new_len,
            forall|i: int|
                0 <= i < new_len && i < old(self)@.len() ==> final(self)@[i] == old(self)@[i],
            forall|i: int| old(self)@.len() <= i < new_len ==> final(self)@[i] == fill,
    {
        proof {
            assert(self.items@ =~= old(self)@.subrange(0, self.items@.len() as int));
        }
        while self.items.len() > new_len
            invariant
                self.items@.len() <= old(self)@.len(),
                self.items@ == old(self)@.subrange(0, self.items@.len() as int),
                self.items@.len() >= new_len || self.items@.len() == old(self)@.len(),
            decreases self.items@.len(),
        {
            let _ = self.items.pop();
            proof {
                assert(self.items@ =~= old(self)@.subrange(0, self.items@.len() as int));
            }
        }
        while self.items.len() < new_len
            invariant
                self.items@.len() <= new_len,
                self.items@.len() >= new_len || self.items@.len() >= old(self)@.len(),
                forall|i: int|
                    0 <= i < self.items@.len() && i < old(self)@.len() ==> self.items@[i] == old(
                        self,
                    )@[i],
                forall|i: int| old(self)@.len() <= i < self.items@.len() ==> self.items@[i] == fill,
            decreases new_len - self.items@.len(),
        {
            self.items.push(fill);
        }
    }

    /// An independent copy with the same items.
    pub fn duplicate(&self) -> (r: Self)
        ensures
            r@ == self@,
    {
        let mut items: Vec<T> = Vec::new();
        let mut k: usize = 0;
        while k < self.items.len()
            invariant
                k <= self.items@.len(),
                items@ == self.items@.subrange(0, k as int),
            decreases self.items@.len() - k,
        {
            items.push(self.items[k]);
            k = k + 1;
            proof {
                assert(items@ =~= self.items@.subrange(0, k as int));
            }
        }
        proof {
            assert(items@ =~= self.items@);
        }
        Collection { items }
    }

    /// The items as a plain vector.
    pub fn to_vec(&self) -> (r: Vec<T>)
        ensures
            r@ == self@,
    {
        let c = self.duplicate();
        c.items
    }
}

/// A 32-bit array identifier.
#[derive(Clone, Copy, PartialEq, Eq, Structural, Debug)]
pub struct MemoryAddress(pub u32);

/// The heap as mathematics: the slot table, where slot `i` holds the words
/// of the array identified by `i` while that identifier is live, and the
/// free list of abandoned identifiers, newest last.
#[verifier::ext_equal]
pub struct MemModel {
    pub slots: Seq<Option<Seq<u32>>>,
    pub free: Seq<u32>,
}

impl MemModel {
    /// How many identifiers have ever been issued (live or abandoned),
    /// counting identifier 0.
    pub open spec fn slot_count(self) -> nat {
        self.slots.len()
    }

    /// Whether `id` currently names an array.
    pub open spec fn live(self, id: u32) -> bool {
        id < self.slots.len() && self.slots[id as int] is Some
    }

    /// The words of the array named by `id`; meaningful while `id` is live.
    pub open spec fn words(self, id: u32) -> Seq<u32> {
        self.slots[id as int].unwrap()
    }

    /// The heap as a map from live identifiers to their words: what the
    /// hosted program can observe.
    pub open spec fn heap(self) -> Map<u32, Seq<u32>> {
        Map::new(|id: u32| self.live(id), |id: u32| self.words(id))
    }

    /// The identifier the next allocation will issue: the newest abandoned
    /// one, or a brand-new one when none is abandoned.
    pub open spec fn alloc_pick(self) -> u32 {
        if self.free.len() > 0 {
            self.free.last()
        } else {
            self.slots.len() as u32
        }
    }

    /// Whether an allocation can issue an identifier at all; false only
    /// when all 2^32 identifiers are live at once.
    pub open spec fn can_allocate(self) -> bool {
        self.free.len() > 0 || self.slots.len() < 0x1_0000_0000
    }

    /// The heap's invariant: identifier 0 is live; the free list holds
    /// exactly the non-zero abandoned slots, each at most once.
    pub open spec fn wf(self) -> bool {
        &&& 1 <= self.slots.len() <= 0x1_0000_0000
        &&& self.live(0)
        &&& (forall|i: int|
            0 <= i < self.free.len() ==> 0 < #[trigger] self.free[i] && self.free[i]
                < self.slots.len() && self.slots[self.free[i] as int] is None)
        &&& (forall|i: int, j: int|
            0 <= i < j < self.free.len() ==> self.free[i] != self.free[j])
        &&& (forall|k: int|
            0 < k < self.slots.len() && #[trigger] self.slots[k] is None ==> self.free.contains(
                k as u32,
            ))
    }

    /// The heap after an allocation of `size` words: the picked identifier
    /// leaves the free list (or a new slot is added) and its slot holds
    /// `size` zero words.
    pub open spec fn after_alloc(self, size: nat) -> (MemModel, u32) {
        if self.free.len() > 0 {
            let id = self.free.last();
            (
                MemModel {
                    slots: self.slots.update(id as int, Some(zero_words(size))),
                    free: self.free.drop_last(),
                },
                id,
            )
        } else {
            (
                MemModel { slots: self.slots.push(Some(zero_words(size))), free: self.free },
                self.slots.len() as u32,
            )
        }
    }

    /// The heap after `id` is abandoned: its slot is cleared and `id`
    /// becomes the newest free-list entry.
    pub open spec fn after_free(self, id: u32) -> MemModel {
        MemModel { slots: self.slots.update(id as int, None), free: self.free.push(id) }
    }

    /// The heap after one word of the array named by `id` is changed.
    pub open spec fn after_write(self, id: u32, off: int, v: u32) -> MemModel {
        MemModel {
            slots: self.slots.update(id as int, Some(self.words(id).update(off, v))),
            free: self.free,
        }
    }

    /// The heap after array 0's contents are replaced wholesale.
    pub open spec fn after_install(self, ws: Seq<u32>) -> MemModel {
        MemModel { slots: self.slots.update(0, Some(ws)), free: self.free }
    }
}

/// The heap the machine starts with: only identifier 0, naming an empty
/// array, and nothing abandoned yet.
pub open spec fn initial_mem() -> MemModel {
    MemModel { slots: seq![Some(Seq::<u32>::empty())], free: Seq::<u32>::empty() }
}

/// Allocation issues a fresh identifier — never 0, never a live one — whose
/// array holds exactly the requested number of zero words, and touches no
/// other array. The identifier issued is always `alloc_pick`, so the choice
/// is deterministic.
pub proof fn lemma_alloc_properties(m: MemModel, size: nat)
    requires
        m.wf(),
        m.can_allocate(),
    ensures
        ({
            let (m2, id) = m.after_alloc(size);
            &&& m2.wf()
            &&& id == m.alloc_pick()
            &&& id != 0
            &&& !m.live(id)
            &&& m2.live(id)
            &&& m2.words(id) == zero_words(size)
            &&& m2.free.len() <= m.free.len()
            &&& m2.slot_count() == if m.free.len() > 0 {
                m.slot_count()
            } else {
                m.slot_count() + 1
            }
            &&& (forall|j: u32| j != id ==> (#[trigger] m2.live(j) <==> m.live(j)))
            &&& (forall|j: u32| j != id && m.live(j) ==> #[trigger] m2.words(j) == m.words(j))
        }),
{
    let (m2, id) = m.after_alloc(size);
    if m.free.len() > 0 {
        assert(m.free[m.free.len() - 1] == id);
        assert(forall|i: int|
            0 <= i < m2.free.len() ==> #[trigger] m2.free[i] == m.free[i]);
        assert forall|k: int|
            0 < k < m2.slots.len() && #[trigger] m2.slots[k] is None implies m2.free.contains(
            k as u32,
        ) by {
            assert(k != id as int);
            assert(m.slots[k] is None);
            assert(m.free.contains(k as u32));
            let w = choose|w: int| 0 <= w < m.free.len() && m.free[w] == k as u32;
            assert(w != m.free.len() - 1);
            assert(m2.free[w] == k as u32);
        }
    } else {
        assert(id == m.slots.len() as u32);
        assert(!m.live(id));
        assert forall|k: int|
            0 < k < m2.slots.len() && #[trigger] m2.slots[k] is None implies m2.free.contains(
            k as u32,
        ) by {
            assert(k < m.slots.len() && m.slots[k] is None);
        }
    }
}

/// Abandoning a live, non-zero identifier removes exactly that array: the
/// identifier stops being live, every other array is untouched, and the
/// abandoned identifier becomes the next allocation's pick.
pub proof fn lemma_free_properties(m: MemModel, id: u32)
    requires
        m.wf(),
        m.live(id),
        id != 0,
    ensures
        ({
            let m2 = m.after_free(id);
            &&& m2.wf()
            &&& !m2.live(id)
            &&& m2.alloc_pick() == id
            &&& (forall|j: u32| j != id ==> (#[trigger] m2.live(j) <==> m.live(j)))
            &&& (forall|j: u32| j != id && m.live(j) ==> #[trigger] m2.words(j) == m.words(j))
        }),
{
    let m2 = m.after_free(id);
    assert(forall|i: int| 0 <= i < m.free.len() ==> #[trigger] m2.free[i] == m.free[i]);
    assert(m2.free[m.free.len() as int] == id);
    assert forall|i: int| 0 <= i < m.free.len() implies #[trigger] m.free[i] != id by {
        assert(m.slots[m.free[i] as int] is None);
        assert(m.slots[id as int] is Some);
    }
    assert forall|k: int|
        0 < k < m2.slots.len() && #[trigger] m2.slots[k] is None implies m2.free.contains(k as u32)
    by {
        if k == id as int {
            assert(m2.free[m.free.len() as int] == k as u32);
        } else {
            assert(m.slots[k] is None);
            assert(m.free.contains(k as u32));
            let w = choose|w: int| 0 <= w < m.free.len() && m.free[w] == k as u32;
            assert(m2.free[w] == k as u32);
        }
    }
}

/// Changing one word of a live array changes nothing else: no liveness, no
/// other array, and — the point — no array's length.
pub proof fn lemma_write_properties(m: MemModel, id: u32, off: int, v: u32)
    requires
        m.wf(),
        m.live(id),
        0 <= off < m.words(id).len(),
    ensures
        ({
            let m2 = m.after_write(id, off, v);
            &&& m2.wf()
            &&& m2.free == m.free
            &&& (forall|j: u32| #[trigger] m2.live(j) <==> m.live(j))
            &&& m2.words(id) == m.words(id).update(off, v)
            &&& m2.words(id).len() == m.words(id).len()
            &&& (forall|j: u32| j != id && m.live(j) ==> #[trigger] m2.words(j) == m.words(j))
        }),
{
    let m2 = m.after_write(id, off, v);
    assert forall|k: int|
        0 < k < m2.slots.len() && #[trigger] m2.slots[k] is None implies m2.free.contains(k as u32)
    by {
        assert(m.slots[k] is None);
    }
}

/// Replacing array 0's contents touches no other array and no liveness.
pub proof fn lemma_install_properties(m: MemModel, ws: Seq<u32>)
    requires
        m.wf(),
    ensures
        ({
            let m2 = m.after_install(ws);
            &&& m2.wf()
            &&& m2.free == m.free
            &&& (forall|j: u32| #[trigger] m2.live(j) <==> m.live(j))
            &&& m2.words(0) == ws
            &&& (forall|j: u32| j != 0 && m.live(j) ==> #[trigger] m2.words(j) == m.words(j))
        }),
{
    let m2 = m.after_install(ws);
    assert forall|k: int|
        0 < k < m2.slots.len() && #[trigger] m2.slots[k] is None implies m2.free.contains(k as u32)
    by {
        assert(m.slots[k] is None);
    }
}

/// Identifier 0 is live in every well-formed heap.
pub proof fn lemma_array_zero_live(m: MemModel)
    requires
        m.wf(),
    ensures
        m.live(0),
{
}

/// A fresh identifier collides with no live identifier and is never 0, so
/// live identifiers stay pairwise distinct names.
pub proof fn lemma_alloc_fresh(m: MemModel, size: nat)
    requires
        m.wf(),
        m.can_allocate(),
    ensures
        !m.live(m.after_alloc(size).1),
        m.after_alloc(size).1 != 0,
{
    lemma_alloc_properties(m, size);
}

/// After an abandon, the next allocation — whatever its size — reuses the
/// identifier just abandoned.
pub proof fn lemma_abandon_then_allocate_reuses(m: MemModel, id: u32, size: nat)
    requires
        m.wf(),
        m.live(id),
        id != 0,
    ensures
        m.after_free(id).after_alloc(size).1 == id,
{
    lemma_free_properties(m, id);
    lemma_alloc_properties(m.after_free(id), size);
}

/// An allocation followed at once by an abandon of the issued identifier
/// leaves the heap observably as it was: the same identifiers are live with
/// the same contents.
pub proof fn lemma_allocate_then_abandon_restores(m: MemModel, size: nat)
    requires
        m.wf(),
        m.can_allocate(),
    ensures
        ({
            let (m2, id) = m.after_alloc(size);
            m2.after_free(id).heap() == m.heap()
        }),
{
    let (m2, id) = m.after_alloc(size);
    lemma_alloc_properties(m, size);
    lemma_free_properties(m2, id);
    let m3 = m2.after_free(id);
    assert forall|j: u32| #[trigger] m3.live(j) implies m.live(j) && m3.words(j) == m.words(j) by {
        assert(j != id);
        assert(m2.live(j));
    }
    assert forall|j: u32| #[trigger] m.live(j) implies m3.live(j) by {
        assert(j != id);
        assert(m2.live(j));
    }
    assert(m3.heap() =~= m.heap());
}

/// The array heap. Arrays live in a dense slot table indexed by their
/// identifier; an abandoned identifier's slot is cleared and the identifier
/// waits on the free list until an allocation reuses it.
pub struct Memory {
    slots: Vec<Option<Collection<u32>>>,
    free: Vec<u32>,
}

impl View for Memory {
    type V = MemModel;

    closed spec fn view(&self) -> MemModel {
        MemModel {
            slots: self.slots@.map_values(
                |s: Option<Collection<u32>>|
                    match s {
                        Some(c) => Some(c@),
                        None => None,
                    },
            ),
            free: self.free@,
        }
    }
}

impl Memory {
    /// A heap holding only the (empty) program array.
    pub fn new() -> (r: Memory)
        ensures
            r@ == initial_mem(),
            r@.wf(),
    {
        let mut slots: Vec<Option<Collection<u32>>> = Vec::new();
        slots.push(Some(Collection::new()));
        let free: Vec<u32> = Vec::new();
        let r = Memory { slots, free };
        proof {
            assert(r@.slots =~= initial_mem().slots);
            assert(r@.free =~= initial_mem().free);
            assert(r@ =~= initial_mem());
        }
        r
    }

    /// How many identifiers have ever been issued, live or abandoned.
    pub fn len(&self) -> (n: usize)
        ensures
            n == self@.slot_count(),
    {
        self.slots.len()
    }

    /// Whether `id` currently names an array.
    pub fn is_live(&self, id: u32) -> (b: bool)
        ensures
            b == self@.live(id),
    {
        (id as usize) < self.slots.len() && self.slots[id as usize].is_some()
    }

    /// Whether an allocation can issue an identifier.
    pub fn can_allocate(&self) -> (b: bool)
        ensures
            b == self@.can_allocate(),
    {
        self.free.len() > 0 || self.slots.len() <= (u32::MAX as usize)
    }

    /// The length of the array named by `id`.
    pub fn array_len(&self, id: u32) -> (n: usize)
        requires
            self@.live(id),
        ensures
            n == self@.words(id).len(),
    {
        match &self.slots[id as usize] {
            Some(c) => c.len(),
            None => {
                proof {
                    assert(false);
                }
                0
            },
        }
    }

    /// The word at `off` in the array named by `id`.
    pub fn read_word(&self, id: u32, off: usize) -> (r: u32)
        requires
            self@.live(id),
            off < self@.words(id).len(),
        ensures
            r == self@.words(id)[off as int],
    {
        match &self.slots[id as usize] {
            Some(c) => c.get(off),
            None => {
                proof {
                    assert(false);
                }
                0
            },
        }
    }

    /// Stores `v` at `off` in the array named by `id`.
    pub fn write_word(&mut self, id: u32, off: usize, v: u32)
        requires
            old(self)@.wf(),
            old(self)@.live(id),
            off < old(self)@.words(id).len(),
        ensures
            final(self)@ == old(self)@.after_write(id, off as int, v),
            final(self)@.wf(),
    {
        let slot = &mut self.slots[id as usize];
        match slot {
            Some(c) => c.set(off, v),
            None => {
                proof {
                    assert(false);
                }
            },
        }
        proof {
            assert(final(self)@.slots =~= old(self)@.after_write(id, off as int, v).slots);
            assert(final(self)@ =~= old(self)@.after_write(id, off as int, v));
            lemma_write_properties(old(self)@, id, off as int, v);
        }
    }

    /// An independent copy of the words of the array named by `id`.
    pub fn duplicate(&self, id: u32) -> (r: Vec<u32>)
        requires
            self@.live(id),
        ensures
            r@ == self@.words(id),
    {
        match &self.slots[id as usize] {
            Some(c) => c.to_vec(),
            None => {
                proof {
                    assert(false);
                }
                Vec::new()
            },
        }
    }

    /// Replaces the contents of array 0 wholesale.
    pub fn install_program(&mut self, words: Vec<u32>)
        requires
            old(self)@.wf(),
        ensures
            final(self)@ == old(self)@.after_install(words@),
            final(self)@.wf(),
    {
        let ghost ws = words@;
        self.slots.set(0, Some(Collection::from_vec(words)));
        proof {
            assert(final(self)@.slots =~= old(self)@.after_install(ws).slots);
            assert(final(self)@ =~= old(self)@.after_install(ws));
            lemma_install_properties(old(self)@, ws);
        }
    }

    /// Issues a fresh identifier whose array holds `size` zero words. The
    /// newest abandoned identifier is reused first; only when none is
    /// abandoned does the identifier space grow.
    pub fn allocate(&mut self, size: usize) -> (addr: MemoryAddress)
        requires
            old(self)@.wf(),
            old(self)@.can_allocate(),
        ensures
            ({
                let (m2, id) = old(self)@.after_alloc(size as nat);
                final(self)@ == m2 && addr.0 == id
            }),
            final(self)@.wf(),
    {
        let mut arr: Collection<u32> = Collection::new();
        arr.resize(size, 0u32);
        proof {
            assert(arr@ =~= zero_words(size as nat));
        }
        let addr: MemoryAddress;
        match self.free.pop() {
            Some(id) => {
                proof {
                    assert(old(self)@.free[old(self)@.free.len() - 1] == id);
                    assert((id as int) < old(self)@.slots.len());
                }
                self.slots.set(id as usize, Some(arr));
                addr = MemoryAddress(id);
            },
            None => {
                let id = self.slots.len() as u32;
                self.slots.push(Some(arr));
                addr = MemoryAddress(id);
            },
        }
        proof {
            let (m2, id) = old(self)@.after_alloc(size as nat);
            assert(final(self)@.slots =~= m2.slots);
            assert(final(self)@.free =~= m2.free);
            assert(final(self)@ =~= m2);
            lemma_alloc_properties(old(self)@, size as nat);
        }
        addr
    }

    /// Abandons a live, non-zero identifier; a later allocation may reuse
    /// it.
    pub fn free(&mut self, addr: MemoryAddress)
        requires
            old(self)@.wf(),
            old(self)@.live(addr.0),
            addr.0 != 0,
        ensures
            final(self)@ == old(self)@.after_free(addr.0),
            final(self)@.wf(),
    {
        self.slots.set(addr.0 as usize, None);
        self.free.push(addr.0);
        proof {
            assert(final(self)@.slots =~= old(self)@.after_free(addr.0).slots);
            assert(final(self)@ =~= old(self)@.after_free(addr.0));
            lemma_free_properties(old(self)@, addr.0);
        }
    }
}

} // verus!
