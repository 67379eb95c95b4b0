//! `TMap`, the engine's hash map: a sparse array of elements whose keys are
//! chained by hash bucket.
//!
//! A lookup hashes the key, takes the head of the key's bucket, and follows the
//! chain of element ids until an element with the key turns up or the chain ends
//! (an id of `-1`).

use vstd::prelude::*;
use crate::ue::array::TArray;
use vstd::std_specs::cmp::PartialEqSpec;

verus! {

/// A type that the engine hashes.
pub trait UEHash {
    /// The engine's hash of the value.
    spec fn spec_ue_hash(&self) -> u32;

    /// The engine's hash of the value.
    fn ue_hash(&self) -> (r: u32)
        ensures
            r == self.spec_ue_hash(),
    ;
}

/// The id of an element of a set or map; `-1` is no element.
#[derive(Clone, Copy, Debug, PartialEq, Eq, Structural)]
pub struct FSetElementId {
    pub index: i32,
}

impl FSetElementId {
    /// Whether the id names an element.
    pub fn is_valid(self) -> (b: bool)
        ensures
            b == (self.index != -1),
    {
        self.index != -1
    }
}

/// A pair.
#[derive(Debug)]
pub struct TTuple<A, B> {
    pub a: A,
    pub b: B,
}

/// An element of a set: its value, the next id in its hash chain, and its bucket.
#[derive(Debug)]
pub struct TSetElement<V> {
    pub value: V,
    pub hash_next_id: FSetElementId,
    pub hash_index: i32,
}

impl<K: UEHash, V> UEHash for TSetElement<TTuple<K, V>> {
    open spec fn spec_ue_hash(&self) -> u32 {
        self.value.a.spec_ue_hash()
    }

    fn ue_hash(&self) -> (r: u32) {
        self.value.a.ue_hash()
    }
}

/// A link of the free list of a sparse array.
#[derive(Clone, Copy, Debug, PartialEq, Eq, Structural)]
pub struct ListLink {
    pub next_free_index: i32,
    pub prev_free_index: i32,
}

/// A slot of a sparse array: an element, or a link of the free list.
#[derive(Debug)]
pub enum TSparseArrayElementOrFreeListLink<E> {
    Element(E),
    ListLink(ListLink),
}

/// Storage of `N` elements kept inline, used unless a secondary allocation exists.
#[derive(Debug)]
pub struct TInlineAllocator<const N: usize, V> {
    pub inline_data: [V; N],
    pub secondary_data: Option<Vec<V>>,
}

/// The storage in use: the secondary allocation if there is one, else the inline data.
pub open spec fn allocation<const N: usize, V>(a: TInlineAllocator<N, V>) -> Seq<V> {
    match a.secondary_data {
        Some(v) => v@,
        None => a.inline_data@,
    }
}

impl<const N: usize, V> TInlineAllocator<N, V> {
    /// The storage in use.
    pub fn get_allocation(&self) -> (r: &[V])
        ensures
            r@ == allocation(*self),
    {
        match &self.secondary_data {
            Some(v) => v.as_slice(),
            None => self.inline_data.as_slice(),
        }
    }
}

/// A bit array whose words live in an inline allocator of four words.
#[derive(Debug)]
pub struct TBitArray {
    pub allocator_instance: TInlineAllocator<4, u32>,
    pub num_bits: i32,
    pub max_bits: i32,
}

/// Bit `i` of a sequence of 32-bit words, least significant bit first.
pub open spec fn bit_of(words: Seq<u32>, i: int) -> bool {
    words[i / 32] & (1u32 << ((i % 32) as u32)) != 0
}

/// A reference to one bit: a word and the mask of the bit.
#[derive(Debug)]
pub struct FBitReference<'data> {
    pub data: &'data u32,
    pub mask: u32,
}

impl FBitReference<'_> {
    /// Whether the bit is set.
    pub fn bool(self) -> (b: bool)
        ensures
            b == (*self.data & self.mask != 0),
    {
        (*self.data & self.mask) != 0
    }
}

impl Default for TBitArray {
    /// An empty bit array: no bits, its four inline words zero.
    fn default() -> (r: Self)
        ensures
            r.allocator_instance.inline_data@ == seq![0u32, 0u32, 0u32, 0u32],
            r.allocator_instance.secondary_data is None,
            r.num_bits == 0,
            r.max_bits == 0,
    {
        let r = TBitArray {
            allocator_instance: TInlineAllocator { inline_data: [0u32, 0u32, 0u32, 0u32], secondary_data: None },
            num_bits: 0,
            max_bits: 0,
        };
        assert(r.allocator_instance.inline_data@ =~= seq![0u32, 0u32, 0u32, 0u32]);
        r
    }
}

impl TBitArray {
    /// The words of the array.
    pub fn get_data(&self) -> (r: &[u32])
        ensures
            r@ == allocation(self.allocator_instance),
    {
        self.allocator_instance.get_allocation()
    }

    /// A reference to bit `index`.
    pub fn index(&self, index: usize) -> (r: FBitReference<'_>)
        requires
            index < self.num_bits,
            index / 32 < allocation(self.allocator_instance).len(),
        ensures
            *r.data == allocation(self.allocator_instance)[index as int / 32],
            r.mask == 1u32 << ((index % 32) as u32),
            r.bool_spec() == bit_of(allocation(self.allocator_instance), index as int),
    {
        let data = self.get_data();
        let shift = (index & 31) as u32;
        assert(index & 31 == index % 32) by (bit_vector);
        FBitReference { data: &data[index / 32], mask: 1u32 << shift }
    }
}

impl FBitReference<'_> {
    /// Whether the bit is set.
    pub open spec fn bool_spec(self) -> bool {
        *self.data & self.mask != 0
    }
}

/// A sparse array: slots, and a bit per slot telling which slots hold elements.
#[derive(Debug)]
pub struct TSparseArray<E> {
    pub data: TArray<TSparseArrayElementOrFreeListLink<E>>,
    pub allocation_flags: TBitArray,
    pub first_free_index: i32,
    pub num_free_indices: i32,
}

/// Slot `i` of the sparse array holds an element.
pub open spec fn slot_holds<E>(s: TSparseArray<E>, i: int) -> bool {
    &&& 0 <= i < s.data@.len()
    &&& i < s.allocation_flags.num_bits
    &&& i / 32 < allocation(s.allocation_flags.allocator_instance).len()
    &&& bit_of(allocation(s.allocation_flags.allocator_instance), i)
    &&& s.data@[i] is Element
}

impl<E> Default for TSparseArray<E> {
    /// An empty sparse array: no slots, no bits, no free slots.
    fn default() -> (r: Self)
        ensures
            r.data@ == Seq::<TSparseArrayElementOrFreeListLink<E>>::empty(),
            r.data.wf(),
            r.allocation_flags.num_bits == 0,
            r.allocation_flags.max_bits == 0,
            r.allocation_flags.allocator_instance.secondary_data is None,
            r.first_free_index == 0,
            r.num_free_indices == 0,
    {
        TSparseArray {
            data: TArray::new(),
            allocation_flags: TBitArray::default(),
            first_free_index: 0,
            num_free_indices: 0,
        }
    }
}

impl<E> TSparseArray<E> {
    /// The element of slot `index`.
    pub fn index(&self, index: usize) -> (r: &E)
        requires
            slot_holds(*self, index as int),
        ensures
            *r == self.data@[index as int]->Element_0,
    {
        let flag = self.allocation_flags.index(index);
        let slots = self.data.as_slice();
        match &slots[index] {
            TSparseArrayElementOrFreeListLink::Element(e) => e,
            TSparseArrayElementOrFreeListLink::ListLink(_) => vstd::pervasive::unreached(),
        }
    }
}

/// A map of the engine: its elements in a sparse array, the heads of the hash
/// chains, and the number of hash buckets.
#[derive(Debug)]
pub struct TMap<K: UEHash, V> {
    pub elements: TSparseArray<TSetElement<TTuple<K, V>>>,
    pub hash: TInlineAllocator<1, FSetElementId>,
    pub hash_size: i32,
}

impl<K: UEHash, V> Default for TMap<K, V> {
    /// An empty map: no elements, no buckets, and one inline bucket head of id 0.
    fn default() -> (r: Self)
        ensures
            r.elements.data@ == Seq::<TSparseArrayElementOrFreeListLink<TSetElement<TTuple<K, V>>>>::empty(),
            r.elements.num_free_indices == 0,
            allocation(r.hash) == seq![FSetElementId { index: 0i32 }],
            r.hash_size == 0,
    {
        let r = TMap {
            elements: TSparseArray::default(),
            hash: TInlineAllocator { inline_data: [FSetElementId { index: 0 }], secondary_data: None },
            hash_size: 0,
        };
        assert(allocation(r.hash) =~= seq![FSetElementId { index: 0i32 }]);
        r
    }
}

/// The element that a valid id names.
pub open spec fn element_at<K: UEHash, V>(m: TMap<K, V>, id: FSetElementId) -> TSetElement<
    TTuple<K, V>,
> {
    m.elements.data@[id.index as int]->Element_0
}

/// Following the chain from `id`, every valid id names an element, and the
/// chain ends (in an id of `-1`) within `fuel` steps.
pub open spec fn chain_ends<K: UEHash, V>(m: TMap<K, V>, id: FSetElementId, fuel: nat) -> bool
    decreases fuel,
{
    if id.index == -1 {
        true
    } else if fuel == 0 {
        false
    } else {
        slot_holds(m.elements, id.index as int) && chain_ends(
            m,
            element_at(m, id).hash_next_id,
            (fuel - 1) as nat,
        )
    }
}

/// The first id on the chain from `id`, within `fuel` steps, whose element's
/// key equals `key`; `-1` when there is none.
pub open spec fn chain_find<K: UEHash + PartialEq, V>(
    m: TMap<K, V>,
    id: FSetElementId,
    key: K,
    fuel: nat,
) -> FSetElementId
    decreases fuel,
{
    if id.index == -1 || fuel == 0 {
        FSetElementId { index: -1i32 }
    } else if element_at(m, id).value.a.eq_spec(&key) {
        id
    } else {
        chain_find(m, element_at(m, id).hash_next_id, key, (fuel - 1) as nat)
    }
}

/// The bucket of hash `h` among `hash_size` buckets: the hash masked by `hash_size - 1`.
pub open spec fn bucket_of(hash_size: i32, h: u32) -> int {
    (((hash_size - 1) as i64) & (h as i64)) as int
}

/// The head of the chain of the bucket of `key`.
pub open spec fn bucket_head<K: UEHash, V>(m: TMap<K, V>, key: K) -> FSetElementId {
    allocation(m.hash)[bucket_of(m.hash_size, key.spec_ue_hash())]
}

/// The map as the engine keeps it: at least one bucket, the bucket heads within
/// the hash storage, and every chain ending.
pub open spec fn map_wf<K: UEHash, V>(m: TMap<K, V>) -> bool {
    &&& 1 <= m.hash_size <= allocation(m.hash).len()
    &&& forall|b: int|
        0 <= b < m.hash_size ==> exists|f: nat| chain_ends(m, #[trigger] allocation(m.hash)[b], f)
}

/// The id that a lookup of `key` finds: none when every slot is free, else the
/// first element on the chain of `key`'s bucket whose key equals `key`.
pub open spec fn lookup<K: UEHash + PartialEq, V>(m: TMap<K, V>, key: K) -> FSetElementId {
    if m.elements.data@.len() == (m.elements.num_free_indices as usize) {
        FSetElementId { index: -1i32 }
    } else {
        let head = bucket_head(m, key);
        chain_find(m, head, key, choose|f: nat| chain_ends(m, head, f))
    }
}

proof fn lemma_bucket_in_range(hash_size: i32, h: u32)
    requires
        1 <= hash_size,
    ensures
        0 <= bucket_of(hash_size, h) < hash_size,
{
    let a: i64 = (hash_size - 1) as i64;
    let b: i64 = h as i64;
    assert(0 <= a && 0 <= b ==> 0 <= (a & b) <= a) by (bit_vector);
}

/// The id `n` steps along the chain from `id`; an id of `-1` stays where it is.
pub open spec fn chain_step<K: UEHash, V>(m: TMap<K, V>, id: FSetElementId, n: nat) -> FSetElementId
    decreases n,
{
    if n == 0 || id.index == -1 {
        id
    } else {
        chain_step(m, element_at(m, id).hash_next_id, (n - 1) as nat)
    }
}

/// The number of free slots of a sparse array's slots.
pub open spec fn free_count<E>(slots: Seq<TSparseArrayElementOrFreeListLink<E>>) -> nat
    decreases slots.len(),
{
    if slots.len() == 0 {
        0
    } else {
        free_count(slots.drop_last()) + if slots.last() is ListLink {
            1nat
        } else {
            0nat
        }
    }
}

/// The map indexes what it holds: its count of free slots is the number of
/// free slots, and every element it holds lies on the chain of its key's
/// bucket.
pub open spec fn map_indexed<K: UEHash, V>(m: TMap<K, V>) -> bool {
    &&& m.elements.num_free_indices as int == free_count(m.elements.data@)
    &&& forall|id: FSetElementId|
        id.index >= 0 && #[trigger] slot_holds(m.elements, id.index as int) ==> exists|n: nat|
            chain_step(m, bucket_head(m, element_at(m, id).value.a), n) == id
}

/// A slot that holds an element is not free, so fewer slots are free than there are.
proof fn lemma_free_count_below<E>(slots: Seq<TSparseArrayElementOrFreeListLink<E>>, j: int)
    requires
        0 <= j < slots.len(),
        slots[j] is Element,
    ensures
        free_count(slots) < slots.len(),
    decreases slots.len(),
{
    let pre = slots.drop_last();
    if j < slots.len() - 1 {
        assert(pre[j] == slots[j]);
        lemma_free_count_below(pre, j);
    } else {
        lemma_free_count_at_most(pre);
    }
}

/// At most every slot is free.
proof fn lemma_free_count_at_most<E>(slots: Seq<TSparseArrayElementOrFreeListLink<E>>)
    ensures
        free_count(slots) <= slots.len(),
    decreases slots.len(),
{
    if slots.len() > 0 {
        lemma_free_count_at_most(slots.drop_last());
    }
}

/// A chain that ends and passes through an element whose key equals `key`
/// finds an element with that key.
proof fn lemma_chain_finds<K: UEHash + PartialEq, V>(
    m: TMap<K, V>,
    x: FSetElementId,
    id: FSetElementId,
    key: K,
    n: nat,
    f: nat,
)
    requires
        chain_ends(m, x, f),
        chain_step(m, x, n) == id,
        id.index != -1,
        element_at(m, id).value.a.eq_spec(&key),
    ensures
        chain_find(m, x, key, f).index != -1,
    decreases n,
{
    if x.index != -1 && !element_at(m, x).value.a.eq_spec(&key) {
        let next = element_at(m, x).hash_next_id;
        assert(n > 0);
        lemma_chain_finds(m, next, id, key, (n - 1) as nat, (f - 1) as nat);
    }
}

/// A key the map holds is found: in a map that the engine keeps well formed
/// and indexed, looking up the key of a held element gives a valid id of an
/// element with that key.
pub proof fn lemma_held_key_found<K: UEHash + PartialEq, V>(m: TMap<K, V>, id: FSetElementId, key: K)
    requires
        map_wf(m),
        map_indexed(m),
        id.index >= 0,
        slot_holds(m.elements, id.index as int),
        element_at(m, id).value.a == key,
        key.eq_spec(&key),
    ensures
        lookup(m, key).index != -1,
        slot_holds(m.elements, lookup(m, key).index as int),
        element_at(m, lookup(m, key)).value.a.eq_spec(&key),
{
    lemma_free_count_below(m.elements.data@, id.index as int);
    lemma_bucket_in_range(m.hash_size, key.spec_ue_hash());
    let head = bucket_head(m, key);
    assert(exists|f: nat| chain_ends(m, head, f)) by {
        assert(head == allocation(m.hash)[bucket_of(m.hash_size, key.spec_ue_hash())]);
    }
    let f = choose|f: nat| chain_ends(m, head, f);
    let n = choose|n: nat| chain_step(m, head, n) == id;
    lemma_chain_finds(m, head, id, key, n, f);
    lemma_chain_find_holds(m, head, key, f);
}

/// What a chain finds is a held element with the key.
proof fn lemma_chain_find_holds<K: UEHash + PartialEq, V>(m: TMap<K, V>, x: FSetElementId, key: K, f: nat)
    requires
        chain_ends(m, x, f),
        chain_find(m, x, key, f).index != -1,
    ensures
        slot_holds(m.elements, chain_find(m, x, key, f).index as int),
        element_at(m, chain_find(m, x, key, f)).value.a.eq_spec(&key),
    decreases f,
{
    if x.index != -1 && f > 0 && !element_at(m, x).value.a.eq_spec(&key) {
        lemma_chain_find_holds(m, element_at(m, x).hash_next_id, key, (f - 1) as nat);
    }
}

impl<K: UEHash, V> TMap<K, V> {
    /// The heads of the hash chains, one per bucket.
    pub fn hash(&self) -> (r: &[FSetElementId])
        requires
            0 <= self.hash_size <= allocation(self.hash).len(),
        ensures
            r@ == allocation(self.hash).subrange(0, self.hash_size as int),
    {
        let all = self.hash.get_allocation();
        let n = self.hash_size as usize;
        &all[0..n]
    }
}

impl<K: UEHash + PartialEq, V> TMap<K, V> {
    /// The id of the element with key `key`, as [`lookup`] finds it.
    pub fn find_id(&self, key: K) -> (r: FSetElementId)
        requires
            self.elements.data@.len() == (self.elements.num_free_indices as usize) || map_wf(*self),
            K::obeys_eq_spec(),
        ensures
            r == lookup(*self, key),
            r.index != -1 ==> slot_holds(self.elements, r.index as int) && element_at(
                *self,
                r,
            ).value.a.eq_spec(&key),
    {
        if self.elements.data.len() != self.elements.num_free_indices as usize {
            let key_hash = key.ue_hash();
            let hash = self.hash();
            proof {
                lemma_bucket_in_range(self.hash_size, key_hash);
            }
            let bucket = (((self.hash_size as i64) - 1) & (key_hash as i64)) as usize;
            let mut i = hash[bucket];
            let ghost head = i;
            assert(head == bucket_head(*self, key));
            assert(exists|f: nat| chain_ends(*self, head, f)) by {
                assert(head == allocation(self.hash)[bucket as int]);
            }
            let ghost f0 = choose|f: nat| chain_ends(*self, head, f);
            let ghost mut f = f0;
            assert(lookup(*self, key) == chain_find(*self, i, key, f));
            if i.is_valid() {
                loop
                    invariant_except_break
                        i.index != -1,
                    invariant
                        map_wf(*self),
                        K::obeys_eq_spec(),
                        chain_ends(*self, i, f),
                        lookup(*self, key) == chain_find(*self, i, key, f),
                    ensures
                        lookup(*self, key) == (FSetElementId { index: -1i32 }),
                    decreases f,
                {
                    let elm = self.elements.index(i.index as usize);
                    if elm.value.a == key {
                        return i;
                    }
                    i = elm.hash_next_id;
                    proof {
                        f = (f - 1) as nat;
                    }
                    if !i.is_valid() {
                        assert(chain_find(*self, i, key, f) == (FSetElementId { index: -1i32 }));
                        break;
                    }
                }
            }
        }
        FSetElementId { index: -1 }
    }

    /// The value of the element with key `key`, as [`lookup`] finds it.
    pub fn find(&self, key: K) -> (r: Option<&V>)
        requires
            self.elements.data@.len() == (self.elements.num_free_indices as usize) || map_wf(*self),
            K::obeys_eq_spec(),
        ensures
            r is Some <==> lookup(*self, key).index != -1,
            r matches Some(v) ==> *v == element_at(*self, lookup(*self, key)).value.b,
    {
        let id = self.find_id(key);
        if id.is_valid() {
            Some(&self.elements.index(id.index as usize).value.b)
        } else {
            None
        }
    }
}

} // verus!
