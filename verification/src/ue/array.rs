//! `TArray`, the engine's growable array, and `FString`, the engine's string
//! of UTF-16 units.
//!
//! The array keeps the engine's own capacity rule: growing happens when the
//! elements after a reservation would reach the capacity, and the new
//! capacity is the next power of two of the old capacity plus the reservation.

use vstd::prelude::*;

verus! {

/// The smallest power of two that is at least `x` (1 for 0 and 1).
pub open spec fn next_pow2(x: nat) -> nat
    decreases x,
{
    if x <= 1 {
        1
    } else {
        2 * next_pow2(((x + 1) / 2) as nat)
    }
}

/// `2` to the `k`.
pub open spec fn two_to(k: nat) -> nat
    decreases k,
{
    if k == 0 {
        1
    } else {
        2 * two_to((k - 1) as nat)
    }
}

/// The next power of two is at least the value.
pub proof fn lemma_next_pow2_ge(x: nat)
    ensures
        x <= next_pow2(x),
    decreases x,
{
    if x > 1 {
        lemma_next_pow2_ge(((x + 1) / 2) as nat);
    }
}

/// The next power of two of a value below a power of two stays below it.
pub proof fn lemma_next_pow2_le(x: nat, k: nat)
    requires
        x <= two_to(k),
    ensures
        next_pow2(x) <= two_to(k),
    decreases k,
{
    if x > 1 {
        assert(k > 0);
        assert(two_to(k) == 2 * two_to((k - 1) as nat));
        lemma_next_pow2_le(((x + 1) / 2) as nat, (k - 1) as nat);
    } else {
        lemma_two_to_pos(k);
    }
}

/// The next power of two of a value above a power of two is at least the
/// power of two after it.
pub proof fn lemma_next_pow2_above(x: nat, k: nat)
    requires
        two_to(k) < x,
    ensures
        two_to(k + 1) <= next_pow2(x),
    decreases k,
{
    assert(two_to(k + 1) == 2 * two_to(k));
    lemma_two_to_pos(k);
    if k == 0 {
        lemma_next_pow2_ge(((x + 1) / 2) as nat);
    } else {
        assert(two_to(k) == 2 * two_to((k - 1) as nat));
        lemma_next_pow2_above(((x + 1) / 2) as nat, (k - 1) as nat);
    }
}

proof fn lemma_two_to_pos(k: nat)
    ensures
        two_to(k) >= 1,
    decreases k,
{
    if k > 0 {
        lemma_two_to_pos((k - 1) as nat);
    }
}

proof fn lemma_two_to_values()
    ensures
        two_to(28) == 0x1000_0000,
        two_to(29) == 0x2000_0000,
        two_to(30) == 0x4000_0000,
{
    reveal_with_fuel(two_to, 31);
}

/// The smallest power of two that is at least `x`, as `u32::next_power_of_two` computes it.
pub fn next_power_of_two(x: u32) -> (r: u32)
    requires
        x <= 0x4000_0000,
    ensures
        r == next_pow2(x as nat),
        r <= 0x4000_0000,
    decreases x,
{
    proof {
        lemma_two_to_values();
        lemma_next_pow2_le(x as nat, 30);
    }
    if x <= 1 {
        1
    } else {
        let half = x / 2 + x % 2;
        assert(half == (x + 1) / 2);
        let h = next_power_of_two(half);
        2 * h
    }
}

/// The capacity after reserving room for `additional` more elements, with `num`
/// elements held and `max` the capacity before.
pub open spec fn reserved_capacity(max: int, num: int, additional: int) -> int {
    if num + additional >= max {
        next_pow2((max + additional) as nat) as int
    } else {
        max
    }
}

/// The capacity after pushing `k` elements one by one, from `num` held elements
/// and capacity `max`.
pub open spec fn pushed_capacity(max: int, num: int, k: nat) -> int
    decreases k,
{
    if k == 0 {
        max
    } else {
        pushed_capacity(reserved_capacity(max, num, 1), num + 1, (k - 1) as nat)
    }
}

/// The engine's growable array: its elements and its capacity.
#[derive(Debug)]
pub struct TArray<T> {
    data: Vec<T>,
    max: i32,
}

impl<T> View for TArray<T> {
    type V = Seq<T>;

    closed spec fn view(&self) -> Seq<T> {
        self.data@
    }
}

impl<T> TArray<T> {
    /// The capacity, in elements.
    pub closed spec fn spec_capacity(&self) -> int {
        self.max as int
    }

    /// The elements fit in the capacity.
    pub closed spec fn wf(&self) -> bool {
        0 <= self.data@.len() <= self.max
    }

    /// A well-formed array holds no more elements than its capacity.
    pub proof fn lemma_len_within_capacity(&self)
        requires
            self.wf(),
        ensures
            self@.len() <= self.spec_capacity() <= i32::MAX,
    {
    }

    /// An empty array without storage.
    pub fn new() -> (r: Self)
        ensures
            r@ == Seq::<T>::empty(),
            r.spec_capacity() == 0,
            r.wf(),
    {
        TArray { data: Vec::new(), max: 0 }
    }

    /// An empty array with room for `capacity` elements.
    pub fn with_capacity(capacity: usize) -> (r: Self)
        requires
            capacity <= i32::MAX,
        ensures
            r@ == Seq::<T>::empty(),
            r.spec_capacity() == capacity,
            r.wf(),
    {
        TArray { data: Vec::new(), max: capacity as i32 }
    }

    /// The number of elements.
    pub fn len(&self) -> (n: usize)
        ensures
            n == self@.len(),
    {
        self.data.len()
    }

    /// The capacity, in elements.
    pub fn capacity(&self) -> (n: usize)
        requires
            self.wf(),
        ensures
            n == self.spec_capacity(),
    {
        self.max as usize
    }

    /// Whether the array holds no element.
    pub fn is_empty(&self) -> (b: bool)
        ensures
            b == (self@.len() == 0),
    {
        self.data.len() == 0
    }

    /// The elements.
    pub fn as_slice(&self) -> (s: &[T])
        ensures
            s@ == self@,
    {
        self.data.as_slice()
    }

    /// The elements, to change in place: what the slice holds when the caller is
    /// done is what the array holds.
    pub fn as_mut_slice(&mut self) -> (s: &mut [T])
        ensures
            s@ == old(self)@,
            final(self)@ == final(s)@,
            final(self).spec_capacity() == old(self).spec_capacity(),
    {
        self.data.as_mut_slice()
    }

    /// Drops every element and keeps the capacity.
    pub fn clear(&mut self)
        requires
            old(self).wf(),
        ensures
            final(self)@ == Seq::<T>::empty(),
            final(self).spec_capacity() == old(self).spec_capacity(),
            final(self).wf(),
    {
        self.data.clear();
    }

    /// Makes room for `additional` more elements: when the elements would reach
    /// the capacity, the capacity becomes the next power of two of the old
    /// capacity plus `additional`.
    pub fn reserve(&mut self, additional: usize)
        requires
            old(self).wf(),
            old(self)@.len() + additional <= i32::MAX,
            old(self)@.len() + additional >= old(self).spec_capacity() ==> old(self).spec_capacity()
                + additional <= 0x4000_0000,
        ensures
            final(self)@ == old(self)@,
            final(self).spec_capacity() == reserved_capacity(
                old(self).spec_capacity(),
                old(self)@.len() as int,
                additional as int,
            ),
            final(self).spec_capacity() >= old(self)@.len() + additional,
            final(self).wf(),
    {
        let num = self.data.len() as i32;
        let add = additional as i32;
        if num + add >= self.max {
            let grown = next_power_of_two((self.max + add) as u32);
            proof {
                lemma_next_pow2_ge((self.max + add) as nat);
            }
            self.max = grown as i32;
        }
    }

    /// Appends `value`, after reserving room for it.
    pub fn push(&mut self, value: T)
        requires
            old(self).wf(),
            old(self)@.len() + 1 <= i32::MAX,
            old(self)@.len() + 1 >= old(self).spec_capacity() ==> old(self).spec_capacity() + 1
                <= 0x4000_0000,
        ensures
            final(self)@ == old(self)@.push(value),
            final(self).spec_capacity() == reserved_capacity(
                old(self).spec_capacity(),
                old(self)@.len() as int,
                1,
            ),
            final(self).wf(),
    {
        self.reserve(1);
        self.data.push(value);
    }
}

/// Appending `k` elements to `len` held ones with capacity `cap` keeps the
/// engine's 32-bit capacity arithmetic in range: either the elements fit below
/// the capacity without growing, or the capacity plus `k` is below 2^30 (or
/// reaches 2^30 with a free slot, so no second growth follows).
pub open spec fn extend_fits(cap: int, len: int, k: int) -> bool {
    ||| len + k < cap
    ||| cap + k < 0x4000_0000
    ||| cap + k == 0x4000_0000 && len < cap
}

impl<T: Copy> TArray<T> {
    /// Appends the elements of `other`: one reservation for all of them, then one
    /// push for each.
    pub fn extend_from_slice(&mut self, other: &[T])
        requires
            old(self).wf(),
            extend_fits(old(self).spec_capacity(), old(self)@.len() as int, other@.len() as int),
        ensures
            final(self)@ == old(self)@ + other@,
            final(self).spec_capacity() == pushed_capacity(
                reserved_capacity(
                    old(self).spec_capacity(),
                    old(self)@.len() as int,
                    other@.len() as int,
                ),
                old(self)@.len() as int,
                other@.len(),
            ),
            final(self).spec_capacity() == old(self).spec_capacity() || final(self).spec_capacity()
                <= 0x4000_0000,
            other@.len() > 0 ==> final(self)@.len() < final(self).spec_capacity(),
            final(self).wf(),
    {
        let ghost start = self@;
        let ghost n0 = self@.len() as int;
        let ghost c0 = self.spec_capacity();
        let ghost k = other@.len();
        proof {
            lemma_two_to_values();
            if n0 + k >= c0 {
                let x = (c0 + k) as nat;
                lemma_next_pow2_ge(x);
                lemma_next_pow2_le(x, 30);
                if x <= 0x2000_0000 {
                    lemma_next_pow2_le(x, 29);
                } else {
                    lemma_next_pow2_above(x, 29);
                }
            }
        }
        self.reserve(other.len());
        let ghost m0 = self.spec_capacity();
        let mut j: usize = 0;
        while j < other.len()
            invariant
                self.wf(),
                j <= other@.len(),
                k == other@.len(),
                self@ == start + other@.subrange(0, j as int),
                n0 + k <= self.spec_capacity(),
                n0 + k == self.spec_capacity() ==> self.spec_capacity() <= 0x2000_0000,
                self.spec_capacity() == c0 || self.spec_capacity() <= 0x4000_0000,
                j == k && k > 0 ==> n0 + k < self.spec_capacity(),
                pushed_capacity(m0, n0, k) == pushed_capacity(
                    self.spec_capacity(),
                    n0 + j,
                    (k - j) as nat,
                ),
                n0 == start.len(),
            decreases other@.len() - j,
        {
            proof {
                if n0 + j + 1 >= self.spec_capacity() {
                    lemma_two_to_values();
                    lemma_next_pow2_ge((self.spec_capacity() + 1) as nat);
                    lemma_next_pow2_le((self.spec_capacity() + 1) as nat, 30);
                }
            }
            self.push(other[j]);
            j = j + 1;
            assert(self@ =~= start + other@.subrange(0, j as int));
        }
        assert(other@.subrange(0, j as int) =~= other@);
    }

    /// A new array holding a copy of `value`'s elements.
    pub fn from_slice(value: &[T]) -> (r: Self)
        requires
            value@.len() <= 0x2000_0000,
        ensures
            r@ == value@,
            r.spec_capacity() == pushed_capacity(
                reserved_capacity(value@.len() as int, 0, value@.len() as int),
                0,
                value@.len(),
            ),
            r.spec_capacity() <= 0x4000_0000,
            r.wf(),
    {
        let mut new = Self::with_capacity(value.len());
        new.extend_from_slice(value);
        assert(Seq::<T>::empty() + value@ =~= value@);
        new
    }
}

impl<T> Default for TArray<T> {
    fn default() -> (r: Self)
        ensures
            r@ == Seq::<T>::empty(),
            r.spec_capacity() == 0,
            r.wf(),
    {
        TArray { data: Vec::new(), max: 0 }
    }
}

} // verus!
