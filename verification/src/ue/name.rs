//! `FName`: an engine name, an index into the engine's name table and a number.

use vstd::prelude::*;
use crate::ue::map::UEHash;

verus! {

/// How the engine's name constructor treats a name that is not in its table yet.
#[derive(Clone, Copy, Debug, PartialEq, Eq, Structural)]
pub enum EFindName {
    Find,
    Add,
    ReplaceNotSafeForThreading,
}

/// The index of a name's entry in the engine's name table.
#[derive(Clone, Copy, Debug, Default, Eq, PartialOrd, Ord)]
pub struct FNameEntryId {
    pub value: u32,
}

/// An engine name: the entry of its text and its number suffix.
#[derive(Clone, Copy, Debug, Default, Eq, PartialOrd, Ord)]
pub struct FName {
    pub comparison_index: FNameEntryId,
    pub number: u32,
}

impl PartialEq for FNameEntryId {
    /// Equal indices.
    fn eq(&self, other: &Self) -> (r: bool) {
        self.value == other.value
    }
}

impl vstd::std_specs::cmp::PartialEqSpecImpl for FNameEntryId {
    open spec fn obeys_eq_spec() -> bool {
        true
    }

    open spec fn eq_spec(&self, other: &Self) -> bool {
        self.value == other.value
    }
}

impl PartialEq for FName {
    /// Equal entries and equal numbers.
    fn eq(&self, other: &Self) -> (r: bool) {
        self.comparison_index.value == other.comparison_index.value && self.number == other.number
    }
}

impl vstd::std_specs::cmp::PartialEqSpecImpl for FName {
    open spec fn obeys_eq_spec() -> bool {
        true
    }

    open spec fn eq_spec(&self, other: &Self) -> bool {
        self.comparison_index.value == other.comparison_index.value && self.number == other.number
    }
}

/// The engine's hash of a name entry index, in wrapping `u32` arithmetic.
pub open spec fn entry_hash(value: u32) -> u32 {
    (((value >> 4u32) as nat + (value as nat * 0x10001) % 0x1_0000_0000 + ((value >> 16u32) as nat
        * 0x80001) % 0x1_0000_0000) % 0x1_0000_0000) as u32
}

impl UEHash for FNameEntryId {
    open spec fn spec_ue_hash(&self) -> u32 {
        entry_hash(self.value)
    }

    fn ue_hash(&self) -> (r: u32) {
        let value = self.value;
        (value >> 4u32).wrapping_add(value.wrapping_mul(0x10001)).wrapping_add(
            (value >> 16u32).wrapping_mul(0x80001),
        )
    }
}

impl UEHash for FName {
    open spec fn spec_ue_hash(&self) -> u32 {
        ((entry_hash(self.comparison_index.value) as nat + self.number as nat) % 0x1_0000_0000) as u32
    }

    fn ue_hash(&self) -> (r: u32) {
        self.comparison_index.ue_hash().wrapping_add(self.number)
    }
}

} // verus!
