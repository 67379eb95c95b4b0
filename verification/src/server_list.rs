//! The server list shows the names of modded servers with a `[MODDED] ` prefix.

use vstd::prelude::*;
use crate::ue::array::TArray;
use crate::ue::string::FString;

verus! {

/// The UTF-16 units of `[MODDED] `.
pub open spec fn modded_prefix() -> Seq<u16> {
    seq![0x5bu16, 0x4d, 0x4f, 0x44, 0x44, 0x45, 0x44, 0x5d, 0x20]
}

/// Rewrites a server name in place: `[MODDED] `, the old units, and a NUL.
pub fn mark_modded(name: &mut FString)
    requires
        old(name).wf(),
        old(name).spec_capacity() + old(name)@.len() + 9 < 0x4000_0000,
    ensures
        final(name)@ == modded_prefix() + old(name)@ + seq![0u16],
        final(name).wf(),
{
    proof {
        name.lemma_len_within_capacity();
    }
    let mut new_name: Vec<u16> = vec![0x5bu16, 0x4d, 0x4f, 0x44, 0x44, 0x45, 0x44, 0x5d, 0x20];
    assert(new_name@ =~= modded_prefix());
    let old_units = name.as_slice();
    let mut i: usize = 0;
    while i < old_units.len()
        invariant
            i <= old_units@.len(),
            old_units@.len() < 0x4000_0000,
            new_name@ == modded_prefix() + old_units@.subrange(0, i as int),
        decreases old_units@.len() - i,
    {
        new_name.push(old_units[i]);
        i = i + 1;
        assert(new_name@ =~= modded_prefix() + old_units@.subrange(0, i as int));
    }
    assert(old_units@.subrange(0, i as int) =~= old_units@);
    name.clear();
    name.extend_from_slice(new_name.as_slice());
    name.push(0);
    assert(Seq::<u16>::empty() + new_name@ =~= new_name@);
}

} // verus!
