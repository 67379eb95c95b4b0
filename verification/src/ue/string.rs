//! `FString`, the engine's string: a `TArray` of UTF-16 units that ends in a NUL.

use vstd::prelude::*;
use crate::ue::array::TArray;

verus! {

/// The engine's string type.
pub type FString = TArray<u16>;

/// The UTF-16 units of one character.
pub open spec fn utf16_units(c: char) -> Seq<u16> {
    let v = c as int;
    if v < 0x10000 {
        seq![v as u16]
    } else {
        let w = v - 0x10000;
        seq![(0xD800 + w / 0x400) as u16, (0xDC00 + w % 0x400) as u16]
    }
}

/// The UTF-16 encoding of a string.
pub open spec fn utf16_encode(s: Seq<char>) -> Seq<u16>
    decreases s.len(),
{
    if s.len() == 0 {
        Seq::empty()
    } else {
        utf16_encode(s.drop_last()) + utf16_units(s.last())
    }
}

/// A NUL occurs in `s` at most as its last character.
pub open spec fn nul_only_last(s: Seq<char>) -> bool {
    forall|i: int| 0 <= i < s.len() - 1 ==> s[i] != '\0'
}

/// The NUL-terminated UTF-16 units of `s`: a NUL is added unless `s` ends in one.
pub open spec fn c_units(s: Seq<char>) -> Seq<u16> {
    if s.len() > 0 && s.last() == '\0' {
        utf16_encode(s)
    } else {
        utf16_encode(s) + seq![0u16]
    }
}

/// `s` without its trailing zero units.
pub open spec fn strip_zeros(s: Seq<u16>) -> Seq<u16>
    decreases s.len(),
{
    if s.len() > 0 && s.last() == 0 {
        strip_zeros(s.drop_last())
    } else {
        s
    }
}

/// The units that a string's text is read from: all units up to the last
/// non-zero one, or all of them when none is non-zero.
pub open spec fn text_units(s: Seq<u16>) -> Seq<u16> {
    if strip_zeros(s).len() == 0 {
        s
    } else {
        strip_zeros(s)
    }
}

/// `widestring::U16CString::from_str` followed by `as_slice_with_nul`: the UTF-16
/// encoding of `s` with a NUL terminator. The crate refuses a NUL before the
/// last character, which the `requires` leaves out.
#[verifier::external_body]
fn c_units_of(s: &str) -> (r: Vec<u16>)
    requires
        nul_only_last(s@),
    ensures
        r@ == c_units(s@),
{
    widestring::U16CString::from_str(s).unwrap().as_slice_with_nul().to_vec()
}

/// `widestring::U16Str::from_slice(units).to_string()`: the string whose UTF-16
/// encoding is `units`, or `None` when the units are not valid UTF-16.
#[verifier::external_body]
fn decode_utf16(units: &[u16]) -> (r: Option<String>)
    ensures
        r matches Some(s) ==> utf16_encode(s@) == units@,
        r is None <==> !(exists|c: Seq<char>| utf16_encode(c) == units@),
{
    widestring::U16Str::from_slice(units).to_string().ok()
}

/// The last UTF-16 unit of a character other than NUL is not zero.
proof fn lemma_units_last_nonzero(c: char)
    requires
        c != '\0',
    ensures
        utf16_units(c).len() > 0,
        utf16_units(c).last() != 0,
{
}

/// A text without NUL characters, written into an engine string, reads back:
/// the units that the string's text is read from are the text's own UTF-16
/// encoding.
pub proof fn lemma_text_reads_back(s: Seq<char>)
    requires
        s.len() > 0,
        forall|i: int| 0 <= i < s.len() ==> s[i] != '\0',
    ensures
        nul_only_last(s),
        text_units(c_units(s)) == utf16_encode(s),
{
    let u = utf16_encode(s);
    lemma_units_last_nonzero(s.last());
    assert(u == utf16_encode(s.drop_last()) + utf16_units(s.last()));
    assert(u.last() == utf16_units(s.last()).last());
    let w = u + seq![0u16];
    assert(w.drop_last() =~= u);
    assert(strip_zeros(w) == strip_zeros(u));
    assert(strip_zeros(u) == u);
}

impl TArray<u16> {
    /// The engine string of `value`: its UTF-16 units and a NUL terminator.
    pub fn from_str(value: &str) -> (r: FString)
        requires
            nul_only_last(value@),
            c_units(value@).len() <= 0x2000_0000,
        ensures
            r@ == c_units(value@),
            r.wf(),
    {
        let units = c_units_of(value);
        TArray::from_slice(units.as_slice())
    }

    /// The text of the string: its units up to the last non-zero one, decoded
    /// from UTF-16; `None` when they are not valid UTF-16.
    pub fn to_string(&self) -> (r: Option<String>)
        ensures
            r matches Some(s) ==> utf16_encode(s@) == text_units(self@),
            r is None <==> !(exists|c: Seq<char>| utf16_encode(c) == text_units(self@)),
    {
        let units = self.as_slice();
        let mut last = units.len();
        assert(units@.subrange(0, last as int) =~= units@);
        while last > 0 && units[last - 1] == 0
            invariant
                last <= units@.len(),
                strip_zeros(units@) == strip_zeros(units@.subrange(0, last as int)),
            decreases last,
        {
            assert(units@.subrange(0, last as int).drop_last() =~= units@.subrange(0, last - 1));
            last = last - 1;
        }
        assert(strip_zeros(units@.subrange(0, last as int)) == units@.subrange(0, last as int));
        if last == 0 {
            last = units.len();
        }
        let mut kept: Vec<u16> = Vec::new();
        let mut i: usize = 0;
        while i < last
            invariant
                i <= last <= units@.len(),
                kept@ == units@.subrange(0, i as int),
            decreases last - i,
        {
            kept.push(units[i]);
            i = i + 1;
            assert(kept@ =~= units@.subrange(0, i as int));
        }
        assert(kept@ =~= text_units(self@));
        decode_utf16(kept.as_slice())
    }
}

} // verus!
