//! The editor file-server ("cook-on-the-fly") wire protocol: checksummed
//! payload framing, length-prefixed strings and the request/reply messages.

use vstd::prelude::*;
use vstd::utf8::{decode_utf8, encode_utf8, valid_utf8};
use vstd::string::{StringSliceAdditionalSpecFns, StrSliceExecFns};
use crate::crc::{
    swap_bytes32, crc32_byte, crc32_register, crc32_bzip2, lemma_crc32_table_values,
    lemma_crc32_byte_split, lemma_swap_bytes32,
};
use crate::wire::{
    le_bytes, take_u8, take_u32, take_u64, take_bytes, next_u8, next_u32, next_u64, next_bytes,
    push_u8, push_u32, push_u64, push_bytes, lemma_le_bytes_len, lemma_take_u32_le_bytes,
    lemma_take_u64_le_bytes, lemma_take_u8_le_bytes,
};

verus! {

/// The checksum's lookup table, entry by entry.
pub open spec fn crc_table() -> Seq<u32> {
    seq![ 0x00000000, 0xb71dc104, 0x6e3b8209, 0xd926430d, 0xdc760413, 0x6b6bc517, 0xb24d861a, 0x0550471e, 0xb8ed0826, 0x0ff0c922, 0xd6d68a2f, 0x61cb4b2b, 0x649b0c35, 0xd386cd31, 0x0aa08e3c, 0xbdbd4f38, 0x70db114c, 0xc7c6d048, 0x1ee09345, 0xa9fd5241, 0xacad155f, 0x1bb0d45b, 0xc2969756, 0x758b5652, 0xc836196a, 0x7f2bd86e, 0xa60d9b63, 0x11105a67, 0x14401d79, 0xa35ddc7d, 0x7a7b9f70, 0xcd665e74, 0xe0b62398, 0x57abe29c, 0x8e8da191, 0x39906095, 0x3cc0278b, 0x8bdde68f, 0x52fba582, 0xe5e66486, 0x585b2bbe, 0xef46eaba, 0x3660a9b7, 0x817d68b3, 0x842d2fad, 0x3330eea9, 0xea16ada4, 0x5d0b6ca0, 0x906d32d4, 0x2770f3d0, 0xfe56b0dd, 0x494b71d9, 0x4c1b36c7, 0xfb06f7c3, 0x2220b4ce, 0x953d75ca, 0x28803af2, 0x9f9dfbf6, 0x46bbb8fb, 0xf1a679ff, 0xf4f63ee1, 0x43ebffe5, 0x9acdbce8, 0x2dd07dec, 0x77708634, 0xc06d4730, 0x194b043d, 0xae56c539, 0xab068227, 0x1c1b4323, 0xc53d002e, 0x7220c12a, 0xcf9d8e12, 0x78804f16, 0xa1a60c1b, 0x16bbcd1f, 0x13eb8a01, 0xa4f64b05, 0x7dd00808, 0xcacdc90c, 0x07ab9778, 0xb0b6567c, 0x69901571, 0xde8dd475, 0xdbdd936b, 0x6cc0526f, 0xb5e61162, 0x02fbd066, 0xbf469f5e, 0x085b5e5a, 0xd17d1d57, 0x6660dc53, 0x63309b4d, 0xd42d5a49, 0x0d0b1944, 0xba16d840, 0x97c6a5ac, 0x20db64a8, 0xf9fd27a5, 0x4ee0e6a1, 0x4bb0a1bf, 0xfcad60bb, 0x258b23b6, 0x9296e2b2, 0x2f2bad8a, 0x98366c8e, 0x41102f83, 0xf60dee87, 0xf35da999, 0x4440689d, 0x9d662b90, 0x2a7bea94, 0xe71db4e0, 0x500075e4, 0x892636e9, 0x3e3bf7ed, 0x3b6bb0f3, 0x8c7671f7, 0x555032fa, 0xe24df3fe, 0x5ff0bcc6, 0xe8ed7dc2, 0x31cb3ecf, 0x86d6ffcb, 0x8386b8d5, 0x349b79d1, 0xedbd3adc, 0x5aa0fbd8, 0xeee00c69, 0x59fdcd6d, 0x80db8e60, 0x37c64f64, 0x3296087a, 0x858bc97e, 0x5cad8a73, 0xebb04b77, 0x560d044f, 0xe110c54b, 0x38368646, 0x8f2b4742, 0x8a7b005c, 0x3d66c158, 0xe4408255, 0x535d4351, 0x9e3b1d25, 0x2926dc21, 0xf0009f2c, 0x471d5e28, 0x424d1936, 0xf550d832, 0x2c769b3f, 0x9b6b5a3b, 0x26d61503, 0x91cbd407, 0x48ed970a, 0xfff0560e, 0xfaa01110, 0x4dbdd014, 0x949b9319, 0x2386521d, 0x0e562ff1, 0xb94beef5, 0x606dadf8, 0xd7706cfc, 0xd2202be2, 0x653deae6, 0xbc1ba9eb, 0x0b0668ef, 0xb6bb27d7, 0x01a6e6d3, 0xd880a5de, 0x6f9d64da, 0x6acd23c4, 0xddd0e2c0, 0x04f6a1cd, 0xb3eb60c9, 0x7e8d3ebd, 0xc990ffb9, 0x10b6bcb4, 0xa7ab7db0, 0xa2fb3aae, 0x15e6fbaa, 0xccc0b8a7, 0x7bdd79a3, 0xc660369b, 0x717df79f, 0xa85bb492, 0x1f467596, 0x1a163288, 0xad0bf38c, 0x742db081, 0xc3307185, 0x99908a5d, 0x2e8d4b59, 0xf7ab0854, 0x40b6c950, 0x45e68e4e, 0xf2fb4f4a, 0x2bdd0c47, 0x9cc0cd43, 0x217d827b, 0x9660437f, 0x4f460072, 0xf85bc176, 0xfd0b8668, 0x4a16476c, 0x93300461, 0x242dc565, 0xe94b9b11, 0x5e565a15, 0x87701918, 0x306dd81c, 0x353d9f02, 0x82205e06, 0x5b061d0b, 0xec1bdc0f, 0x51a69337, 0xe6bb5233, 0x3f9d113e, 0x8880d03a, 0x8dd09724, 0x3acd5620, 0xe3eb152d, 0x54f6d429, 0x7926a9c5, 0xce3b68c1, 0x171d2bcc, 0xa000eac8, 0xa550add6, 0x124d6cd2, 0xcb6b2fdf, 0x7c76eedb, 0xc1cba1e3, 0x76d660e7, 0xaff023ea, 0x18ede2ee, 0x1dbda5f0, 0xaaa064f4, 0x738627f9, 0xc49be6fd, 0x09fdb889, 0xbee0798d, 0x67c63a80, 0xd0dbfb84, 0xd58bbc9a, 0x62967d9e, 0xbbb03e93, 0x0cadff97, 0xb110b0af, 0x060d71ab, 0xdf2b32a6, 0x6836f3a2, 0x6d66b4bc, 0xda7b75b8, 0x035d36b5, 0xb440f7b1]
}

/// Entry `i` of the checksum's lookup table.
fn crc_table_entry(i: usize) -> (r: u32)
    requires
        i < 256,
    ensures
        r == crc_table()[i as int],
{
    let table: [u32; 256] = [ 0x00000000, 0xb71dc104, 0x6e3b8209, 0xd926430d, 0xdc760413, 0x6b6bc517, 0xb24d861a, 0x0550471e, 0xb8ed0826, 0x0ff0c922, 0xd6d68a2f, 0x61cb4b2b, 0x649b0c35, 0xd386cd31, 0x0aa08e3c, 0xbdbd4f38, 0x70db114c, 0xc7c6d048, 0x1ee09345, 0xa9fd5241, 0xacad155f, 0x1bb0d45b, 0xc2969756, 0x758b5652, 0xc836196a, 0x7f2bd86e, 0xa60d9b63, 0x11105a67, 0x14401d79, 0xa35ddc7d, 0x7a7b9f70, 0xcd665e74, 0xe0b62398, 0x57abe29c, 0x8e8da191, 0x39906095, 0x3cc0278b, 0x8bdde68f, 0x52fba582, 0xe5e66486, 0x585b2bbe, 0xef46eaba, 0x3660a9b7, 0x817d68b3, 0x842d2fad, 0x3330eea9, 0xea16ada4, 0x5d0b6ca0, 0x906d32d4, 0x2770f3d0, 0xfe56b0dd, 0x494b71d9, 0x4c1b36c7, 0xfb06f7c3, 0x2220b4ce, 0x953d75ca, 0x28803af2, 0x9f9dfbf6, 0x46bbb8fb, 0xf1a679ff, 0xf4f63ee1, 0x43ebffe5, 0x9acdbce8, 0x2dd07dec, 0x77708634, 0xc06d4730, 0x194b043d, 0xae56c539, 0xab068227, 0x1c1b4323, 0xc53d002e, 0x7220c12a, 0xcf9d8e12, 0x78804f16, 0xa1a60c1b, 0x16bbcd1f, 0x13eb8a01, 0xa4f64b05, 0x7dd00808, 0xcacdc90c, 0x07ab9778, 0xb0b6567c, 0x69901571, 0xde8dd475, 0xdbdd936b, 0x6cc0526f, 0xb5e61162, 0x02fbd066, 0xbf469f5e, 0x085b5e5a, 0xd17d1d57, 0x6660dc53, 0x63309b4d, 0xd42d5a49, 0x0d0b1944, 0xba16d840, 0x97c6a5ac, 0x20db64a8, 0xf9fd27a5, 0x4ee0e6a1, 0x4bb0a1bf, 0xfcad60bb, 0x258b23b6, 0x9296e2b2, 0x2f2bad8a, 0x98366c8e, 0x41102f83, 0xf60dee87, 0xf35da999, 0x4440689d, 0x9d662b90, 0x2a7bea94, 0xe71db4e0, 0x500075e4, 0x892636e9, 0x3e3bf7ed, 0x3b6bb0f3, 0x8c7671f7, 0x555032fa, 0xe24df3fe, 0x5ff0bcc6, 0xe8ed7dc2, 0x31cb3ecf, 0x86d6ffcb, 0x8386b8d5, 0x349b79d1, 0xedbd3adc, 0x5aa0fbd8, 0xeee00c69, 0x59fdcd6d, 0x80db8e60, 0x37c64f64, 0x3296087a, 0x858bc97e, 0x5cad8a73, 0xebb04b77, 0x560d044f, 0xe110c54b, 0x38368646, 0x8f2b4742, 0x8a7b005c, 0x3d66c158, 0xe4408255, 0x535d4351, 0x9e3b1d25, 0x2926dc21, 0xf0009f2c, 0x471d5e28, 0x424d1936, 0xf550d832, 0x2c769b3f, 0x9b6b5a3b, 0x26d61503, 0x91cbd407, 0x48ed970a, 0xfff0560e, 0xfaa01110, 0x4dbdd014, 0x949b9319, 0x2386521d, 0x0e562ff1, 0xb94beef5, 0x606dadf8, 0xd7706cfc, 0xd2202be2, 0x653deae6, 0xbc1ba9eb, 0x0b0668ef, 0xb6bb27d7, 0x01a6e6d3, 0xd880a5de, 0x6f9d64da, 0x6acd23c4, 0xddd0e2c0, 0x04f6a1cd, 0xb3eb60c9, 0x7e8d3ebd, 0xc990ffb9, 0x10b6bcb4, 0xa7ab7db0, 0xa2fb3aae, 0x15e6fbaa, 0xccc0b8a7, 0x7bdd79a3, 0xc660369b, 0x717df79f, 0xa85bb492, 0x1f467596, 0x1a163288, 0xad0bf38c, 0x742db081, 0xc3307185, 0x99908a5d, 0x2e8d4b59, 0xf7ab0854, 0x40b6c950, 0x45e68e4e, 0xf2fb4f4a, 0x2bdd0c47, 0x9cc0cd43, 0x217d827b, 0x9660437f, 0x4f460072, 0xf85bc176, 0xfd0b8668, 0x4a16476c, 0x93300461, 0x242dc565, 0xe94b9b11, 0x5e565a15, 0x87701918, 0x306dd81c, 0x353d9f02, 0x82205e06, 0x5b061d0b, 0xec1bdc0f, 0x51a69337, 0xe6bb5233, 0x3f9d113e, 0x8880d03a, 0x8dd09724, 0x3acd5620, 0xe3eb152d, 0x54f6d429, 0x7926a9c5, 0xce3b68c1, 0x171d2bcc, 0xa000eac8, 0xa550add6, 0x124d6cd2, 0xcb6b2fdf, 0x7c76eedb, 0xc1cba1e3, 0x76d660e7, 0xaff023ea, 0x18ede2ee, 0x1dbda5f0, 0xaaa064f4, 0x738627f9, 0xc49be6fd, 0x09fdb889, 0xbee0798d, 0x67c63a80, 0xd0dbfb84, 0xd58bbc9a, 0x62967d9e, 0xbbb03e93, 0x0cadff97, 0xb110b0af, 0x060d71ab, 0xdf2b32a6, 0x6836f3a2, 0x6d66b4bc, 0xda7b75b8, 0x035d36b5, 0xb440f7b1];
    assert(table@ =~= crc_table());
    table[i]
}

/// One byte folded into the checksum register.
pub open spec fn crc_update(crc: u32, b: u8) -> u32 {
    (crc >> 8u32) ^ crc_table()[((crc & 0xFFu32) ^ (b as u32)) as int]
}

/// The checksum register after folding in `data`, starting from all ones.
pub open spec fn crc_register(data: Seq<u8>) -> u32
    decreases data.len(),
{
    if data.len() == 0 {
        !0u32
    } else {
        crc_update(crc_register(data.drop_last()), data.last())
    }
}

/// The checksum of `data` as it is sent on the wire.
pub open spec fn spec_crc(data: Seq<u8>) -> u32 {
    swap_bytes32(!crc_register(data))
}

/// Checksum of a payload.
pub fn calc_crc(data: &[u8]) -> (r: u32)
    ensures
        r == spec_crc(data@),
{
    let mut crc: u32 = !0u32;
    let mut i: usize = 0;
    while i < data.len()
        invariant
            i <= data@.len(),
            crc == crc_register(data@.subrange(0, i as int)),
        decreases data@.len() - i,
    {
        let b = data[i];
        let idx = (crc & 0xFFu32) ^ (b as u32);
        assert(idx < 256) by (bit_vector)
            requires
                idx == (crc & 0xFFu32) ^ (b as u32),
        ;
        crc = (crc >> 8u32) ^ crc_table_entry(idx as usize);
        proof {
            let pre = data@.subrange(0, i as int);
            let next = data@.subrange(0, i + 1);
            assert(next.drop_last() =~= pre);
            assert(next.last() == b);
        }
        i = i + 1;
    }
    assert(data@.subrange(0, data@.len() as int) =~= data@);
    let x = !crc;
    ((x & 0xFFu32) << 24u32) | ((x & 0xFF00u32) << 8u32) | ((x >> 8u32) & 0xFF00u32) | (x >> 24u32)
}

/// Entries 0 to 31 of the lookup table, as [`lemma_crc_table_entry`] states them.
#[verifier::rlimit(100)]
proof fn lemma_crc_table_entries_0_31(i: int)
    requires
        0 <= i < 32,
    ensures
        crc_table()[i] == swap_bytes32(crc32_byte(0, i as u8)),
{
    lemma_crc32_table_values();
    assert(
        i == 0 || i == 1 || i == 2 || i == 3 || i == 4 || i == 5 || i == 6 || i == 7 ||
        i == 8 || i == 9 || i == 10 || i == 11 || i == 12 || i == 13 || i == 14 || i == 15 ||
        i == 16 || i == 17 || i == 18 || i == 19 || i == 20 || i == 21 || i == 22 || i == 23 ||
        i == 24 || i == 25 || i == 26 || i == 27 || i == 28 || i == 29 || i == 30 || i == 31
    );
}

/// Entries 32 to 63 of the lookup table, as [`lemma_crc_table_entry`] states them.
#[verifier::rlimit(100)]
proof fn lemma_crc_table_entries_32_63(i: int)
    requires
        32 <= i < 64,
    ensures
        crc_table()[i] == swap_bytes32(crc32_byte(0, i as u8)),
{
    lemma_crc32_table_values();
    assert(
        i == 32 || i == 33 || i == 34 || i == 35 || i == 36 || i == 37 || i == 38 || i == 39 ||
        i == 40 || i == 41 || i == 42 || i == 43 || i == 44 || i == 45 || i == 46 || i == 47 ||
        i == 48 || i == 49 || i == 50 || i == 51 || i == 52 || i == 53 || i == 54 || i == 55 ||
        i == 56 || i == 57 || i == 58 || i == 59 || i == 60 || i == 61 || i == 62 || i == 63
    );
}

/// Entries 64 to 95 of the lookup table, as [`lemma_crc_table_entry`] states them.
#[verifier::rlimit(100)]
proof fn lemma_crc_table_entries_64_95(i: int)
    requires
        64 <= i < 96,
    ensures
        crc_table()[i] == swap_bytes32(crc32_byte(0, i as u8)),
{
    lemma_crc32_table_values();
    assert(
        i == 64 || i == 65 || i == 66 || i == 67 || i == 68 || i == 69 || i == 70 || i == 71 ||
        i == 72 || i == 73 || i == 74 || i == 75 || i == 76 || i == 77 || i == 78 || i == 79 ||
        i == 80 || i == 81 || i == 82 || i == 83 || i == 84 || i == 85 || i == 86 || i == 87 ||
        i == 88 || i == 89 || i == 90 || i == 91 || i == 92 || i == 93 || i == 94 || i == 95
    );
}

/// Entries 96 to 127 of the lookup table, as [`lemma_crc_table_entry`] states them.
#[verifier::rlimit(100)]
proof fn lemma_crc_table_entries_96_127(i: int)
    requires
        96 <= i < 128,
    ensures
        crc_table()[i] == swap_bytes32(crc32_byte(0, i as u8)),
{
    lemma_crc32_table_values();
    assert(
        i == 96 || i == 97 || i == 98 || i == 99 || i == 100 || i == 101 || i == 102 || i == 103 ||
        i == 104 || i == 105 || i == 106 || i == 107 || i == 108 || i == 109 || i == 110 || i == 111 ||
        i == 112 || i == 113 || i == 114 || i == 115 || i == 116 || i == 117 || i == 118 || i == 119 ||
        i == 120 || i == 121 || i == 122 || i == 123 || i == 124 || i == 125 || i == 126 || i == 127
    );
}

/// Entries 128 to 159 of the lookup table, as [`lemma_crc_table_entry`] states them.
#[verifier::rlimit(100)]
proof fn lemma_crc_table_entries_128_159(i: int)
    requires
        128 <= i < 160,
    ensures
        crc_table()[i] == swap_bytes32(crc32_byte(0, i as u8)),
{
    lemma_crc32_table_values();
    assert(
        i == 128 || i == 129 || i == 130 || i == 131 || i == 132 || i == 133 || i == 134 || i == 135 ||
        i == 136 || i == 137 || i == 138 || i == 139 || i == 140 || i == 141 || i == 142 || i == 143 ||
        i == 144 || i == 145 || i == 146 || i == 147 || i == 148 || i == 149 || i == 150 || i == 151 ||
        i == 152 || i == 153 || i == 154 || i == 155 || i == 156 || i == 157 || i == 158 || i == 159
    );
}

/// Entries 160 to 191 of the lookup table, as [`lemma_crc_table_entry`] states them.
#[verifier::rlimit(100)]
proof fn lemma_crc_table_entries_160_191(i: int)
    requires
        160 <= i < 192,
    ensures
        crc_table()[i] == swap_bytes32(crc32_byte(0, i as u8)),
{
    lemma_crc32_table_values();
    assert(
        i == 160 || i == 161 || i == 162 || i == 163 || i == 164 || i == 165 || i == 166 || i == 167 ||
        i == 168 || i == 169 || i == 170 || i == 171 || i == 172 || i == 173 || i == 174 || i == 175 ||
        i == 176 || i == 177 || i == 178 || i == 179 || i == 180 || i == 181 || i == 182 || i == 183 ||
        i == 184 || i == 185 || i == 186 || i == 187 || i == 188 || i == 189 || i == 190 || i == 191
    );
}

/// Entries 192 to 223 of the lookup table, as [`lemma_crc_table_entry`] states them.
#[verifier::rlimit(100)]
proof fn lemma_crc_table_entries_192_223(i: int)
    requires
        192 <= i < 224,
    ensures
        crc_table()[i] == swap_bytes32(crc32_byte(0, i as u8)),
{
    lemma_crc32_table_values();
    assert(
        i == 192 || i == 193 || i == 194 || i == 195 || i == 196 || i == 197 || i == 198 || i == 199 ||
        i == 200 || i == 201 || i == 202 || i == 203 || i == 204 || i == 205 || i == 206 || i == 207 ||
        i == 208 || i == 209 || i == 210 || i == 211 || i == 212 || i == 213 || i == 214 || i == 215 ||
        i == 216 || i == 217 || i == 218 || i == 219 || i == 220 || i == 221 || i == 222 || i == 223
    );
}

/// Entries 224 to 255 of the lookup table, as [`lemma_crc_table_entry`] states them.
#[verifier::rlimit(100)]
proof fn lemma_crc_table_entries_224_255(i: int)
    requires
        224 <= i < 256,
    ensures
        crc_table()[i] == swap_bytes32(crc32_byte(0, i as u8)),
{
    lemma_crc32_table_values();
    assert(
        i == 224 || i == 225 || i == 226 || i == 227 || i == 228 || i == 229 || i == 230 || i == 231 ||
        i == 232 || i == 233 || i == 234 || i == 235 || i == 236 || i == 237 || i == 238 || i == 239 ||
        i == 240 || i == 241 || i == 242 || i == 243 || i == 244 || i == 245 || i == 246 || i == 247 ||
        i == 248 || i == 249 || i == 250 || i == 251 || i == 252 || i == 253 || i == 254 || i == 255
    );
}

/// Entry `i` of the lookup table is byte `i` fed bit by bit into a zero
/// CRC-32 register, with the register's bytes reversed.
proof fn lemma_crc_table_entry(i: int)
    requires
        0 <= i < 256,
    ensures
        crc_table()[i] == swap_bytes32(crc32_byte(0, i as u8)),
{
    if i < 32 {
        lemma_crc_table_entries_0_31(i);
    } else if i < 64 {
        lemma_crc_table_entries_32_63(i);
    } else if i < 96 {
        lemma_crc_table_entries_64_95(i);
    } else if i < 128 {
        lemma_crc_table_entries_96_127(i);
    } else if i < 160 {
        lemma_crc_table_entries_128_159(i);
    } else if i < 192 {
        lemma_crc_table_entries_160_191(i);
    } else if i < 224 {
        lemma_crc_table_entries_192_223(i);
    } else {
        lemma_crc_table_entries_224_255(i);
    }
}

/// The table-driven register is the CRC-32 register with its bytes reversed.
proof fn lemma_crc_register_swapped(data: Seq<u8>)
    ensures
        crc_register(data) == swap_bytes32(crc32_register(data)),
    decreases data.len(),
{
    if data.len() == 0 {
        lemma_swap_bytes32(0, 0);
    } else {
        let pre = data.drop_last();
        let b = data.last();
        lemma_crc_register_swapped(pre);
        let m = crc32_register(pre);
        let idx = (m >> 24u32) ^ (b as u32);
        assert(idx < 256 && idx as u8 as u32 == idx) by (bit_vector)
            requires
                idx == (m >> 24u32) ^ (b as u32),
        ;
        lemma_swap_bytes32(m, 0);
        lemma_crc_table_entry(idx as int);
        lemma_crc32_byte_split(m, b);
        let t = crc32_byte(0, idx as u8);
        lemma_swap_bytes32(m << 8u32, t);
    }
}

/// The payload checksum is CRC-32/BZIP2: generator 0x04C11DB7, register
/// starting at all ones, bits fed most significant first, result
/// complemented.
pub proof fn lemma_crc_is_bzip2(data: Seq<u8>)
    ensures
        spec_crc(data) == crc32_bzip2(data),
{
    lemma_crc_register_swapped(data);
    let m = crc32_register(data);
    lemma_swap_bytes32(m, 0);
    lemma_swap_bytes32(!m, 0);
}

/// Errors of the wire protocol.
#[derive(Debug, PartialEq, Eq, Structural)]
pub enum PakError {
    /// The server answered the handshake with another message than its file list.
    UnexpectedReply,
    /// The data ended before a field was complete.
    UnexpectedEof,
    /// A frame did not start with the protocol's magic number.
    BadMagic(u32),
    /// A frame's checksum did not match its payload.
    BadCrc { announced: u32, computed: u32 },
    /// A message of a type that this side does not decode.
    UnknownMessageType(u32),
    /// A message of a kind that this side does not encode.
    UnsupportedMessage,
    /// A read reply announced a size other than the one requested.
    ShortRead { expected: u64, actual: u64 },
}

/// The bytes of `b` before its first NUL (all of `b` when it holds none).
pub open spec fn until_nul(b: Seq<u8>) -> Seq<u8>
    decreases b.len(),
{
    if b.len() == 0 {
        b
    } else if b[0] == 0 {
        Seq::empty()
    } else {
        seq![b[0]] + until_nul(b.drop_first())
    }
}

/// No byte of `b` is NUL.
pub open spec fn nul_free(b: Seq<u8>) -> bool {
    forall|i: int| 0 <= i < b.len() ==> b[i] != 0
}

/// Splits a length-prefixed string off the front of `b`: the text bytes before
/// the first NUL within the announced length, and what follows the string.
#[verifier::opaque]
pub open spec fn take_string(b: Seq<u8>) -> Option<(Seq<u8>, Seq<u8>)> {
    match take_u32(b) {
        None => None,
        Some((n, r)) => match take_bytes(r, n as nat) {
            None => None,
            Some((chars, rest)) => Some((until_nul(chars), rest)),
        },
    }
}

/// The encoding of a string whose UTF-8 bytes are `text`: an empty string is a
/// zero length alone, any other is its length counting a terminating NUL, the
/// bytes, and the NUL.
pub open spec fn wire_string(text: Seq<u8>) -> Seq<u8> {
    if text.len() == 0 {
        le_bytes(0, 4)
    } else {
        le_bytes((text.len() + 1) as nat, 4) + text + seq![0u8]
    }
}

/// What `String::from_utf8_lossy` makes of a byte sequence that is not valid UTF-8.
pub uninterp spec fn utf8_lossy_invalid(b: Seq<u8>) -> Seq<char>;

/// The text of a byte sequence read as UTF-8: the characters it encodes when it
/// is valid, else what the lossy conversion substitutes.
#[verifier::opaque]
pub open spec fn utf8_lossy(b: Seq<u8>) -> Seq<char> {
    if valid_utf8(b) {
        decode_utf8(b)
    } else {
        utf8_lossy_invalid(b)
    }
}

/// Calls `String::from_utf8_lossy`. Claimed: bytes that are valid UTF-8 give
/// exactly the characters they encode (as std documents), and the result of any
/// other bytes is a function of the bytes alone. Left unsaid: which replacement
/// characters stand for invalid sequences.
#[verifier::external_body]
pub(crate) fn string_from_utf8_lossy(b: &[u8]) -> (s: String)
    ensures
        valid_utf8(b@) ==> s@ == decode_utf8(b@),
        !valid_utf8(b@) ==> s@ == utf8_lossy_invalid(b@),
{
    String::from_utf8_lossy(b).into_owned()
}

/// The length of the NUL-free prefix of `chars`.
fn nul_free_prefix_len(chars: &[u8]) -> (k: usize)
    ensures
        k <= chars@.len(),
        chars@.take(k as int) == until_nul(chars@),
{
    let mut k: usize = 0;
    assert(chars@.take(0) =~= Seq::<u8>::empty());
    assert(chars@.skip(0) =~= chars@);
    while k < chars.len() && chars[k] != 0
        invariant
            k <= chars@.len(),
            until_nul(chars@) == chars@.take(k as int) + until_nul(chars@.skip(k as int)),
        decreases chars@.len() - k,
    {
        proof {
            let t = chars@.skip(k as int);
            assert(t.drop_first() =~= chars@.skip(k + 1));
            assert(chars@.take(k + 1) =~= chars@.take(k as int) + seq![chars@[k as int]]);
        }
        k = k + 1;
    }
    proof {
        if k == chars@.len() {
            assert(chars@.skip(k as int).len() == 0);
        }
        assert(until_nul(chars@.skip(k as int)) =~= Seq::<u8>::empty());
    }
    k
}

/// Reads a length-prefixed string at `pos`.
pub fn read_string(bytes: &[u8], pos: usize) -> (r: Result<(String, usize), PakError>)
    requires
        pos <= bytes@.len(),
    ensures
        match take_string(bytes@.skip(pos as int)) {
            None => r == Err::<(String, usize), PakError>(PakError::UnexpectedEof),
            Some((text, rest)) => r matches Ok((s, end)) && s@ == utf8_lossy(text)
                && end <= bytes@.len() && rest == bytes@.skip(end as int),
        },
{
    proof {
        reveal(take_string);
    }
    let (n, p1) = match next_u32(bytes, pos) {
        None => return Err(PakError::UnexpectedEof),
        Some(x) => x,
    };
    assert(bytes@.skip(pos as int).skip(4) =~= bytes@.skip(p1 as int));
    let (chars, p2) = match next_bytes(bytes, p1, n as usize) {
        None => return Err(PakError::UnexpectedEof),
        Some(x) => x,
    };
    let k = nul_free_prefix_len(chars.as_slice());
    let text = slice_prefix(chars.as_slice(), k);
    let s = string_from_utf8_lossy(text.as_slice());
    proof {
        reveal(utf8_lossy);
    }
    Ok((s, p2))
}

/// The first `k` bytes of `b`.
fn slice_prefix(b: &[u8], k: usize) -> (r: Vec<u8>)
    requires
        k <= b@.len(),
    ensures
        r@ == b@.take(k as int),
{
    let mut r: Vec<u8> = Vec::new();
    let mut i: usize = 0;
    while i < k
        invariant
            i <= k,
            k <= b@.len(),
            r@ == b@.take(i as int),
        decreases k - i,
    {
        r.push(b[i]);
        i = i + 1;
        assert(r@ =~= b@.take(i as int));
    }
    r
}

/// Writes `s` as a length-prefixed string.
pub fn write_string(out: &mut Vec<u8>, s: &str)
    requires
        s.spec_bytes().len() < u32::MAX,
    ensures
        final(out)@ == old(out)@ + wire_string(s.spec_bytes()),
{
    let bytes = s.as_bytes();
    if bytes.len() == 0 {
        push_u32(out, 0);
    } else {
        push_u32(out, bytes.len() as u32 + 1);
        push_bytes(out, bytes);
        push_u8(out, 0);
        proof {
            reveal_with_fuel(le_bytes, 2);
        }
    }
    assert(out@ =~= old(out)@ + wire_string(s.spec_bytes()));
}

/// A string whose text holds no NUL reads back as its text, leaving what followed.
pub proof fn lemma_take_wire_string(text: Seq<u8>, rest: Seq<u8>)
    requires
        nul_free(text),
        text.len() < u32::MAX,
    ensures
        take_string(wire_string(text) + rest) == Some((text, rest)),
{
    reveal(take_string);
    if text.len() == 0 {
        lemma_take_u32_le_bytes(0, rest);
        assert(until_nul(Seq::<u8>::empty()) == Seq::<u8>::empty());
        assert(rest.take(0) =~= Seq::<u8>::empty());
        assert(rest.skip(0) =~= rest);
    } else {
        let n = (text.len() + 1) as u32;
        let body = text + seq![0u8] + rest;
        assert(wire_string(text) + rest =~= le_bytes(n as nat, 4) + body);
        lemma_take_u32_le_bytes(n, body);
        assert(body.take(n as int) =~= text + seq![0u8]);
        assert(body.skip(n as int) =~= rest);
        lemma_until_nul_terminated(text);
    }
}

/// The NUL-free prefix of a NUL-free text followed by a NUL is the text.
pub proof fn lemma_until_nul_terminated(text: Seq<u8>)
    requires
        nul_free(text),
    ensures
        until_nul(text + seq![0u8]) == text,
    decreases text.len(),
{
    let t = text + seq![0u8];
    if text.len() == 0 {
        assert(t[0] == 0);
    } else {
        assert(t.drop_first() =~= text.drop_first() + seq![0u8]);
        lemma_until_nul_terminated(text.drop_first());
        assert(text =~= seq![text[0]] + text.drop_first());
    }
}

/// The UTF-8 encoding of characters other than NUL holds no NUL byte.
pub proof fn lemma_encode_utf8_nul_free(chars: Seq<char>)
    requires
        forall|i: int| 0 <= i < chars.len() ==> chars[i] != '\0',
    ensures
        nul_free(encode_utf8(chars)),
    decreases chars.len(),
{
    if chars.len() > 0 {
        let c = chars[0] as u32;
        vstd::utf8::char_is_scalar(chars[0]);
        vstd::utf8::char_u32_cast(chars[0], c);
        assert(chars[0] != '\0');
        assert(c != 0);
        let e = vstd::utf8::encode_scalar(c);
        assert(nul_free(e)) by {
            if vstd::utf8::has_width_1_encoding(c) {
                assert((c & 0x7F) as u8 != 0) by (bit_vector)
                    requires
                        0 < c <= 0x7F,
                ;
            } else {
                assert(forall|x: u32| (0xC0u8 | ((x >> 6u32) & 0x1Fu32) as u8) != 0) by (bit_vector);
                assert(forall|x: u32| (0xE0u8 | ((x >> 12u32) & 0x0Fu32) as u8) != 0) by (bit_vector);
                assert(forall|x: u32| (0xF0u8 | ((x >> 18u32) & 0x7u32) as u8) != 0) by (bit_vector);
                assert(forall|x: u32| (0x80u8 | (x & 0x3Fu32) as u8) != 0) by (bit_vector);
                assert(forall|x: u32| (0x80u8 | ((x >> 6u32) & 0x3Fu32) as u8) != 0) by (bit_vector);
                assert(forall|x: u32| (0x80u8 | ((x >> 12u32) & 0x3Fu32) as u8) != 0) by (bit_vector);
            }
        }
        lemma_encode_utf8_nul_free(chars.drop_first());
        assert(encode_utf8(chars) == e + encode_utf8(chars.drop_first()));
    }
}

/// The number every frame starts with.
pub const MAGIC: u32 = 0x9e2b83c1;

/// A payload framed for the wire: magic, length, checksum, payload.
pub open spec fn frame(payload: Seq<u8>) -> Seq<u8> {
    le_bytes(MAGIC as nat, 4) + le_bytes(payload.len(), 4) + le_bytes(spec_crc(payload) as nat, 4)
        + payload
}

/// Splits one frame off the front of `b`: its payload and what follows, or the
/// first error met reading it in order.
pub open spec fn take_payload(b: Seq<u8>) -> Result<(Seq<u8>, Seq<u8>), PakError> {
    match take_u32(b) {
        None => Err(PakError::UnexpectedEof),
        Some((m, r1)) => if m != MAGIC {
            Err(PakError::BadMagic(m))
        } else {
            match take_u32(r1) {
                None => Err(PakError::UnexpectedEof),
                Some((n, r2)) => match take_u32(r2) {
                    None => Err(PakError::UnexpectedEof),
                    Some((c, r3)) => match take_bytes(r3, n as nat) {
                        None => Err(PakError::UnexpectedEof),
                        Some((p, rest)) => if c != spec_crc(p) {
                            Err(PakError::BadCrc { announced: c, computed: spec_crc(p) })
                        } else {
                            Ok((p, rest))
                        },
                    },
                },
            }
        },
    }
}

/// Frames `payload` onto `out`.
pub fn write_payload(out: &mut Vec<u8>, payload: &[u8])
    requires
        payload@.len() <= u32::MAX,
    ensures
        final(out)@ == old(out)@ + frame(payload@),
{
    push_u32(out, MAGIC);
    push_u32(out, payload.len() as u32);
    push_u32(out, calc_crc(payload));
    push_bytes(out, payload);
    assert(out@ =~= old(out)@ + frame(payload@));
}

/// The payload length that a frame header announces, after checking the
/// header's magic: what a stream reader needs to know how much follows. A
/// wrong magic number is answered `BadMagic`, the fault [`frame_fault`] names.
pub fn frame_payload_len(header: &[u8]) -> (r: Result<u32, PakError>)
    ensures
        match take_u32(header@) {
            None => r == Err::<u32, PakError>(PakError::UnexpectedEof),
            Some((m, r1)) => if m != MAGIC {
                r == Err::<u32, PakError>(PakError::BadMagic(m))
            } else {
                match take_u32(r1) {
                    None => r == Err::<u32, PakError>(PakError::UnexpectedEof),
                    Some((n, _)) => r == Ok::<u32, PakError>(n),
                }
            },
        },
{
    assert(header@.skip(0) =~= header@);
    let (magic, p1) = match next_u32(header, 0) {
        None => return Err(PakError::UnexpectedEof),
        Some(x) => x,
    };
    if magic != MAGIC {
        return Err(PakError::BadMagic(magic));
    }
    match next_u32(header, p1) {
        None => Err(PakError::UnexpectedEof),
        Some((n, _)) => Ok(n),
    }
}

/// A frame that keeps the protocol: it does not start with a wrong magic
/// number, and it does not carry a payload whose checksum is wrong. Reading
/// any other frame stops the program.
pub open spec fn frame_intact(b: Seq<u8>) -> bool {
    &&& !(take_payload(b) matches Err(PakError::BadMagic(_)))
    &&& !(take_payload(b) matches Err(PakError::BadCrc { .. }))
}

/// How the frame at `pos` breaks the protocol: a wrong magic number or a wrong
/// checksum, the fault that reading it meets; `None` when it keeps the
/// protocol. A caller tests this before [`read_payload`] and stops on a fault.
pub fn frame_fault(bytes: &[u8], pos: usize) -> (r: Option<PakError>)
    requires
        pos <= bytes@.len(),
    ensures
        r is None <==> frame_intact(bytes@.skip(pos as int)),
        r matches Some(e) ==> take_payload(bytes@.skip(pos as int)) == Err::<(Seq<u8>, Seq<u8>), PakError>(e),
{
    match take_frame(bytes, pos) {
        Err(PakError::BadMagic(m)) => Some(PakError::BadMagic(m)),
        Err(PakError::BadCrc { announced, computed }) => Some(PakError::BadCrc { announced, computed }),
        _ => None,
    }
}

/// Reads one frame at `pos`: the payload and the position after it; the frame
/// must keep the protocol (see [`frame_fault`]).
pub fn read_payload(bytes: &[u8], pos: usize) -> (r: Result<(Vec<u8>, usize), PakError>)
    requires
        pos <= bytes@.len(),
        frame_intact(bytes@.skip(pos as int)),
    ensures
        match take_payload(bytes@.skip(pos as int)) {
            Err(e) => r == Err::<(Vec<u8>, usize), PakError>(e),
            Ok((p, rest)) => r matches Ok((v, end)) && v@ == p && end <= bytes@.len()
                && rest == bytes@.skip(end as int),
        },
{
    take_frame(bytes, pos)
}

/// Reads one frame at `pos`, with whatever fault it has.
fn take_frame(bytes: &[u8], pos: usize) -> (r: Result<(Vec<u8>, usize), PakError>)
    requires
        pos <= bytes@.len(),
    ensures
        match take_payload(bytes@.skip(pos as int)) {
            Err(e) => r == Err::<(Vec<u8>, usize), PakError>(e),
            Ok((p, rest)) => r matches Ok((v, end)) && v@ == p && end <= bytes@.len()
                && rest == bytes@.skip(end as int),
        },
{
    let (magic, p1) = match next_u32(bytes, pos) {
        None => return Err(PakError::UnexpectedEof),
        Some(x) => x,
    };
    if magic != MAGIC {
        return Err(PakError::BadMagic(magic));
    }
    let (len, p2) = match next_u32(bytes, p1) {
        None => return Err(PakError::UnexpectedEof),
        Some(x) => x,
    };
    let (crc, p3) = match next_u32(bytes, p2) {
        None => return Err(PakError::UnexpectedEof),
        Some(x) => x,
    };
    let (buf, p4) = match next_bytes(bytes, p3, len as usize) {
        None => return Err(PakError::UnexpectedEof),
        Some(x) => x,
    };
    let computed = calc_crc(buf.as_slice());
    if crc != computed {
        return Err(PakError::BadCrc { announced: crc, computed });
    }
    Ok((buf, p4))
}

/// A framed payload reads back as itself, leaving what followed.
#[verifier::spinoff_prover]
pub proof fn lemma_payload_roundtrip(payload: Seq<u8>, rest: Seq<u8>)
    requires
        payload.len() <= u32::MAX,
    ensures
        take_payload(frame(payload) + rest) == Ok::<(Seq<u8>, Seq<u8>), PakError>((payload, rest)),
{
    let c = spec_crc(payload);
    let n = payload.len() as u32;
    let r3 = payload + rest;
    let r2 = le_bytes(c as nat, 4) + r3;
    let r1 = le_bytes(n as nat, 4) + r2;
    assert(frame(payload) + rest =~= le_bytes(MAGIC as nat, 4) + r1);
    lemma_take_u32_le_bytes(MAGIC, r1);
    lemma_take_u32_le_bytes(n, r2);
    lemma_take_u32_le_bytes(c, r3);
    assert(r3.take(n as int) =~= payload);
    assert(r3.skip(n as int) =~= rest);
}

/// The encoding of a string with characters `s`.
#[verifier::opaque]
pub open spec fn wire_text(s: Seq<char>) -> Seq<u8> {
    wire_string(encode_utf8(s))
}

/// A string's characters survive being written and read: its UTF-8 fits a
/// length field and holds no NUL.
pub open spec fn transferable(s: Seq<char>) -> bool {
    &&& encode_utf8(s).len() < u32::MAX
    &&& forall|i: int| 0 <= i < s.len() ==> s[i] != '\0'
}

/// The encodings of a list of strings, one after another.
pub open spec fn wire_texts(v: Seq<String>) -> Seq<u8>
    decreases v.len(),
{
    if v.len() == 0 {
        Seq::empty()
    } else {
        wire_text(v[0]@) + wire_texts(v.drop_first())
    }
}

/// Splits `n` strings off the front of `b`.
pub open spec fn take_texts(b: Seq<u8>, n: nat) -> Option<(Seq<Seq<u8>>, Seq<u8>)>
    decreases n,
{
    if n == 0 {
        Some((Seq::empty(), b))
    } else {
        match take_string(b) {
            None => None,
            Some((t, r)) => match take_texts(r, (n - 1) as nat) {
                None => None,
                Some((ts, rest)) => Some((seq![t] + ts, rest)),
            },
        }
    }
}

proof fn lemma_wire_texts_snoc(v: Seq<String>, i: int)
    requires
        0 <= i < v.len(),
    ensures
        wire_texts(v.take(i + 1)) == wire_texts(v.take(i)) + wire_text(v[i]@),
    decreases i,
{
    if i == 0 {
        assert(v.take(1).drop_first() =~= Seq::<String>::empty());
        reveal_with_fuel(wire_texts, 2);
        assert(wire_texts(v.take(1)) =~= wire_text(v[0]@));
        assert(wire_texts(v.take(0)) =~= Seq::<u8>::empty());
    } else {
        let w = v.drop_first();
        lemma_wire_texts_snoc(w, i - 1);
        assert(v.take(i + 1).drop_first() =~= w.take(i));
        assert(v.take(i).drop_first() =~= w.take(i - 1));
        assert(wire_texts(v.take(i + 1)) =~= wire_text(v[0]@) + wire_texts(w.take(i)));
        assert(wire_texts(v.take(i)) =~= wire_text(v[0]@) + wire_texts(w.take(i - 1)));
    }
}

/// Writes a list of strings one after another (without a count).
fn write_texts(out: &mut Vec<u8>, v: &Vec<String>)
    requires
        forall|i: int| 0 <= i < v@.len() ==> encode_utf8(#[trigger] v@[i]@).len() < u32::MAX,
    ensures
        final(out)@ == old(out)@ + wire_texts(v@),
{
    proof {
        reveal(wire_text);
    }
    let mut i: usize = 0;
    assert(v@.take(0) =~= Seq::<String>::empty());
    while i < v.len()
        invariant
            i <= v@.len(),
            forall|j: int| 0 <= j < v@.len() ==> encode_utf8(#[trigger] v@[j]@).len() < u32::MAX,
            out@ == old(out)@ + wire_texts(v@.take(i as int)),
        decreases v@.len() - i,
    {
        let s = v[i].as_str();
        assert(s.spec_bytes() == encode_utf8(v@[i as int]@));
        proof {
            reveal(wire_text);
        }
        write_string(out, s);
        proof {
            lemma_wire_texts_snoc(v@, i as int);
        }
        i = i + 1;
        assert(out@ =~= old(out)@ + wire_texts(v@.take(i as int)));
    }
    assert(v@.take(v@.len() as int) =~= v@);
}

/// Reads `n` strings at `pos`.
fn read_texts(bytes: &[u8], pos: usize, n: u32) -> (r: Result<(Vec<String>, usize), PakError>)
    requires
        pos <= bytes@.len(),
    ensures
        match take_texts(bytes@.skip(pos as int), n as nat) {
            None => r == Err::<(Vec<String>, usize), PakError>(PakError::UnexpectedEof),
            Some((ts, rest)) => r matches Ok((v, end)) && v@.len() == ts.len()
                && (forall|i: int| 0 <= i < ts.len() ==> #[trigger] v@[i]@ == utf8_lossy(ts[i]))
                && end <= bytes@.len() && rest == bytes@.skip(end as int),
        },
{
    let mut v: Vec<String> = Vec::new();
    let mut p = pos;
    let mut i: u32 = 0;
    let ghost raws: Seq<Seq<u8>> = Seq::empty();
    while i < n
        invariant
            i <= n,
            p <= bytes@.len(),
            v@.len() == raws.len(),
            forall|j: int| 0 <= j < raws.len() ==> #[trigger] v@[j]@ == utf8_lossy(raws[j]),
            match take_texts(bytes@.skip(p as int), (n - i) as nat) {
                None => take_texts(bytes@.skip(pos as int), n as nat) is None,
                Some((ts, rest)) => take_texts(bytes@.skip(pos as int), n as nat) == Some(
                    (raws + ts, rest),
                ),
            },
        decreases n - i,
    {
        let ghost cur = bytes@.skip(p as int);
        match read_string(bytes, p) {
            Err(e) => {
                return Err(e);
            },
            Ok((s, end)) => {
                proof {
                    let (t, r) = take_string(cur)->0;
                    assert(r == bytes@.skip(end as int));
                    match take_texts(r, (n - i - 1) as nat) {
                        None => {},
                        Some((ts, rest)) => {
                            assert(raws + (seq![t] + ts) =~= (raws.push(t)) + ts);
                        },
                    }
                    raws = raws.push(t);
                }
                v.push(s);
                p = end;
                i = i + 1;
            },
        }
    }
    proof {
        assert(take_texts(bytes@.skip(p as int), 0) == Some((Seq::<Seq<u8>>::empty(), bytes@.skip(p as int))));
        assert(raws + Seq::<Seq<u8>>::empty() =~= raws);
    }
    Ok((v, p))
}

/// A transferable list of strings reads back as the encodings of its strings.
pub proof fn lemma_take_wire_texts(v: Seq<String>, rest: Seq<u8>)
    requires
        forall|i: int| 0 <= i < v.len() ==> transferable(#[trigger] v[i]@),
    ensures
        take_texts(wire_texts(v) + rest, v.len()) matches Some((ts, r)) && r == rest
            && ts.len() == v.len() && forall|i: int| 0 <= i < v.len() ==> #[trigger] ts[i]
            == encode_utf8(v[i]@),
    decreases v.len(),
{
    if v.len() > 0 {
        let w = v.drop_first();
        assert forall|i: int| 0 <= i < w.len() implies transferable(#[trigger] w[i]@) by {
            assert(w[i] == v[i + 1]);
        }
        lemma_take_wire_texts(w, rest);
        let tail = wire_texts(w) + rest;
        reveal(wire_text);
        assert(wire_texts(v) + rest =~= wire_string(encode_utf8(v[0]@)) + tail);
        lemma_encode_utf8_nul_free(v[0]@);
        lemma_take_wire_string(encode_utf8(v[0]@), tail);
        let (ts, r) = take_texts(tail, w.len())->0;
        let all = seq![encode_utf8(v[0]@)] + ts;
        assert forall|i: int| 0 <= i < v.len() implies #[trigger] all[i] == encode_utf8(v[i]@) by {
            if i > 0 {
                assert(all[i] == ts[i - 1]);
                assert(w[i - 1] == v[i]);
            }
        }
    }
}

/// A transferable string's encoding reads back as its characters.
pub proof fn lemma_text_roundtrip(s: Seq<char>, rest: Seq<u8>)
    requires
        transferable(s),
    ensures
        take_string(wire_text(s) + rest) == Some((encode_utf8(s), rest)),
        utf8_lossy(encode_utf8(s)) == s,
{
    reveal(wire_text);
    reveal(utf8_lossy);
    lemma_encode_utf8_nul_free(s);
    lemma_take_wire_string(encode_utf8(s), rest);
    vstd::utf8::encode_utf8_valid_utf8(s);
    vstd::utf8::encode_utf8_decode_utf8(s);
}

/// One file the server lists: its path and modification time.
#[derive(Debug)]
pub struct FileEntry {
    pub path: String,
    pub timestamp: u64,
}

/// Request to open a file for reading.
#[derive(Debug)]
pub struct MessageOpenRead {
    pub filename: String,
}

/// Request for a file's metadata.
#[derive(Debug)]
pub struct MessageFileInfo {
    pub file_name: String,
}

/// Request to read from an open file.
#[derive(Debug)]
pub struct MessageRead {
    pub handle_id: u64,
    pub bytes_to_read: u64,
}

impl MessageOpenRead {
    /// Writes the body of an open-read request: the file name.
    pub fn write(&self, out: &mut Vec<u8>)
        requires
            encode_utf8(self.filename@).len() < u32::MAX,
        ensures
            final(out)@ == old(out)@ + wire_text(self.filename@),
    {
        proof {
            reveal(wire_text);
        }
        write_string(out, self.filename.as_str());
    }
}

impl MessageFileInfo {
    /// Writes the body of a metadata request: the file name.
    pub fn write(&self, out: &mut Vec<u8>)
        requires
            encode_utf8(self.file_name@).len() < u32::MAX,
        ensures
            final(out)@ == old(out)@ + wire_text(self.file_name@),
    {
        proof {
            reveal(wire_text);
        }
        write_string(out, self.file_name.as_str());
    }
}

impl MessageRead {
    /// Writes the body of a read request: the handle and the number of bytes.
    pub fn write(&self, out: &mut Vec<u8>)
        ensures
            final(out)@ == old(out)@ + le_bytes(self.handle_id as nat, 8) + le_bytes(
                self.bytes_to_read as nat,
                8,
            ),
    {
        push_u64(out, self.handle_id);
        push_u64(out, self.bytes_to_read);
        assert(out@ =~= old(out)@ + le_bytes(self.handle_id as nat, 8) + le_bytes(
            self.bytes_to_read as nat,
            8,
        ));
    }
}

/// The server's list of the files it serves.
#[derive(Debug)]
pub struct MessageIterateDirectoryRecursively {
    pub files: Vec<FileEntry>,
}

/// The handshake that asks the server for its file list.
#[derive(Debug)]
pub struct MessageGetFileList {
    pub platforms: Vec<String>,
    pub game_name: String,
    pub engine_rel_path: String,
    pub game_rel_path: String,
    pub engine_platforms_extensions_dir: String,
    pub project_platforms_extensions_dir: String,
    pub engine_rel_plugin_path: String,
    pub game_rel_plugin_path: String,
    pub directories: Vec<String>,
    pub connection_flags: u8,
    pub version_info: String,
    pub host_address: String,
    pub custom_platform_data: u32,
}

/// The messages of the protocol.
#[derive(Debug)]
pub enum Message {
    SyncFile,
    DeleteFile,
    MoveFile,
    SetReadOnly,
    OpenRead(MessageOpenRead),
    OpenWrite,
    OpenAppend,
    CreateDirectory,
    DeleteDirectory,
    IterateDirectory,
    IterateDirectoryRecursively(MessageIterateDirectoryRecursively),
    DeleteDirectoryRecursively,
    CopyFile,
    GetFileInfo(MessageFileInfo),
    Read(MessageRead),
    Write,
    Close,
    Seek,
    SetTimeStamp,
    ToAbsolutePathForRead,
    ToAbsolutePathForWrite,
    ReportLocalFiles,
    GetFileList(Box<MessageGetFileList>),
    Heartbeat,
    RecompileShaders,
}

/// Every string of a file-list request fits its length field, and both lists fit theirs.
pub open spec fn file_list_writable(m: MessageGetFileList) -> bool {
    &&& m.platforms@.len() <= u32::MAX
    &&& m.directories@.len() <= u32::MAX
    &&& forall|i: int| 0 <= i < m.platforms@.len() ==> encode_utf8(#[trigger] m.platforms@[i]@).len() < u32::MAX
    &&& forall|i: int| 0 <= i < m.directories@.len() ==> encode_utf8(#[trigger] m.directories@[i]@).len() < u32::MAX
    &&& encode_utf8(m.game_name@).len() < u32::MAX
    &&& encode_utf8(m.engine_rel_path@).len() < u32::MAX
    &&& encode_utf8(m.game_rel_path@).len() < u32::MAX
    &&& encode_utf8(m.engine_platforms_extensions_dir@).len() < u32::MAX
    &&& encode_utf8(m.project_platforms_extensions_dir@).len() < u32::MAX
    &&& encode_utf8(m.engine_rel_plugin_path@).len() < u32::MAX
    &&& encode_utf8(m.game_rel_plugin_path@).len() < u32::MAX
    &&& encode_utf8(m.version_info@).len() < u32::MAX
    &&& encode_utf8(m.host_address@).len() < u32::MAX
}

/// The body of a file-list request.
#[verifier::opaque]
pub open spec fn file_list_bytes(m: MessageGetFileList) -> Seq<u8> {
    le_bytes(m.platforms@.len(), 4) + wire_texts(m.platforms@) + wire_text(m.game_name@)
        + wire_text(m.engine_rel_path@) + wire_text(m.game_rel_path@) + wire_text(
        m.engine_platforms_extensions_dir@,
    ) + wire_text(m.project_platforms_extensions_dir@) + wire_text(m.engine_rel_plugin_path@)
        + wire_text(m.game_rel_plugin_path@) + le_bytes(m.directories@.len(), 4) + wire_texts(
        m.directories@,
    ) + le_bytes(m.connection_flags as nat, 1) + wire_text(m.version_info@) + wire_text(
        m.host_address@,
    ) + le_bytes(m.custom_platform_data as nat, 4)
}

/// Every string of a file-list request is transferable and both lists fit their counts.
pub open spec fn file_list_transferable(m: MessageGetFileList) -> bool {
    &&& m.platforms@.len() <= u32::MAX
    &&& m.directories@.len() <= u32::MAX
    &&& forall|i: int| 0 <= i < m.platforms@.len() ==> transferable(#[trigger] m.platforms@[i]@)
    &&& forall|i: int| 0 <= i < m.directories@.len() ==> transferable(#[trigger] m.directories@[i]@)
    &&& transferable(m.game_name@)
    &&& transferable(m.engine_rel_path@)
    &&& transferable(m.game_rel_path@)
    &&& transferable(m.engine_platforms_extensions_dir@)
    &&& transferable(m.project_platforms_extensions_dir@)
    &&& transferable(m.engine_rel_plugin_path@)
    &&& transferable(m.game_rel_plugin_path@)
    &&& transferable(m.version_info@)
    &&& transferable(m.host_address@)
}

proof fn lemma_texts_read_back(v: Seq<String>, ts: Seq<Seq<u8>>)
    requires
        forall|i: int| 0 <= i < v.len() ==> transferable(#[trigger] v[i]@),
        ts.len() == v.len(),
        forall|i: int| 0 <= i < v.len() ==> #[trigger] ts[i] == encode_utf8(v[i]@),
    ensures
        texts_match(v, ts),
{
    assert forall|i: int| 0 <= i < ts.len() implies #[trigger] v[i]@ == utf8_lossy(ts[i]) by {
        lemma_text_roundtrip(v[i]@, Seq::empty());
    }
}

/// The written body of a file-list request, followed by `rest`, as its fields one after another.
proof fn lemma_file_list_bytes_nested(m: MessageGetFileList, rest: Seq<u8>)
    ensures
        file_list_bytes(m) + rest == le_bytes(m.platforms@.len(), 4) + (wire_texts(m.platforms@) + (wire_text(m.game_name@) + (wire_text(m.engine_rel_path@) + (wire_text(m.game_rel_path@) + (wire_text(m.engine_platforms_extensions_dir@) + (wire_text(m.project_platforms_extensions_dir@) + (wire_text(m.engine_rel_plugin_path@) + (wire_text(m.game_rel_plugin_path@) + (le_bytes(m.directories@.len(), 4) + (wire_texts(m.directories@) + (le_bytes(m.connection_flags as nat, 1) + (wire_text(m.version_info@) + (wire_text(m.host_address@) + (le_bytes(m.custom_platform_data as nat, 4) + (rest))))))))))))))),
{
    reveal(take_file_list);
    reveal(file_list_bytes);
    let r15 = rest;
    let r14 = le_bytes(m.custom_platform_data as nat, 4) + r15;
    let r13 = wire_text(m.host_address@) + r14;
    let r12 = wire_text(m.version_info@) + r13;
    let r11 = le_bytes(m.connection_flags as nat, 1) + r12;
    let r10 = wire_texts(m.directories@) + r11;
    let r9 = le_bytes(m.directories@.len(), 4) + r10;
    let r8 = wire_text(m.game_rel_plugin_path@) + r9;
    let r7 = wire_text(m.engine_rel_plugin_path@) + r8;
    let r6 = wire_text(m.project_platforms_extensions_dir@) + r7;
    let r5 = wire_text(m.engine_platforms_extensions_dir@) + r6;
    let r4 = wire_text(m.game_rel_path@) + r5;
    let r3 = wire_text(m.engine_rel_path@) + r4;
    let r2 = wire_text(m.game_name@) + r3;
    let r1 = wire_texts(m.platforms@) + r2;
    let r0 = le_bytes(m.platforms@.len(), 4) + r1;
    vstd::seq_lib::lemma_concat_associative((((((((((((((le_bytes(m.platforms@.len(), 4)) + wire_texts(m.platforms@)) + wire_text(m.game_name@)) + wire_text(m.engine_rel_path@)) + wire_text(m.game_rel_path@)) + wire_text(m.engine_platforms_extensions_dir@)) + wire_text(m.project_platforms_extensions_dir@)) + wire_text(m.engine_rel_plugin_path@)) + wire_text(m.game_rel_plugin_path@)) + le_bytes(m.directories@.len(), 4)) + wire_texts(m.directories@)) + le_bytes(m.connection_flags as nat, 1)) + wire_text(m.version_info@)) + wire_text(m.host_address@), le_bytes(m.custom_platform_data as nat, 4), r15);
    vstd::seq_lib::lemma_concat_associative(((((((((((((le_bytes(m.platforms@.len(), 4)) + wire_texts(m.platforms@)) + wire_text(m.game_name@)) + wire_text(m.engine_rel_path@)) + wire_text(m.game_rel_path@)) + wire_text(m.engine_platforms_extensions_dir@)) + wire_text(m.project_platforms_extensions_dir@)) + wire_text(m.engine_rel_plugin_path@)) + wire_text(m.game_rel_plugin_path@)) + le_bytes(m.directories@.len(), 4)) + wire_texts(m.directories@)) + le_bytes(m.connection_flags as nat, 1)) + wire_text(m.version_info@), wire_text(m.host_address@), r14);
    vstd::seq_lib::lemma_concat_associative((((((((((((le_bytes(m.platforms@.len(), 4)) + wire_texts(m.platforms@)) + wire_text(m.game_name@)) + wire_text(m.engine_rel_path@)) + wire_text(m.game_rel_path@)) + wire_text(m.engine_platforms_extensions_dir@)) + wire_text(m.project_platforms_extensions_dir@)) + wire_text(m.engine_rel_plugin_path@)) + wire_text(m.game_rel_plugin_path@)) + le_bytes(m.directories@.len(), 4)) + wire_texts(m.directories@)) + le_bytes(m.connection_flags as nat, 1), wire_text(m.version_info@), r13);
    vstd::seq_lib::lemma_concat_associative(((((((((((le_bytes(m.platforms@.len(), 4)) + wire_texts(m.platforms@)) + wire_text(m.game_name@)) + wire_text(m.engine_rel_path@)) + wire_text(m.game_rel_path@)) + wire_text(m.engine_platforms_extensions_dir@)) + wire_text(m.project_platforms_extensions_dir@)) + wire_text(m.engine_rel_plugin_path@)) + wire_text(m.game_rel_plugin_path@)) + le_bytes(m.directories@.len(), 4)) + wire_texts(m.directories@), le_bytes(m.connection_flags as nat, 1), r12);
    vstd::seq_lib::lemma_concat_associative((((((((((le_bytes(m.platforms@.len(), 4)) + wire_texts(m.platforms@)) + wire_text(m.game_name@)) + wire_text(m.engine_rel_path@)) + wire_text(m.game_rel_path@)) + wire_text(m.engine_platforms_extensions_dir@)) + wire_text(m.project_platforms_extensions_dir@)) + wire_text(m.engine_rel_plugin_path@)) + wire_text(m.game_rel_plugin_path@)) + le_bytes(m.directories@.len(), 4), wire_texts(m.directories@), r11);
    vstd::seq_lib::lemma_concat_associative(((((((((le_bytes(m.platforms@.len(), 4)) + wire_texts(m.platforms@)) + wire_text(m.game_name@)) + wire_text(m.engine_rel_path@)) + wire_text(m.game_rel_path@)) + wire_text(m.engine_platforms_extensions_dir@)) + wire_text(m.project_platforms_extensions_dir@)) + wire_text(m.engine_rel_plugin_path@)) + wire_text(m.game_rel_plugin_path@), le_bytes(m.directories@.len(), 4), r10);
    vstd::seq_lib::lemma_concat_associative((((((((le_bytes(m.platforms@.len(), 4)) + wire_texts(m.platforms@)) + wire_text(m.game_name@)) + wire_text(m.engine_rel_path@)) + wire_text(m.game_rel_path@)) + wire_text(m.engine_platforms_extensions_dir@)) + wire_text(m.project_platforms_extensions_dir@)) + wire_text(m.engine_rel_plugin_path@), wire_text(m.game_rel_plugin_path@), r9);
    vstd::seq_lib::lemma_concat_associative(((((((le_bytes(m.platforms@.len(), 4)) + wire_texts(m.platforms@)) + wire_text(m.game_name@)) + wire_text(m.engine_rel_path@)) + wire_text(m.game_rel_path@)) + wire_text(m.engine_platforms_extensions_dir@)) + wire_text(m.project_platforms_extensions_dir@), wire_text(m.engine_rel_plugin_path@), r8);
    vstd::seq_lib::lemma_concat_associative((((((le_bytes(m.platforms@.len(), 4)) + wire_texts(m.platforms@)) + wire_text(m.game_name@)) + wire_text(m.engine_rel_path@)) + wire_text(m.game_rel_path@)) + wire_text(m.engine_platforms_extensions_dir@), wire_text(m.project_platforms_extensions_dir@), r7);
    vstd::seq_lib::lemma_concat_associative(((((le_bytes(m.platforms@.len(), 4)) + wire_texts(m.platforms@)) + wire_text(m.game_name@)) + wire_text(m.engine_rel_path@)) + wire_text(m.game_rel_path@), wire_text(m.engine_platforms_extensions_dir@), r6);
    vstd::seq_lib::lemma_concat_associative((((le_bytes(m.platforms@.len(), 4)) + wire_texts(m.platforms@)) + wire_text(m.game_name@)) + wire_text(m.engine_rel_path@), wire_text(m.game_rel_path@), r5);
    vstd::seq_lib::lemma_concat_associative(((le_bytes(m.platforms@.len(), 4)) + wire_texts(m.platforms@)) + wire_text(m.game_name@), wire_text(m.engine_rel_path@), r4);
    vstd::seq_lib::lemma_concat_associative((le_bytes(m.platforms@.len(), 4)) + wire_texts(m.platforms@), wire_text(m.game_name@), r3);
    vstd::seq_lib::lemma_concat_associative(le_bytes(m.platforms@.len(), 4), wire_texts(m.platforms@), r2);
}

/// A file-list request whose strings hold no NUL and fit their length fields
/// reads back, from the bytes written for it, as a request with the same strings
/// and numbers, leaving what followed.
#[verifier::rlimit(100)]
pub proof fn lemma_file_list_roundtrip(m: MessageGetFileList, rest: Seq<u8>)
    requires
        file_list_transferable(m),
    ensures
        take_file_list(file_list_bytes(m) + rest) matches Some((raw, r)) && r == rest
            && file_list_read_as(m, raw),
{
    reveal(take_file_list);
    reveal(file_list_bytes);
    let r15 = rest;
    let r14 = le_bytes(m.custom_platform_data as nat, 4) + r15;
    let r13 = wire_text(m.host_address@) + r14;
    let r12 = wire_text(m.version_info@) + r13;
    let r11 = le_bytes(m.connection_flags as nat, 1) + r12;
    let r10 = wire_texts(m.directories@) + r11;
    let r9 = le_bytes(m.directories@.len(), 4) + r10;
    let r8 = wire_text(m.game_rel_plugin_path@) + r9;
    let r7 = wire_text(m.engine_rel_plugin_path@) + r8;
    let r6 = wire_text(m.project_platforms_extensions_dir@) + r7;
    let r5 = wire_text(m.engine_platforms_extensions_dir@) + r6;
    let r4 = wire_text(m.game_rel_path@) + r5;
    let r3 = wire_text(m.engine_rel_path@) + r4;
    let r2 = wire_text(m.game_name@) + r3;
    let r1 = wire_texts(m.platforms@) + r2;
    let r0 = le_bytes(m.platforms@.len(), 4) + r1;
    lemma_file_list_bytes_nested(m, rest);
    lemma_take_u32_le_bytes((m.platforms@.len() as u32), r1);
    assert(take_u32(r0) == Some(((m.platforms@.len() as u32), r1)));
    lemma_take_wire_texts(m.platforms@, r2);
    lemma_text_roundtrip(m.game_name@, r3);
    assert(take_string(r2) == Some((encode_utf8(m.game_name@), r3)));
    lemma_text_roundtrip(m.engine_rel_path@, r4);
    assert(take_string(r3) == Some((encode_utf8(m.engine_rel_path@), r4)));
    lemma_text_roundtrip(m.game_rel_path@, r5);
    assert(take_string(r4) == Some((encode_utf8(m.game_rel_path@), r5)));
    lemma_text_roundtrip(m.engine_platforms_extensions_dir@, r6);
    assert(take_string(r5) == Some((encode_utf8(m.engine_platforms_extensions_dir@), r6)));
    lemma_text_roundtrip(m.project_platforms_extensions_dir@, r7);
    assert(take_string(r6) == Some((encode_utf8(m.project_platforms_extensions_dir@), r7)));
    lemma_text_roundtrip(m.engine_rel_plugin_path@, r8);
    assert(take_string(r7) == Some((encode_utf8(m.engine_rel_plugin_path@), r8)));
    lemma_text_roundtrip(m.game_rel_plugin_path@, r9);
    assert(take_string(r8) == Some((encode_utf8(m.game_rel_plugin_path@), r9)));
    lemma_take_u32_le_bytes((m.directories@.len() as u32), r10);
    assert(take_u32(r9) == Some(((m.directories@.len() as u32), r10)));
    lemma_take_wire_texts(m.directories@, r11);
    lemma_take_u8_le_bytes(m.connection_flags, r12);
    assert(take_u8(r11) == Some((m.connection_flags, r12)));
    lemma_text_roundtrip(m.version_info@, r13);
    assert(take_string(r12) == Some((encode_utf8(m.version_info@), r13)));
    lemma_text_roundtrip(m.host_address@, r14);
    assert(take_string(r13) == Some((encode_utf8(m.host_address@), r14)));
    lemma_take_u32_le_bytes(m.custom_platform_data, r15);
    assert(take_u32(r14) == Some((m.custom_platform_data, r15)));
    let (pts, _) = take_texts(r1, m.platforms@.len())->0;
    let (dts, _) = take_texts(r10, m.directories@.len())->0;
    lemma_texts_read_back(m.platforms@, pts);
    lemma_texts_read_back(m.directories@, dts);
    let raw = RawFileList {
        platforms: pts,
        game_name: encode_utf8(m.game_name@),
        engine_rel_path: encode_utf8(m.engine_rel_path@),
        game_rel_path: encode_utf8(m.game_rel_path@),
        engine_platforms_extensions_dir: encode_utf8(m.engine_platforms_extensions_dir@),
        project_platforms_extensions_dir: encode_utf8(m.project_platforms_extensions_dir@),
        engine_rel_plugin_path: encode_utf8(m.engine_rel_plugin_path@),
        game_rel_plugin_path: encode_utf8(m.game_rel_plugin_path@),
        directories: dts,
        connection_flags: m.connection_flags,
        version_info: encode_utf8(m.version_info@),
        host_address: encode_utf8(m.host_address@),
        custom_platform_data: m.custom_platform_data,
    };
    assert(take_file_list(r0) == Some((raw, rest)));
    assert(file_list_read_as(m, raw));
}

/// A transferable file-list request, framed as a message, reads back as a
/// file-list request with the same strings and numbers, leaving what followed.
pub proof fn lemma_get_file_list_message_roundtrip(m: MessageGetFileList, rest: Seq<u8>)
    requires
        file_list_transferable(m),
        file_list_bytes(m).len() + 4 <= u32::MAX,
    ensures
        ({
            let bs = le_bytes(22, 4) + file_list_bytes(m);
            &&& message_bytes(Message::GetFileList(Box::new(m))) == Some(bs)
            &&& take_payload(frame(bs) + rest) == Ok::<(Seq<u8>, Seq<u8>), PakError>((bs, rest))
            &&& take_message(bs) matches Ok(RawMessage::GetFileList(raw)) && file_list_read_as(m, raw)
        }),
{
    let body = file_list_bytes(m);
    let bs = le_bytes(22, 4) + body;
    lemma_le_bytes_len(22, 4);
    lemma_payload_roundtrip(bs, rest);
    lemma_take_u32_le_bytes(22, body);
    assert(22u32 & 0xFFu32 == 22) by (bit_vector);
    lemma_file_list_roundtrip(m, Seq::empty());
    assert(body + Seq::<u8>::empty() =~= body);
}

/// A file-list request as read off the wire: the raw bytes of each string.
pub struct RawFileList {
    pub platforms: Seq<Seq<u8>>,
    pub game_name: Seq<u8>,
    pub engine_rel_path: Seq<u8>,
    pub game_rel_path: Seq<u8>,
    pub engine_platforms_extensions_dir: Seq<u8>,
    pub project_platforms_extensions_dir: Seq<u8>,
    pub engine_rel_plugin_path: Seq<u8>,
    pub game_rel_plugin_path: Seq<u8>,
    pub directories: Seq<Seq<u8>>,
    pub connection_flags: u8,
    pub version_info: Seq<u8>,
    pub host_address: Seq<u8>,
    pub custom_platform_data: u32,
}

/// Splits a file-list request body off the front of `b`.
#[verifier::opaque]
pub open spec fn take_file_list(b: Seq<u8>) -> Option<(RawFileList, Seq<u8>)> {
    match take_u32(b) {
        None => None,
        Some((np, b)) => match take_texts(b, np as nat) {
            None => None,
            Some((platforms, b)) => match take_string(b) {
                None => None,
                Some((game_name, b)) => match take_string(b) {
                    None => None,
                    Some((engine_rel_path, b)) => match take_string(b) {
                        None => None,
                        Some((game_rel_path, b)) => match take_string(b) {
                            None => None,
                            Some((engine_platforms_extensions_dir, b)) => match take_string(b) {
                                None => None,
                                Some((project_platforms_extensions_dir, b)) => match take_string(b) {
                                    None => None,
                                    Some((engine_rel_plugin_path, b)) => match take_string(b) {
                                        None => None,
                                        Some((game_rel_plugin_path, b)) => match take_u32(b) {
                                            None => None,
                                            Some((nd, b)) => match take_texts(b, nd as nat) {
                                                None => None,
                                                Some((directories, b)) => match take_u8(b) {
                                                    None => None,
                                                    Some((connection_flags, b)) => match take_string(b) {
                                                        None => None,
                                                        Some((version_info, b)) => match take_string(b) {
                                                            None => None,
                                                            Some((host_address, b)) => match take_u32(b) {
                                                                None => None,
                                                                Some((custom_platform_data, b)) => Some(
                                                                    (
                                                                        RawFileList {
                                                                            platforms,
                                                                            game_name,
                                                                            engine_rel_path,
                                                                            game_rel_path,
                                                                            engine_platforms_extensions_dir,
                                                                            project_platforms_extensions_dir,
                                                                            engine_rel_plugin_path,
                                                                            game_rel_plugin_path,
                                                                            directories,
                                                                            connection_flags,
                                                                            version_info,
                                                                            host_address,
                                                                            custom_platform_data,
                                                                        },
                                                                        b,
                                                                    ),
                                                                ),
                                                            },
                                                        },
                                                    },
                                                },
                                            },
                                        },
                                    },
                                },
                            },
                        },
                    },
                },
            },
        },
    }
}

/// Each string of `m` is the lossy text of the matching raw string.
pub open spec fn texts_match(v: Seq<String>, raw: Seq<Seq<u8>>) -> bool {
    &&& v.len() == raw.len()
    &&& forall|i: int| 0 <= i < raw.len() ==> #[trigger] v[i]@ == utf8_lossy(raw[i])
}

/// `m` is what reading `raw` gives.
pub open spec fn file_list_read_as(m: MessageGetFileList, raw: RawFileList) -> bool {
    &&& texts_match(m.platforms@, raw.platforms)
    &&& m.game_name@ == utf8_lossy(raw.game_name)
    &&& m.engine_rel_path@ == utf8_lossy(raw.engine_rel_path)
    &&& m.game_rel_path@ == utf8_lossy(raw.game_rel_path)
    &&& m.engine_platforms_extensions_dir@ == utf8_lossy(raw.engine_platforms_extensions_dir)
    &&& m.project_platforms_extensions_dir@ == utf8_lossy(raw.project_platforms_extensions_dir)
    &&& m.engine_rel_plugin_path@ == utf8_lossy(raw.engine_rel_plugin_path)
    &&& m.game_rel_plugin_path@ == utf8_lossy(raw.game_rel_plugin_path)
    &&& texts_match(m.directories@, raw.directories)
    &&& m.connection_flags == raw.connection_flags
    &&& m.version_info@ == utf8_lossy(raw.version_info)
    &&& m.host_address@ == utf8_lossy(raw.host_address)
    &&& m.custom_platform_data == raw.custom_platform_data
}

/// Two file-list requests carry the same strings and numbers.
pub open spec fn same_file_list(a: MessageGetFileList, b: MessageGetFileList) -> bool {
    &&& a.platforms@.len() == b.platforms@.len()
    &&& forall|i: int| 0 <= i < a.platforms@.len() ==> #[trigger] a.platforms@[i]@ == b.platforms@[i]@
    &&& a.game_name@ == b.game_name@
    &&& a.engine_rel_path@ == b.engine_rel_path@
    &&& a.game_rel_path@ == b.game_rel_path@
    &&& a.engine_platforms_extensions_dir@ == b.engine_platforms_extensions_dir@
    &&& a.project_platforms_extensions_dir@ == b.project_platforms_extensions_dir@
    &&& a.engine_rel_plugin_path@ == b.engine_rel_plugin_path@
    &&& a.game_rel_plugin_path@ == b.game_rel_plugin_path@
    &&& a.directories@.len() == b.directories@.len()
    &&& forall|i: int| 0 <= i < a.directories@.len() ==> #[trigger] a.directories@[i]@ == b.directories@[i]@
    &&& a.connection_flags == b.connection_flags
    &&& a.version_info@ == b.version_info@
    &&& a.host_address@ == b.host_address@
    &&& a.custom_platform_data == b.custom_platform_data
}

impl MessageGetFileList {
    /// Writes the request body.
    pub fn write(&self, out: &mut Vec<u8>)
        requires
            file_list_writable(*self),
        ensures
            final(out)@ == old(out)@ + file_list_bytes(*self),
    {
        proof {
            reveal(wire_text);
            reveal(file_list_bytes);
        }
        let mut body: Vec<u8> = Vec::new();
        push_u32(&mut body, self.platforms.len() as u32);
        assert(body@ =~= le_bytes(self.platforms@.len(), 4));
        write_texts(&mut body, &self.platforms);
        write_string(&mut body, self.game_name.as_str());
        write_string(&mut body, self.engine_rel_path.as_str());
        write_string(&mut body, self.game_rel_path.as_str());
        write_string(&mut body, self.engine_platforms_extensions_dir.as_str());
        write_string(&mut body, self.project_platforms_extensions_dir.as_str());
        write_string(&mut body, self.engine_rel_plugin_path.as_str());
        write_string(&mut body, self.game_rel_plugin_path.as_str());
        push_u32(&mut body, self.directories.len() as u32);
        write_texts(&mut body, &self.directories);
        push_u8(&mut body, self.connection_flags);
        write_string(&mut body, self.version_info.as_str());
        write_string(&mut body, self.host_address.as_str());
        push_u32(&mut body, self.custom_platform_data);
        assert(body@ == file_list_bytes(*self));
        out.append(&mut body);
    }

    /// Reads a request body at `pos`.
    pub fn read(bytes: &[u8], pos: usize) -> (r: Result<(MessageGetFileList, usize), PakError>)
        requires
            pos <= bytes@.len(),
        ensures
            match take_file_list(bytes@.skip(pos as int)) {
                None => r is Err && r->Err_0 == PakError::UnexpectedEof,
                Some((raw, rest)) => r matches Ok((m, end)) && file_list_read_as(m, raw)
                    && end <= bytes@.len() && rest == bytes@.skip(end as int),
            },
    {
        proof {
            reveal(take_file_list);
        }
        let (np, p) = match next_u32(bytes, pos) {
            None => return Err(PakError::UnexpectedEof),
            Some(x) => x,
        };
        let (platforms, p) = read_texts(bytes, p, np)?;
        let (game_name, p) = read_string(bytes, p)?;
        let (engine_rel_path, p) = read_string(bytes, p)?;
        let (game_rel_path, p) = read_string(bytes, p)?;
        let (engine_platforms_extensions_dir, p) = read_string(bytes, p)?;
        let (project_platforms_extensions_dir, p) = read_string(bytes, p)?;
        let (engine_rel_plugin_path, p) = read_string(bytes, p)?;
        let (game_rel_plugin_path, p) = read_string(bytes, p)?;
        let (nd, p) = match next_u32(bytes, p) {
            None => return Err(PakError::UnexpectedEof),
            Some(x) => x,
        };
        let (directories, p) = read_texts(bytes, p, nd)?;
        let (connection_flags, p) = match next_u8(bytes, p) {
            None => return Err(PakError::UnexpectedEof),
            Some(x) => x,
        };
        let (version_info, p) = read_string(bytes, p)?;
        let (host_address, p) = read_string(bytes, p)?;
        let (custom_platform_data, p) = match next_u32(bytes, p) {
            None => return Err(PakError::UnexpectedEof),
            Some(x) => x,
        };
        Ok((
            MessageGetFileList {
                platforms,
                game_name,
                engine_rel_path,
                game_rel_path,
                engine_platforms_extensions_dir,
                project_platforms_extensions_dir,
                engine_rel_plugin_path,
                game_rel_plugin_path,
                directories,
                connection_flags,
                version_info,
                host_address,
                custom_platform_data,
            },
            p,
        ))
    }
}

/// Splits `n` file entries (a path and a timestamp each) off the front of `b`.
pub open spec fn take_entries(b: Seq<u8>, n: nat) -> Option<(Seq<(Seq<u8>, u64)>, Seq<u8>)>
    decreases n,
{
    if n == 0 {
        Some((Seq::empty(), b))
    } else {
        match take_string(b) {
            None => None,
            Some((path, r)) => match take_u64(r) {
                None => None,
                Some((ts, r)) => match take_entries(r, (n - 1) as nat) {
                    None => None,
                    Some((es, rest)) => Some((seq![(path, ts)] + es, rest)),
                },
            },
        }
    }
}

/// Splits a file-list reply body off the front of `b`: a version, four
/// directory strings, then a counted list of file entries.
pub open spec fn take_iterate_directory(b: Seq<u8>) -> Option<(Seq<(Seq<u8>, u64)>, Seq<u8>)> {
    match take_u32(b) {
        None => None,
        Some((_version, b)) => match take_string(b) {
            None => None,
            Some((_d1, b)) => match take_string(b) {
                None => None,
                Some((_d2, b)) => match take_string(b) {
                    None => None,
                    Some((_d3, b)) => match take_string(b) {
                        None => None,
                        Some((_d4, b)) => match take_u32(b) {
                            None => None,
                            Some((n, b)) => take_entries(b, n as nat),
                        },
                    },
                },
            },
        },
    }
}

/// `files` is what reading the raw entries `raw` gives.
pub open spec fn entries_read_as(files: Seq<FileEntry>, raw: Seq<(Seq<u8>, u64)>) -> bool {
    &&& files.len() == raw.len()
    &&& forall|i: int| 0 <= i < raw.len() ==> #[trigger] files[i].path@ == utf8_lossy(raw[i].0)
        && files[i].timestamp == raw[i].1
}

/// Reads `n` file entries at `pos`.
fn read_entries(bytes: &[u8], pos: usize, n: u32) -> (r: Result<(Vec<FileEntry>, usize), PakError>)
    requires
        pos <= bytes@.len(),
    ensures
        match take_entries(bytes@.skip(pos as int), n as nat) {
            None => r == Err::<(Vec<FileEntry>, usize), PakError>(PakError::UnexpectedEof),
            Some((es, rest)) => r matches Ok((v, end)) && entries_read_as(v@, es)
                && end <= bytes@.len() && rest == bytes@.skip(end as int),
        },
{
    let mut v: Vec<FileEntry> = Vec::new();
    let mut p = pos;
    let mut i: u32 = 0;
    let ghost raws: Seq<(Seq<u8>, u64)> = Seq::empty();
    while i < n
        invariant
            i <= n,
            p <= bytes@.len(),
            entries_read_as(v@, raws),
            match take_entries(bytes@.skip(p as int), (n - i) as nat) {
                None => take_entries(bytes@.skip(pos as int), n as nat) is None,
                Some((es, rest)) => take_entries(bytes@.skip(pos as int), n as nat) == Some(
                    (raws + es, rest),
                ),
            },
        decreases n - i,
    {
        let ghost cur = bytes@.skip(p as int);
        let (path, p1) = read_string(bytes, p)?;
        let (timestamp, p2) = match next_u64(bytes, p1) {
            None => return Err(PakError::UnexpectedEof),
            Some(x) => x,
        };
        proof {
            let (t, r) = take_string(cur)->0;
            let (ts, r2) = take_u64(r)->0;
            assert(r2 == bytes@.skip(p2 as int));
            match take_entries(r2, (n - i - 1) as nat) {
                None => {},
                Some((es, rest)) => {
                    assert(raws + (seq![(t, ts)] + es) =~= (raws.push((t, ts))) + es);
                },
            }
            raws = raws.push((t, ts));
        }
        v.push(FileEntry { path, timestamp });
        p = p2;
        i = i + 1;
    }
    proof {
        assert(raws + Seq::<(Seq<u8>, u64)>::empty() =~= raws);
    }
    Ok((v, p))
}

impl MessageIterateDirectoryRecursively {
    /// Reads a file-list reply body at `pos`.
    pub fn read(bytes: &[u8], pos: usize) -> (r: Result<(MessageIterateDirectoryRecursively, usize), PakError>)
        requires
            pos <= bytes@.len(),
        ensures
            match take_iterate_directory(bytes@.skip(pos as int)) {
                None => r is Err && r->Err_0 == PakError::UnexpectedEof,
                Some((es, rest)) => r matches Ok((m, end)) && entries_read_as(m.files@, es)
                    && end <= bytes@.len() && rest == bytes@.skip(end as int),
            },
    {
        let (_version, p) = match next_u32(bytes, pos) {
            None => return Err(PakError::UnexpectedEof),
            Some(x) => x,
        };
        let (_local_engine_dir, p) = read_string(bytes, p)?;
        let (_local_project_dir, p) = read_string(bytes, p)?;
        let (_local_engine_platform_extensions, p) = read_string(bytes, p)?;
        let (_local_project_platform_extensions, p) = read_string(bytes, p)?;
        let (n, p) = match next_u32(bytes, p) {
            None => return Err(PakError::UnexpectedEof),
            Some(x) => x,
        };
        let (files, p) = read_entries(bytes, p, n)?;
        Ok((MessageIterateDirectoryRecursively { files }, p))
    }
}

/// A message as read off the wire.
pub enum RawMessage {
    IterateDirectoryRecursively(Seq<(Seq<u8>, u64)>),
    GetFileList(RawFileList),
}

/// Reads a message payload: a type word whose low byte selects the message,
/// then its body. Bytes after the body are ignored.
pub open spec fn take_message(b: Seq<u8>) -> Result<RawMessage, PakError> {
    match take_u32(b) {
        None => Err(PakError::UnexpectedEof),
        Some((t, r)) => if t & 0xFFu32 == 10 {
            match take_iterate_directory(r) {
                None => Err(PakError::UnexpectedEof),
                Some((es, _)) => Ok(RawMessage::IterateDirectoryRecursively(es)),
            }
        } else if t & 0xFFu32 == 22 {
            match take_file_list(r) {
                None => Err(PakError::UnexpectedEof),
                Some((raw, _)) => Ok(RawMessage::GetFileList(raw)),
            }
        } else {
            Err(PakError::UnknownMessageType(t & 0xFFu32))
        },
    }
}

/// The payload of a message, for the kinds this side sends.
pub open spec fn message_bytes(m: Message) -> Option<Seq<u8>> {
    match m {
        Message::OpenRead(o) => Some(le_bytes(4, 4) + wire_text(o.filename@)),
        Message::GetFileInfo(f) => Some(le_bytes(13, 4) + wire_text(f.file_name@)),
        Message::Read(rd) => Some(
            le_bytes(14, 4) + le_bytes(rd.handle_id as nat, 8) + le_bytes(rd.bytes_to_read as nat, 8),
        ),
        Message::GetFileList(l) => Some(le_bytes(22, 4) + file_list_bytes(*l)),
        _ => None,
    }
}

/// The protocol's number of a message kind: its place in the protocol's list
/// of kinds, from `SyncFile` (0) to `RecompileShaders` (24).
pub open spec fn protocol_number(m: Message) -> nat {
    match m {
        Message::SyncFile => 0,
        Message::DeleteFile => 1,
        Message::MoveFile => 2,
        Message::SetReadOnly => 3,
        Message::OpenRead(_) => 4,
        Message::OpenWrite => 5,
        Message::OpenAppend => 6,
        Message::CreateDirectory => 7,
        Message::DeleteDirectory => 8,
        Message::IterateDirectory => 9,
        Message::IterateDirectoryRecursively(_) => 10,
        Message::DeleteDirectoryRecursively => 11,
        Message::CopyFile => 12,
        Message::GetFileInfo(_) => 13,
        Message::Read(_) => 14,
        Message::Write => 15,
        Message::Close => 16,
        Message::Seek => 17,
        Message::SetTimeStamp => 18,
        Message::ToAbsolutePathForRead => 19,
        Message::ToAbsolutePathForWrite => 20,
        Message::ReportLocalFiles => 21,
        Message::GetFileList(_) => 22,
        Message::Heartbeat => 23,
        Message::RecompileShaders => 24,
    }
}

/// The requests this side sends are the open-read, file-info, read and
/// file-list requests, and each one's payload starts with its kind's protocol
/// number as a little-endian `u32`.
pub proof fn lemma_request_numbers(m: Message)
    ensures
        message_bytes(m) is Some <==> (m is OpenRead || m is GetFileInfo || m is Read || m is GetFileList),
        message_bytes(m) matches Some(bs) ==> bs.len() >= 4 && bs.subrange(0, 4) == le_bytes(
            protocol_number(m),
            4,
        ),
{
    lemma_le_bytes_len(protocol_number(m), 4);
    match message_bytes(m) {
        Some(bs) => {
            let head = le_bytes(protocol_number(m), 4);
            assert(bs.subrange(0, 4) =~= head);
        },
        None => {},
    }
}

/// A read request is its protocol number, then the handle and the byte count,
/// each as a little-endian `u64`.
pub proof fn lemma_read_request_bytes(r: MessageRead)
    ensures
        message_bytes(Message::Read(r)) == Some(
            le_bytes(protocol_number(Message::Read(r)), 4) + le_bytes(r.handle_id as nat, 8)
                + le_bytes(r.bytes_to_read as nat, 8),
        ),
{
}

/// A reply is recognised by the low byte of its type word, against the
/// protocol's numbering: a directory listing is number 10 and a file list
/// number 22; any other number is an unknown message type.
pub proof fn lemma_reply_numbers(n: u32, rest: Seq<u8>)
    ensures
        take_message(le_bytes(n as nat, 4) + rest) matches Ok(RawMessage::IterateDirectoryRecursively(_))
            ==> n % 256 == 10,
        take_message(le_bytes(n as nat, 4) + rest) matches Ok(RawMessage::GetFileList(_))
            ==> n % 256 == 22,
        n % 256 != 10 && n % 256 != 22 ==> take_message(le_bytes(n as nat, 4) + rest)
            == Err::<RawMessage, PakError>(PakError::UnknownMessageType(n % 256)),
{
    lemma_take_u32_le_bytes(n, rest);
    assert(n & 0xFFu32 == n % 256) by (bit_vector);
}

/// Every string and list of a message fits its length field.
pub open spec fn message_writable(m: Message) -> bool {
    match m {
        Message::OpenRead(o) => encode_utf8(o.filename@).len() < u32::MAX,
        Message::GetFileInfo(f) => encode_utf8(f.file_name@).len() < u32::MAX,
        Message::GetFileList(l) => file_list_writable(*l),
        _ => true,
    }
}

impl Message {
    /// Reads a message from its payload.
    pub fn read(payload: &[u8]) -> (r: Result<Message, PakError>)
        ensures
            match take_message(payload@) {
                Err(e) => r is Err && r->Err_0 == e,
                Ok(RawMessage::IterateDirectoryRecursively(es)) => r matches Ok(
                    Message::IterateDirectoryRecursively(m),
                ) && entries_read_as(m.files@, es),
                Ok(RawMessage::GetFileList(raw)) => r matches Ok(Message::GetFileList(m))
                    && file_list_read_as(*m, raw),
            },
    {
        assert(payload@.skip(0) =~= payload@);
        let (t, p) = match next_u32(payload, 0) {
            None => return Err(PakError::UnexpectedEof),
            Some(x) => x,
        };
        let kind = t & 0xFFu32;
        if kind == 10 {
            let (m, _) = MessageIterateDirectoryRecursively::read(payload, p)?;
            Ok(Message::IterateDirectoryRecursively(m))
        } else if kind == 22 {
            let (m, _) = MessageGetFileList::read(payload, p)?;
            Ok(Message::GetFileList(Box::new(m)))
        } else {
            Err(PakError::UnknownMessageType(kind))
        }
    }

    /// Writes the payload of a message; only requests this side sends are encoded.
    pub fn write(&self, out: &mut Vec<u8>) -> (r: Result<(), PakError>)
        requires
            message_writable(*self),
        ensures
            match message_bytes(*self) {
                None => r is Err && r->Err_0 == PakError::UnsupportedMessage && final(out)@ == old(out)@,
                Some(bs) => r is Ok && final(out)@ == old(out)@ + bs,
            },
    {
        match self {
            Message::OpenRead(m) => {
                push_u32(out, 4);
                m.write(out);
            },
            Message::GetFileInfo(m) => {
                push_u32(out, 13);
                m.write(out);
            },
            Message::Read(m) => {
                push_u32(out, 14);
                m.write(out);
            },
            Message::GetFileList(m) => {
                push_u32(out, 22);
                m.write(out);
            },
            _ => {
                return Err(PakError::UnsupportedMessage);
            },
        }
        proof {
            reveal(wire_text);
        }
        assert(out@ =~= old(out)@ + message_bytes(*self)->0);
        Ok(())
    }
}

/// Reads one framed message at `pos`: the message and the position after its frame.
pub fn read_message(bytes: &[u8], pos: usize) -> (r: Result<(Message, usize), PakError>)
    requires
        pos <= bytes@.len(),
        frame_intact(bytes@.skip(pos as int)),
    ensures
        match take_payload(bytes@.skip(pos as int)) {
            Err(e) => r is Err && r->Err_0 == e,
            Ok((p, rest)) => match take_message(p) {
                Err(e) => r is Err && r->Err_0 == e,
                Ok(RawMessage::IterateDirectoryRecursively(es)) => r matches Ok(
                    (Message::IterateDirectoryRecursively(m), end),
                ) && entries_read_as(m.files@, es) && rest == bytes@.skip(end as int) && end <= bytes@.len(),
                Ok(RawMessage::GetFileList(raw)) => r matches Ok((Message::GetFileList(m), end))
                    && file_list_read_as(*m, raw) && rest == bytes@.skip(end as int) && end <= bytes@.len(),
            },
        },
{
    let (payload, end) = read_payload(bytes, pos)?;
    let m = Message::read(payload.as_slice())?;
    Ok((m, end))
}

/// Frames one message onto `out`; only requests this side sends are encoded.
pub fn write_message(out: &mut Vec<u8>, message: &Message) -> (r: Result<(), PakError>)
    requires
        message_writable(*message),
        message_bytes(*message) matches Some(bs) ==> bs.len() <= u32::MAX,
    ensures
        match message_bytes(*message) {
            None => r is Err && r->Err_0 == PakError::UnsupportedMessage && final(out)@ == old(out)@,
            Some(bs) => r is Ok && final(out)@ == old(out)@ + frame(bs),
        },
{
    let mut payload: Vec<u8> = Vec::new();
    message.write(&mut payload)?;
    assert(payload@ =~= message_bytes(*message)->0);
    write_payload(out, payload.as_slice());
    Ok(())
}

/// A file's metadata as the server reports it.
#[derive(Debug, Default)]
pub struct FileInfo {
    pub file_exists: bool,
    pub read_only: bool,
    pub size: i64,
    pub timestamp: u64,
    pub access_timestamp: u64,
}

/// Reads a file-metadata reply: two flag words, a signed size and two timestamps.
pub open spec fn take_file_info(b: Seq<u8>) -> Option<FileInfo> {
    match take_u32(b) {
        None => None,
        Some((exists, b)) => match take_u32(b) {
            None => None,
            Some((read_only, b)) => match take_u64(b) {
                None => None,
                Some((size, b)) => match take_u64(b) {
                    None => None,
                    Some((timestamp, b)) => match take_u64(b) {
                        None => None,
                        Some((access_timestamp, _)) => Some(
                            FileInfo {
                                file_exists: exists != 0,
                                read_only: read_only != 0,
                                size: size as i64,
                                timestamp,
                                access_timestamp,
                            },
                        ),
                    },
                },
            },
        },
    }
}

impl FileInfo {
    /// Decodes the server's reply to a metadata request.
    pub fn from_reply(payload: &[u8]) -> (r: Result<FileInfo, PakError>)
        ensures
            match take_file_info(payload@) {
                None => r is Err && r->Err_0 == PakError::UnexpectedEof,
                Some(fi) => r is Ok && r->Ok_0 == fi,
            },
    {
        assert(payload@.skip(0) =~= payload@);
        let (exists, p) = match next_u32(payload, 0) {
            None => return Err(PakError::UnexpectedEof),
            Some(x) => x,
        };
        let (read_only, p) = match next_u32(payload, p) {
            None => return Err(PakError::UnexpectedEof),
            Some(x) => x,
        };
        let (size, p) = match next_u64(payload, p) {
            None => return Err(PakError::UnexpectedEof),
            Some(x) => x,
        };
        let (timestamp, p) = match next_u64(payload, p) {
            None => return Err(PakError::UnexpectedEof),
            Some(x) => x,
        };
        let (access_timestamp, _) = match next_u64(payload, p) {
            None => return Err(PakError::UnexpectedEof),
            Some(x) => x,
        };
        Ok(FileInfo {
            file_exists: exists != 0,
            read_only: read_only != 0,
            size: size as i64,
            timestamp,
            access_timestamp,
        })
    }
}

/// Reads the reply to an open request: handle, timestamp and file size.
pub open spec fn take_open_read_reply(b: Seq<u8>) -> Option<(u64, u64, u64)> {
    match take_u64(b) {
        None => None,
        Some((handle_id, b)) => match take_u64(b) {
            None => None,
            Some((timestamp, b)) => match take_u64(b) {
                None => None,
                Some((file_size, _)) => Some((handle_id, timestamp, file_size)),
            },
        },
    }
}

/// Decodes the reply to an open request into the handle, the timestamp and the file size.
pub fn open_read_reply(payload: &[u8]) -> (r: Result<(u64, u64, u64), PakError>)
    ensures
        match take_open_read_reply(payload@) {
            None => r is Err && r->Err_0 == PakError::UnexpectedEof,
            Some(t) => r is Ok && r->Ok_0 == t,
        },
{
    assert(payload@.skip(0) =~= payload@);
    let (handle_id, p) = match next_u64(payload, 0) {
        None => return Err(PakError::UnexpectedEof),
        Some(x) => x,
    };
    let (timestamp, p) = match next_u64(payload, p) {
        None => return Err(PakError::UnexpectedEof),
        Some(x) => x,
    };
    let (file_size, _) = match next_u64(payload, p) {
        None => return Err(PakError::UnexpectedEof),
        Some(x) => x,
    };
    Ok((handle_id, timestamp, file_size))
}

/// Decodes the reply to a read request for a whole file of `file_size` bytes:
/// the announced count, which must equal the size, then the contents.
pub fn read_reply(payload: &[u8], file_size: u64) -> (r: Result<Vec<u8>, PakError>)
    ensures
        match take_u64(payload@) {
            None => r is Err && r->Err_0 == PakError::UnexpectedEof,
            Some((n, rest)) => if n != file_size {
                r is Err && r->Err_0 == (PakError::ShortRead { expected: file_size, actual: n })
            } else {
                r is Ok && r->Ok_0@ == rest
            },
        },
{
    assert(payload@.skip(0) =~= payload@);
    let (bytes_read, p) = match next_u64(payload, 0) {
        None => return Err(PakError::UnexpectedEof),
        Some(x) => x,
    };
    if bytes_read != file_size {
        return Err(PakError::ShortRead { expected: file_size, actual: bytes_read });
    }
    match next_bytes(payload, p, payload.len() - p) {
        None => Err(PakError::UnexpectedEof),
        Some((contents, _)) => {
            assert(payload@.skip(p as int).take((payload@.len() - p) as int) =~= payload@.skip(p as int));
            Ok(contents)
        },
    }
}

/// The file server's address when none is configured.
pub fn default_host() -> (r: String)
    ensures
        r@ == "127.0.0.1:41899"@,
{
    "127.0.0.1:41899".to_string()
}

/// The default of a layer's `enable` setting.
pub fn return_true() -> (r: bool)
    ensures
        r,
{
    true
}

/// The handshake asking the server for the files of `platform` under the game's content folder.
pub fn file_list_request(platform: &str) -> (r: MessageGetFileList)
    ensures
        r.platforms@.len() == 1,
        r.platforms@[0]@ == platform@,
        r.game_name@ == "../../../FSD/FSD.uproject"@,
        r.engine_rel_path@ == "../../../Engine/"@,
        r.game_rel_path@ == "../../../FSD/"@,
        r.engine_platforms_extensions_dir@ == "../../../Engine/Platforms/"@,
        r.project_platforms_extensions_dir@ == "../../../FSD/Platforms/"@,
        r.engine_rel_plugin_path@ == "../../../Engine/Plugins/"@,
        r.game_rel_plugin_path@ == "../../../FSD/Plugins/"@,
        r.directories@.len() == 1,
        r.directories@[0]@ == "../../../FSD/Content/"@,
        r.connection_flags == 1,
        r.version_info@ == ""@,
        r.host_address@ == ""@,
        r.custom_platform_data == 0,
{
    let mut platforms: Vec<String> = Vec::new();
    platforms.push(platform.to_string());
    let mut directories: Vec<String> = Vec::new();
    directories.push("../../../FSD/Content/".to_string());
    MessageGetFileList {
        platforms,
        game_name: "../../../FSD/FSD.uproject".to_string(),
        engine_rel_path: "../../../Engine/".to_string(),
        game_rel_path: "../../../FSD/".to_string(),
        engine_platforms_extensions_dir: "../../../Engine/Platforms/".to_string(),
        project_platforms_extensions_dir: "../../../FSD/Platforms/".to_string(),
        engine_rel_plugin_path: "../../../Engine/Plugins/".to_string(),
        game_rel_plugin_path: "../../../FSD/Plugins/".to_string(),
        directories,
        connection_flags: 1,
        version_info: "".to_string(),
        host_address: "".to_string(),
        custom_platform_data: 0,
    }
}

/// The file list carried by the reply to the handshake; any other message is refused.
pub fn files_from_reply(reply: Message) -> (r: Result<Vec<FileEntry>, PakError>)
    ensures
        match reply {
            Message::IterateDirectoryRecursively(m) => r is Ok && r->Ok_0 == m.files,
            _ => r is Err && r->Err_0 == PakError::UnexpectedReply,
        },
{
    match reply {
        Message::IterateDirectoryRecursively(m) => Ok(m.files),
        _ => Err(PakError::UnexpectedReply),
    }
}

/// The prefix that paths the game asks for carry relative to its binaries.
pub open spec fn mount_prefix() -> Seq<char> {
    "../../../"@
}

/// The path below the game's mount point, when `name` starts with the mount prefix.
pub fn strip_mount_prefix(name: &str) -> (r: Option<String>)
    ensures
        r is Some <==> (name@.len() >= 9 && name@.take(9) == mount_prefix()),
        r matches Some(s) ==> s@ == name@.skip(9),
{
    let prefix = "../../../";
    proof {
        reveal_strlit("../../../");
    }
    let n = name.unicode_len();
    if n < 9 {
        return None;
    }
    let mut i: usize = 0;
    while i < 9
        invariant
            i <= 9,
            n == name@.len(),
            n >= 9,
            prefix@ == mount_prefix(),
            prefix@.len() == 9,
            forall|j: int| 0 <= j < i ==> name@[j] == prefix@[j],
        decreases 9 - i,
    {
        if name.get_char(i) != prefix.get_char(i) {
            proof {
                assert(name@.take(9)[i as int] != mount_prefix()[i as int]);
            }
            return None;
        }
        i = i + 1;
    }
    assert(name@.take(9) =~= mount_prefix());
    let rest = name.substring_char(9, n);
    assert(rest@ =~= name@.skip(9));
    Some(rest.to_string())
}

#[verifier::external_type_specification]
#[verifier::external_body]
pub struct ExGlobPattern(glob::Pattern);

/// Whether `glob::Pattern::new` accepts a pattern.
pub uninterp spec fn glob_pattern_valid(pattern: Seq<char>) -> bool;

/// Whether the pattern compiled from `pattern` matches `path` (`glob::Pattern::matches`).
pub uninterp spec fn glob_matches(pattern: Seq<char>, path: Seq<char>) -> bool;

/// A compiled glob pattern together with the text it was compiled from.
pub struct Glob {
    source: String,
    compiled: glob::Pattern,
}

impl View for Glob {
    type V = Seq<char>;

    closed spec fn view(&self) -> Seq<char> {
        self.source@
    }
}

/// Calls `glob::Pattern::new`. Claimed: whether it succeeds is a function of the
/// pattern text alone, and a success keeps that text beside the compiled pattern.
#[verifier::external_body]
fn compile_glob(pattern: &str) -> (r: Option<Glob>)
    ensures
        r is Some <==> glob_pattern_valid(pattern@),
        r matches Some(g) ==> g@ == pattern@,
{
    glob::Pattern::new(pattern).ok().map(|compiled| Glob { source: pattern.to_string(), compiled })
}

/// Calls `glob::Pattern::matches`. Claimed: the answer is a function of the
/// pattern text and the path alone (a `Glob` only ever holds the pattern
/// compiled from its own text).
#[verifier::external_body]
fn glob_match(g: &Glob, path: &str) -> (r: bool)
    ensures
        r == glob_matches(g@, path@),
{
    g.compiled.matches(path)
}

/// The patterns among `sources` that compile, in order.
pub open spec fn valid_globs(sources: Seq<String>) -> Seq<Seq<char>>
    decreases sources.len(),
{
    if sources.len() == 0 {
        Seq::empty()
    } else if glob_pattern_valid(sources.last()@) {
        valid_globs(sources.drop_last()).push(sources.last()@)
    } else {
        valid_globs(sources.drop_last())
    }
}

/// Some pattern of `globs` matches `path`.
pub open spec fn any_glob_matches(globs: Seq<Seq<char>>, path: Seq<char>) -> bool {
    exists|i: int| 0 <= i < globs.len() && glob_matches(#[trigger] globs[i], path)
}

/// Compiles the patterns that compile, dropping the others.
pub fn compile_globs(sources: &Vec<String>) -> (r: Vec<Glob>)
    ensures
        r@.len() == valid_globs(sources@).len(),
        forall|i: int| 0 <= i < r@.len() ==> #[trigger] r@[i]@ == valid_globs(sources@)[i],
{
    let mut r: Vec<Glob> = Vec::new();
    let mut i: usize = 0;
    while i < sources.len()
        invariant
            i <= sources@.len(),
            r@.len() == valid_globs(sources@.take(i as int)).len(),
            forall|j: int| 0 <= j < r@.len() ==> #[trigger] r@[j]@ == valid_globs(sources@.take(i as int))[j],
        decreases sources@.len() - i,
    {
        let ghost before = sources@.take(i as int);
        let ghost after = sources@.take(i + 1);
        assert(after.drop_last() =~= before);
        assert(after.last() == sources@[i as int]);
        match compile_glob(sources[i].as_str()) {
            Some(g) => {
                r.push(g);
            },
            None => {},
        }
        i = i + 1;
    }
    assert(sources@.take(sources@.len() as int) =~= sources@);
    r
}

/// Whether any of `globs` matches `path`.
pub fn globs_match(globs: &Vec<Glob>, path: &str) -> (r: bool)
    ensures
        r == exists|i: int| 0 <= i < globs@.len() && glob_matches(#[trigger] globs@[i]@, path@),
{
    let mut i: usize = 0;
    while i < globs.len()
        invariant
            i <= globs@.len(),
            forall|j: int| 0 <= j < i ==> !glob_matches(#[trigger] globs@[j]@, path@),
        decreases globs@.len() - i,
    {
        if glob_match(&globs[i], path) {
            return true;
        }
        i = i + 1;
    }
    false
}

/// Where a plain-file layer serves files from, and which paths it serves.
#[derive(Debug)]
pub struct PlainFileProviderConfig {
    pub path: String,
    pub globs: Vec<String>,
}

/// A layer that serves files from a directory on disk.
pub struct PlainFileProvider {
    path: String,
    globs: Vec<Glob>,
}

impl PlainFileProviderConfig {
    /// Builds the layer this configuration describes.
    pub fn build(self) -> (r: Result<PlainFileProvider, PakError>)
        ensures
            r is Ok,
            r matches Ok(p) ==> p.root() == self.path@ && p.patterns() == valid_globs(self.globs@),
    {
        PlainFileProvider::new(self)
    }
}

impl PlainFileProvider {
    /// The directory this layer serves files from.
    pub closed spec fn root(&self) -> Seq<char> {
        self.path@
    }

    /// The directory this layer serves files from.
    pub fn path(&self) -> (r: &String)
        ensures
            r@ == self.root(),
    {
        &self.path
    }

    /// The texts of the patterns this layer serves.
    pub closed spec fn patterns(&self) -> Seq<Seq<char>> {
        Seq::new(self.globs@.len(), |i: int| self.globs@[i]@)
    }

    /// Builds the layer: the directory, and the configured patterns that compile
    /// (the others are dropped).
    pub fn new(config: PlainFileProviderConfig) -> (r: Result<PlainFileProvider, PakError>)
        ensures
            r is Ok,
            r matches Ok(p) ==> p.root() == config.path@ && p.patterns() == valid_globs(config.globs@),
    {
        let globs = compile_globs(&config.globs);
        let p = PlainFileProvider { path: config.path, globs };
        assert(p.patterns() =~= valid_globs(config.globs@));
        Ok(p)
    }

    /// Whether this layer serves `path`: some pattern matches it.
    pub fn matches(&self, path: &str) -> (r: bool)
        ensures
            r == any_glob_matches(self.patterns(), path@),
    {
        let r = globs_match(&self.globs, path);
        proof {
            if r {
                let i = choose|i: int| 0 <= i < self.globs@.len() && glob_matches(#[trigger] self.globs@[i]@, path@);
                assert(self.patterns()[i] == self.globs@[i]@);
            } else {
                assert forall|i: int| 0 <= i < self.patterns().len() implies !glob_matches(#[trigger] self.patterns()[i], path@) by {
                    assert(self.patterns()[i] == self.globs@[i]@);
                }
            }
        }
        r
    }
}

/// The layer that serves a path, given which layers match it: the first that
/// matches; `None` when none does.
pub fn serving_layer(matches: &[bool]) -> (r: Option<usize>)
    ensures
        r matches Some(i) ==> i < matches@.len() && matches@[i as int] && forall|j: int|
            0 <= j < i ==> !matches@[j],
        r is None <==> forall|j: int| 0 <= j < matches@.len() ==> !matches@[j],
{
    let mut i: usize = 0;
    while i < matches.len()
        invariant
            i <= matches@.len(),
            forall|j: int| 0 <= j < i ==> !matches@[j],
        decreases matches@.len() - i,
    {
        if matches[i] {
            return Some(i);
        }
        i = i + 1;
    }
    None
}

} // verus!
