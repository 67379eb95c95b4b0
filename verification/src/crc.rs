//! CRC-32/BZIP2 defined bit by bit: the generator polynomial 0x04C11DB7, the
//! register starting at all ones, bits fed most significant first, and the
//! result complemented. The definitions are closed, so that proofs elsewhere
//! reason about them through the lemmas here.

use vstd::prelude::*;

verus! {

/// The bytes of `x` in reverse order.
pub open spec fn swap_bytes32(x: u32) -> u32 {
    ((x & 0xFFu32) << 24u32) | ((x & 0xFF00u32) << 8u32) | ((x >> 8u32) & 0xFF00u32) | (x >> 24u32)
}

/// One bit shifted through the register, most significant bit first.
pub closed spec fn crc32_bit(r: u32) -> u32 {
    if r & 0x8000_0000u32 != 0 {
        (r << 1u32) ^ 0x04C1_1DB7u32
    } else {
        r << 1u32
    }
}

/// One byte fed into the register, most significant bit first.
pub closed spec fn crc32_byte(r: u32, b: u8) -> u32 {
    crc32_bit(
        crc32_bit(
            crc32_bit(crc32_bit(crc32_bit(crc32_bit(crc32_bit(crc32_bit(r ^ ((b as u32) << 24u32))))))),
        ),
    )
}

/// The register after `data`, starting from all ones.
pub open spec fn crc32_register(data: Seq<u8>) -> u32
    decreases data.len(),
{
    if data.len() == 0 {
        !0u32
    } else {
        crc32_byte(crc32_register(data.drop_last()), data.last())
    }
}

/// CRC-32/BZIP2 of `data`.
pub open spec fn crc32_bzip2(data: Seq<u8>) -> u32 {
    !crc32_register(data)
}

/// Each byte fed into a zero register, with the register's bytes reversed:
/// the 256 entries of a byte-reversed lookup table.
pub proof fn lemma_crc32_table_values()
    ensures
        swap_bytes32(crc32_byte(0, 0u8)) == 0x00000000u32 &&
        swap_bytes32(crc32_byte(0, 1u8)) == 0xb71dc104u32 &&
        swap_bytes32(crc32_byte(0, 2u8)) == 0x6e3b8209u32 &&
        swap_bytes32(crc32_byte(0, 3u8)) == 0xd926430du32 &&
        swap_bytes32(crc32_byte(0, 4u8)) == 0xdc760413u32 &&
        swap_bytes32(crc32_byte(0, 5u8)) == 0x6b6bc517u32 &&
        swap_bytes32(crc32_byte(0, 6u8)) == 0xb24d861au32 &&
        swap_bytes32(crc32_byte(0, 7u8)) == 0x0550471eu32 &&
        swap_bytes32(crc32_byte(0, 8u8)) == 0xb8ed0826u32 &&
        swap_bytes32(crc32_byte(0, 9u8)) == 0x0ff0c922u32 &&
        swap_bytes32(crc32_byte(0, 10u8)) == 0xd6d68a2fu32 &&
        swap_bytes32(crc32_byte(0, 11u8)) == 0x61cb4b2bu32 &&
        swap_bytes32(crc32_byte(0, 12u8)) == 0x649b0c35u32 &&
        swap_bytes32(crc32_byte(0, 13u8)) == 0xd386cd31u32 &&
        swap_bytes32(crc32_byte(0, 14u8)) == 0x0aa08e3cu32 &&
        swap_bytes32(crc32_byte(0, 15u8)) == 0xbdbd4f38u32 &&
        swap_bytes32(crc32_byte(0, 16u8)) == 0x70db114cu32 &&
        swap_bytes32(crc32_byte(0, 17u8)) == 0xc7c6d048u32 &&
        swap_bytes32(crc32_byte(0, 18u8)) == 0x1ee09345u32 &&
        swap_bytes32(crc32_byte(0, 19u8)) == 0xa9fd5241u32 &&
        swap_bytes32(crc32_byte(0, 20u8)) == 0xacad155fu32 &&
        swap_bytes32(crc32_byte(0, 21u8)) == 0x1bb0d45bu32 &&
        swap_bytes32(crc32_byte(0, 22u8)) == 0xc2969756u32 &&
        swap_bytes32(crc32_byte(0, 23u8)) == 0x758b5652u32 &&
        swap_bytes32(crc32_byte(0, 24u8)) == 0xc836196au32 &&
        swap_bytes32(crc32_byte(0, 25u8)) == 0x7f2bd86eu32 &&
        swap_bytes32(crc32_byte(0, 26u8)) == 0xa60d9b63u32 &&
        swap_bytes32(crc32_byte(0, 27u8)) == 0x11105a67u32 &&
        swap_bytes32(crc32_byte(0, 28u8)) == 0x14401d79u32 &&
        swap_bytes32(crc32_byte(0, 29u8)) == 0xa35ddc7du32 &&
        swap_bytes32(crc32_byte(0, 30u8)) == 0x7a7b9f70u32 &&
        swap_bytes32(crc32_byte(0, 31u8)) == 0xcd665e74u32 &&
        swap_bytes32(crc32_byte(0, 32u8)) == 0xe0b62398u32 &&
        swap_bytes32(crc32_byte(0, 33u8)) == 0x57abe29cu32 &&
        swap_bytes32(crc32_byte(0, 34u8)) == 0x8e8da191u32 &&
        swap_bytes32(crc32_byte(0, 35u8)) == 0x39906095u32 &&
        swap_bytes32(crc32_byte(0, 36u8)) == 0x3cc0278bu32 &&
        swap_bytes32(crc32_byte(0, 37u8)) == 0x8bdde68fu32 &&
        swap_bytes32(crc32_byte(0, 38u8)) == 0x52fba582u32 &&
        swap_bytes32(crc32_byte(0, 39u8)) == 0xe5e66486u32 &&
        swap_bytes32(crc32_byte(0, 40u8)) == 0x585b2bbeu32 &&
        swap_bytes32(crc32_byte(0, 41u8)) == 0xef46eabau32 &&
        swap_bytes32(crc32_byte(0, 42u8)) == 0x3660a9b7u32 &&
        swap_bytes32(crc32_byte(0, 43u8)) == 0x817d68b3u32 &&
        swap_bytes32(crc32_byte(0, 44u8)) == 0x842d2fadu32 &&
        swap_bytes32(crc32_byte(0, 45u8)) == 0x3330eea9u32 &&
        swap_bytes32(crc32_byte(0, 46u8)) == 0xea16ada4u32 &&
        swap_bytes32(crc32_byte(0, 47u8)) == 0x5d0b6ca0u32 &&
        swap_bytes32(crc32_byte(0, 48u8)) == 0x906d32d4u32 &&
        swap_bytes32(crc32_byte(0, 49u8)) == 0x2770f3d0u32 &&
        swap_bytes32(crc32_byte(0, 50u8)) == 0xfe56b0ddu32 &&
        swap_bytes32(crc32_byte(0, 51u8)) == 0x494b71d9u32 &&
        swap_bytes32(crc32_byte(0, 52u8)) == 0x4c1b36c7u32 &&
        swap_bytes32(crc32_byte(0, 53u8)) == 0xfb06f7c3u32 &&
        swap_bytes32(crc32_byte(0, 54u8)) == 0x2220b4ceu32 &&
        swap_bytes32(crc32_byte(0, 55u8)) == 0x953d75cau32 &&
        swap_bytes32(crc32_byte(0, 56u8)) == 0x28803af2u32 &&
        swap_bytes32(crc32_byte(0, 57u8)) == 0x9f9dfbf6u32 &&
        swap_bytes32(crc32_byte(0, 58u8)) == 0x46bbb8fbu32 &&
        swap_bytes32(crc32_byte(0, 59u8)) == 0xf1a679ffu32 &&
        swap_bytes32(crc32_byte(0, 60u8)) == 0xf4f63ee1u32 &&
        swap_bytes32(crc32_byte(0, 61u8)) == 0x43ebffe5u32 &&
        swap_bytes32(crc32_byte(0, 62u8)) == 0x9acdbce8u32 &&
        swap_bytes32(crc32_byte(0, 63u8)) == 0x2dd07decu32 &&
        swap_bytes32(crc32_byte(0, 64u8)) == 0x77708634u32 &&
        swap_bytes32(crc32_byte(0, 65u8)) == 0xc06d4730u32 &&
        swap_bytes32(crc32_byte(0, 66u8)) == 0x194b043du32 &&
        swap_bytes32(crc32_byte(0, 67u8)) == 0xae56c539u32 &&
        swap_bytes32(crc32_byte(0, 68u8)) == 0xab068227u32 &&
        swap_bytes32(crc32_byte(0, 69u8)) == 0x1c1b4323u32 &&
        swap_bytes32(crc32_byte(0, 70u8)) == 0xc53d002eu32 &&
        swap_bytes32(crc32_byte(0, 71u8)) == 0x7220c12au32 &&
        swap_bytes32(crc32_byte(0, 72u8)) == 0xcf9d8e12u32 &&
        swap_bytes32(crc32_byte(0, 73u8)) == 0x78804f16u32 &&
        swap_bytes32(crc32_byte(0, 74u8)) == 0xa1a60c1bu32 &&
        swap_bytes32(crc32_byte(0, 75u8)) == 0x16bbcd1fu32 &&
        swap_bytes32(crc32_byte(0, 76u8)) == 0x13eb8a01u32 &&
        swap_bytes32(crc32_byte(0, 77u8)) == 0xa4f64b05u32 &&
        swap_bytes32(crc32_byte(0, 78u8)) == 0x7dd00808u32 &&
        swap_bytes32(crc32_byte(0, 79u8)) == 0xcacdc90cu32 &&
        swap_bytes32(crc32_byte(0, 80u8)) == 0x07ab9778u32 &&
        swap_bytes32(crc32_byte(0, 81u8)) == 0xb0b6567cu32 &&
        swap_bytes32(crc32_byte(0, 82u8)) == 0x69901571u32 &&
        swap_bytes32(crc32_byte(0, 83u8)) == 0xde8dd475u32 &&
        swap_bytes32(crc32_byte(0, 84u8)) == 0xdbdd936bu32 &&
        swap_bytes32(crc32_byte(0, 85u8)) == 0x6cc0526fu32 &&
        swap_bytes32(crc32_byte(0, 86u8)) == 0xb5e61162u32 &&
        swap_bytes32(crc32_byte(0, 87u8)) == 0x02fbd066u32 &&
        swap_bytes32(crc32_byte(0, 88u8)) == 0xbf469f5eu32 &&
        swap_bytes32(crc32_byte(0, 89u8)) == 0x085b5e5au32 &&
        swap_bytes32(crc32_byte(0, 90u8)) == 0xd17d1d57u32 &&
        swap_bytes32(crc32_byte(0, 91u8)) == 0x6660dc53u32 &&
        swap_bytes32(crc32_byte(0, 92u8)) == 0x63309b4du32 &&
        swap_bytes32(crc32_byte(0, 93u8)) == 0xd42d5a49u32 &&
        swap_bytes32(crc32_byte(0, 94u8)) == 0x0d0b1944u32 &&
        swap_bytes32(crc32_byte(0, 95u8)) == 0xba16d840u32 &&
        swap_bytes32(crc32_byte(0, 96u8)) == 0x97c6a5acu32 &&
        swap_bytes32(crc32_byte(0, 97u8)) == 0x20db64a8u32 &&
        swap_bytes32(crc32_byte(0, 98u8)) == 0xf9fd27a5u32 &&
        swap_bytes32(crc32_byte(0, 99u8)) == 0x4ee0e6a1u32 &&
        swap_bytes32(crc32_byte(0, 100u8)) == 0x4bb0a1bfu32 &&
        swap_bytes32(crc32_byte(0, 101u8)) == 0xfcad60bbu32 &&
        swap_bytes32(crc32_byte(0, 102u8)) == 0x258b23b6u32 &&
        swap_bytes32(crc32_byte(0, 103u8)) == 0x9296e2b2u32 &&
        swap_bytes32(crc32_byte(0, 104u8)) == 0x2f2bad8au32 &&
        swap_bytes32(crc32_byte(0, 105u8)) == 0x98366c8eu32 &&
        swap_bytes32(crc32_byte(0, 106u8)) == 0x41102f83u32 &&
        swap_bytes32(crc32_byte(0, 107u8)) == 0xf60dee87u32 &&
        swap_bytes32(crc32_byte(0, 108u8)) == 0xf35da999u32 &&
        swap_bytes32(crc32_byte(0, 109u8)) == 0x4440689du32 &&
        swap_bytes32(crc32_byte(0, 110u8)) == 0x9d662b90u32 &&
        swap_bytes32(crc32_byte(0, 111u8)) == 0x2a7bea94u32 &&
        swap_bytes32(crc32_byte(0, 112u8)) == 0xe71db4e0u32 &&
        swap_bytes32(crc32_byte(0, 113u8)) == 0x500075e4u32 &&
        swap_bytes32(crc32_byte(0, 114u8)) == 0x892636e9u32 &&
        swap_bytes32(crc32_byte(0, 115u8)) == 0x3e3bf7edu32 &&
        swap_bytes32(crc32_byte(0, 116u8)) == 0x3b6bb0f3u32 &&
        swap_bytes32(crc32_byte(0, 117u8)) == 0x8c7671f7u32 &&
        swap_bytes32(crc32_byte(0, 118u8)) == 0x555032fau32 &&
        swap_bytes32(crc32_byte(0, 119u8)) == 0xe24df3feu32 &&
        swap_bytes32(crc32_byte(0, 120u8)) == 0x5ff0bcc6u32 &&
        swap_bytes32(crc32_byte(0, 121u8)) == 0xe8ed7dc2u32 &&
        swap_bytes32(crc32_byte(0, 122u8)) == 0x31cb3ecfu32 &&
        swap_bytes32(crc32_byte(0, 123u8)) == 0x86d6ffcbu32 &&
        swap_bytes32(crc32_byte(0, 124u8)) == 0x8386b8d5u32 &&
        swap_bytes32(crc32_byte(0, 125u8)) == 0x349b79d1u32 &&
        swap_bytes32(crc32_byte(0, 126u8)) == 0xedbd3adcu32 &&
        swap_bytes32(crc32_byte(0, 127u8)) == 0x5aa0fbd8u32 &&
        swap_bytes32(crc32_byte(0, 128u8)) == 0xeee00c69u32 &&
        swap_bytes32(crc32_byte(0, 129u8)) == 0x59fdcd6du32 &&
        swap_bytes32(crc32_byte(0, 130u8)) == 0x80db8e60u32 &&
        swap_bytes32(crc32_byte(0, 131u8)) == 0x37c64f64u32 &&
        swap_bytes32(crc32_byte(0, 132u8)) == 0x3296087au32 &&
        swap_bytes32(crc32_byte(0, 133u8)) == 0x858bc97eu32 &&
        swap_bytes32(crc32_byte(0, 134u8)) == 0x5cad8a73u32 &&
        swap_bytes32(crc32_byte(0, 135u8)) == 0xebb04b77u32 &&
        swap_bytes32(crc32_byte(0, 136u8)) == 0x560d044fu32 &&
        swap_bytes32(crc32_byte(0, 137u8)) == 0xe110c54bu32 &&
        swap_bytes32(crc32_byte(0, 138u8)) == 0x38368646u32 &&
        swap_bytes32(crc32_byte(0, 139u8)) == 0x8f2b4742u32 &&
        swap_bytes32(crc32_byte(0, 140u8)) == 0x8a7b005cu32 &&
        swap_bytes32(crc32_byte(0, 141u8)) == 0x3d66c158u32 &&
        swap_bytes32(crc32_byte(0, 142u8)) == 0xe4408255u32 &&
        swap_bytes32(crc32_byte(0, 143u8)) == 0x535d4351u32 &&
        swap_bytes32(crc32_byte(0, 144u8)) == 0x9e3b1d25u32 &&
        swap_bytes32(crc32_byte(0, 145u8)) == 0x2926dc21u32 &&
        swap_bytes32(crc32_byte(0, 146u8)) == 0xf0009f2cu32 &&
        swap_bytes32(crc32_byte(0, 147u8)) == 0x471d5e28u32 &&
        swap_bytes32(crc32_byte(0, 148u8)) == 0x424d1936u32 &&
        swap_bytes32(crc32_byte(0, 149u8)) == 0xf550d832u32 &&
        swap_bytes32(crc32_byte(0, 150u8)) == 0x2c769b3fu32 &&
        swap_bytes32(crc32_byte(0, 151u8)) == 0x9b6b5a3bu32 &&
        swap_bytes32(crc32_byte(0, 152u8)) == 0x26d61503u32 &&
        swap_bytes32(crc32_byte(0, 153u8)) == 0x91cbd407u32 &&
        swap_bytes32(crc32_byte(0, 154u8)) == 0x48ed970au32 &&
        swap_bytes32(crc32_byte(0, 155u8)) == 0xfff0560eu32 &&
        swap_bytes32(crc32_byte(0, 156u8)) == 0xfaa01110u32 &&
        swap_bytes32(crc32_byte(0, 157u8)) == 0x4dbdd014u32 &&
        swap_bytes32(crc32_byte(0, 158u8)) == 0x949b9319u32 &&
        swap_bytes32(crc32_byte(0, 159u8)) == 0x2386521du32 &&
        swap_bytes32(crc32_byte(0, 160u8)) == 0x0e562ff1u32 &&
        swap_bytes32(crc32_byte(0, 161u8)) == 0xb94beef5u32 &&
        swap_bytes32(crc32_byte(0, 162u8)) == 0x606dadf8u32 &&
        swap_bytes32(crc32_byte(0, 163u8)) == 0xd7706cfcu32 &&
        swap_bytes32(crc32_byte(0, 164u8)) == 0xd2202be2u32 &&
        swap_bytes32(crc32_byte(0, 165u8)) == 0x653deae6u32 &&
        swap_bytes32(crc32_byte(0, 166u8)) == 0xbc1ba9ebu32 &&
        swap_bytes32(crc32_byte(0, 167u8)) == 0x0b0668efu32 &&
        swap_bytes32(crc32_byte(0, 168u8)) == 0xb6bb27d7u32 &&
        swap_bytes32(crc32_byte(0, 169u8)) == 0x01a6e6d3u32 &&
        swap_bytes32(crc32_byte(0, 170u8)) == 0xd880a5deu32 &&
        swap_bytes32(crc32_byte(0, 171u8)) == 0x6f9d64dau32 &&
        swap_bytes32(crc32_byte(0, 172u8)) == 0x6acd23c4u32 &&
        swap_bytes32(crc32_byte(0, 173u8)) == 0xddd0e2c0u32 &&
        swap_bytes32(crc32_byte(0, 174u8)) == 0x04f6a1cdu32 &&
        swap_bytes32(crc32_byte(0, 175u8)) == 0xb3eb60c9u32 &&
        swap_bytes32(crc32_byte(0, 176u8)) == 0x7e8d3ebdu32 &&
        swap_bytes32(crc32_byte(0, 177u8)) == 0xc990ffb9u32 &&
        swap_bytes32(crc32_byte(0, 178u8)) == 0x10b6bcb4u32 &&
        swap_bytes32(crc32_byte(0, 179u8)) == 0xa7ab7db0u32 &&
        swap_bytes32(crc32_byte(0, 180u8)) == 0xa2fb3aaeu32 &&
        swap_bytes32(crc32_byte(0, 181u8)) == 0x15e6fbaau32 &&
        swap_bytes32(crc32_byte(0, 182u8)) == 0xccc0b8a7u32 &&
        swap_bytes32(crc32_byte(0, 183u8)) == 0x7bdd79a3u32 &&
        swap_bytes32(crc32_byte(0, 184u8)) == 0xc660369bu32 &&
        swap_bytes32(crc32_byte(0, 185u8)) == 0x717df79fu32 &&
        swap_bytes32(crc32_byte(0, 186u8)) == 0xa85bb492u32 &&
        swap_bytes32(crc32_byte(0, 187u8)) == 0x1f467596u32 &&
        swap_bytes32(crc32_byte(0, 188u8)) == 0x1a163288u32 &&
        swap_bytes32(crc32_byte(0, 189u8)) == 0xad0bf38cu32 &&
        swap_bytes32(crc32_byte(0, 190u8)) == 0x742db081u32 &&
        swap_bytes32(crc32_byte(0, 191u8)) == 0xc3307185u32 &&
        swap_bytes32(crc32_byte(0, 192u8)) == 0x99908a5du32 &&
        swap_bytes32(crc32_byte(0, 193u8)) == 0x2e8d4b59u32 &&
        swap_bytes32(crc32_byte(0, 194u8)) == 0xf7ab0854u32 &&
        swap_bytes32(crc32_byte(0, 195u8)) == 0x40b6c950u32 &&
        swap_bytes32(crc32_byte(0, 196u8)) == 0x45e68e4eu32 &&
        swap_bytes32(crc32_byte(0, 197u8)) == 0xf2fb4f4au32 &&
        swap_bytes32(crc32_byte(0, 198u8)) == 0x2bdd0c47u32 &&
        swap_bytes32(crc32_byte(0, 199u8)) == 0x9cc0cd43u32 &&
        swap_bytes32(crc32_byte(0, 200u8)) == 0x217d827bu32 &&
        swap_bytes32(crc32_byte(0, 201u8)) == 0x9660437fu32 &&
        swap_bytes32(crc32_byte(0, 202u8)) == 0x4f460072u32 &&
        swap_bytes32(crc32_byte(0, 203u8)) == 0xf85bc176u32 &&
        swap_bytes32(crc32_byte(0, 204u8)) == 0xfd0b8668u32 &&
        swap_bytes32(crc32_byte(0, 205u8)) == 0x4a16476cu32 &&
        swap_bytes32(crc32_byte(0, 206u8)) == 0x93300461u32 &&
        swap_bytes32(crc32_byte(0, 207u8)) == 0x242dc565u32 &&
        swap_bytes32(crc32_byte(0, 208u8)) == 0xe94b9b11u32 &&
        swap_bytes32(crc32_byte(0, 209u8)) == 0x5e565a15u32 &&
        swap_bytes32(crc32_byte(0, 210u8)) == 0x87701918u32 &&
        swap_bytes32(crc32_byte(0, 211u8)) == 0x306dd81cu32 &&
        swap_bytes32(crc32_byte(0, 212u8)) == 0x353d9f02u32 &&
        swap_bytes32(crc32_byte(0, 213u8)) == 0x82205e06u32 &&
        swap_bytes32(crc32_byte(0, 214u8)) == 0x5b061d0bu32 &&
        swap_bytes32(crc32_byte(0, 215u8)) == 0xec1bdc0fu32 &&
        swap_bytes32(crc32_byte(0, 216u8)) == 0x51a69337u32 &&
        swap_bytes32(crc32_byte(0, 217u8)) == 0xe6bb5233u32 &&
        swap_bytes32(crc32_byte(0, 218u8)) == 0x3f9d113eu32 &&
        swap_bytes32(crc32_byte(0, 219u8)) == 0x8880d03au32 &&
        swap_bytes32(crc32_byte(0, 220u8)) == 0x8dd09724u32 &&
        swap_bytes32(crc32_byte(0, 221u8)) == 0x3acd5620u32 &&
        swap_bytes32(crc32_byte(0, 222u8)) == 0xe3eb152du32 &&
        swap_bytes32(crc32_byte(0, 223u8)) == 0x54f6d429u32 &&
        swap_bytes32(crc32_byte(0, 224u8)) == 0x7926a9c5u32 &&
        swap_bytes32(crc32_byte(0, 225u8)) == 0xce3b68c1u32 &&
        swap_bytes32(crc32_byte(0, 226u8)) == 0x171d2bccu32 &&
        swap_bytes32(crc32_byte(0, 227u8)) == 0xa000eac8u32 &&
        swap_bytes32(crc32_byte(0, 228u8)) == 0xa550add6u32 &&
        swap_bytes32(crc32_byte(0, 229u8)) == 0x124d6cd2u32 &&
        swap_bytes32(crc32_byte(0, 230u8)) == 0xcb6b2fdfu32 &&
        swap_bytes32(crc32_byte(0, 231u8)) == 0x7c76eedbu32 &&
        swap_bytes32(crc32_byte(0, 232u8)) == 0xc1cba1e3u32 &&
        swap_bytes32(crc32_byte(0, 233u8)) == 0x76d660e7u32 &&
        swap_bytes32(crc32_byte(0, 234u8)) == 0xaff023eau32 &&
        swap_bytes32(crc32_byte(0, 235u8)) == 0x18ede2eeu32 &&
        swap_bytes32(crc32_byte(0, 236u8)) == 0x1dbda5f0u32 &&
        swap_bytes32(crc32_byte(0, 237u8)) == 0xaaa064f4u32 &&
        swap_bytes32(crc32_byte(0, 238u8)) == 0x738627f9u32 &&
        swap_bytes32(crc32_byte(0, 239u8)) == 0xc49be6fdu32 &&
        swap_bytes32(crc32_byte(0, 240u8)) == 0x09fdb889u32 &&
        swap_bytes32(crc32_byte(0, 241u8)) == 0xbee0798du32 &&
        swap_bytes32(crc32_byte(0, 242u8)) == 0x67c63a80u32 &&
        swap_bytes32(crc32_byte(0, 243u8)) == 0xd0dbfb84u32 &&
        swap_bytes32(crc32_byte(0, 244u8)) == 0xd58bbc9au32 &&
        swap_bytes32(crc32_byte(0, 245u8)) == 0x62967d9eu32 &&
        swap_bytes32(crc32_byte(0, 246u8)) == 0xbbb03e93u32 &&
        swap_bytes32(crc32_byte(0, 247u8)) == 0x0cadff97u32 &&
        swap_bytes32(crc32_byte(0, 248u8)) == 0xb110b0afu32 &&
        swap_bytes32(crc32_byte(0, 249u8)) == 0x060d71abu32 &&
        swap_bytes32(crc32_byte(0, 250u8)) == 0xdf2b32a6u32 &&
        swap_bytes32(crc32_byte(0, 251u8)) == 0x6836f3a2u32 &&
        swap_bytes32(crc32_byte(0, 252u8)) == 0x6d66b4bcu32 &&
        swap_bytes32(crc32_byte(0, 253u8)) == 0xda7b75b8u32 &&
        swap_bytes32(crc32_byte(0, 254u8)) == 0x035d36b5u32 &&
        swap_bytes32(crc32_byte(0, 255u8)) == 0xb440f7b1u32,
{
    assert(
        swap_bytes32(crc32_byte(0, 0u8)) == 0x00000000u32 &&
        swap_bytes32(crc32_byte(0, 1u8)) == 0xb71dc104u32 &&
        swap_bytes32(crc32_byte(0, 2u8)) == 0x6e3b8209u32 &&
        swap_bytes32(crc32_byte(0, 3u8)) == 0xd926430du32 &&
        swap_bytes32(crc32_byte(0, 4u8)) == 0xdc760413u32 &&
        swap_bytes32(crc32_byte(0, 5u8)) == 0x6b6bc517u32 &&
        swap_bytes32(crc32_byte(0, 6u8)) == 0xb24d861au32 &&
        swap_bytes32(crc32_byte(0, 7u8)) == 0x0550471eu32 &&
        swap_bytes32(crc32_byte(0, 8u8)) == 0xb8ed0826u32 &&
        swap_bytes32(crc32_byte(0, 9u8)) == 0x0ff0c922u32 &&
        swap_bytes32(crc32_byte(0, 10u8)) == 0xd6d68a2fu32 &&
        swap_bytes32(crc32_byte(0, 11u8)) == 0x61cb4b2bu32 &&
        swap_bytes32(crc32_byte(0, 12u8)) == 0x649b0c35u32 &&
        swap_bytes32(crc32_byte(0, 13u8)) == 0xd386cd31u32 &&
        swap_bytes32(crc32_byte(0, 14u8)) == 0x0aa08e3cu32 &&
        swap_bytes32(crc32_byte(0, 15u8)) == 0xbdbd4f38u32 &&
        swap_bytes32(crc32_byte(0, 16u8)) == 0x70db114cu32 &&
        swap_bytes32(crc32_byte(0, 17u8)) == 0xc7c6d048u32 &&
        swap_bytes32(crc32_byte(0, 18u8)) == 0x1ee09345u32 &&
        swap_bytes32(crc32_byte(0, 19u8)) == 0xa9fd5241u32 &&
        swap_bytes32(crc32_byte(0, 20u8)) == 0xacad155fu32 &&
        swap_bytes32(crc32_byte(0, 21u8)) == 0x1bb0d45bu32 &&
        swap_bytes32(crc32_byte(0, 22u8)) == 0xc2969756u32 &&
        swap_bytes32(crc32_byte(0, 23u8)) == 0x758b5652u32 &&
        swap_bytes32(crc32_byte(0, 24u8)) == 0xc836196au32 &&
        swap_bytes32(crc32_byte(0, 25u8)) == 0x7f2bd86eu32 &&
        swap_bytes32(crc32_byte(0, 26u8)) == 0xa60d9b63u32 &&
        swap_bytes32(crc32_byte(0, 27u8)) == 0x11105a67u32 &&
        swap_bytes32(crc32_byte(0, 28u8)) == 0x14401d79u32 &&
        swap_bytes32(crc32_byte(0, 29u8)) == 0xa35ddc7du32 &&
        swap_bytes32(crc32_byte(0, 30u8)) == 0x7a7b9f70u32 &&
        swap_bytes32(crc32_byte(0, 31u8)) == 0xcd665e74u32 &&
        swap_bytes32(crc32_byte(0, 32u8)) == 0xe0b62398u32 &&
        swap_bytes32(crc32_byte(0, 33u8)) == 0x57abe29cu32 &&
        swap_bytes32(crc32_byte(0, 34u8)) == 0x8e8da191u32 &&
        swap_bytes32(crc32_byte(0, 35u8)) == 0x39906095u32 &&
        swap_bytes32(crc32_byte(0, 36u8)) == 0x3cc0278bu32 &&
        swap_bytes32(crc32_byte(0, 37u8)) == 0x8bdde68fu32 &&
        swap_bytes32(crc32_byte(0, 38u8)) == 0x52fba582u32 &&
        swap_bytes32(crc32_byte(0, 39u8)) == 0xe5e66486u32 &&
        swap_bytes32(crc32_byte(0, 40u8)) == 0x585b2bbeu32 &&
        swap_bytes32(crc32_byte(0, 41u8)) == 0xef46eabau32 &&
        swap_bytes32(crc32_byte(0, 42u8)) == 0x3660a9b7u32 &&
        swap_bytes32(crc32_byte(0, 43u8)) == 0x817d68b3u32 &&
        swap_bytes32(crc32_byte(0, 44u8)) == 0x842d2fadu32 &&
        swap_bytes32(crc32_byte(0, 45u8)) == 0x3330eea9u32 &&
        swap_bytes32(crc32_byte(0, 46u8)) == 0xea16ada4u32 &&
        swap_bytes32(crc32_byte(0, 47u8)) == 0x5d0b6ca0u32 &&
        swap_bytes32(crc32_byte(0, 48u8)) == 0x906d32d4u32 &&
        swap_bytes32(crc32_byte(0, 49u8)) == 0x2770f3d0u32 &&
        swap_bytes32(crc32_byte(0, 50u8)) == 0xfe56b0ddu32 &&
        swap_bytes32(crc32_byte(0, 51u8)) == 0x494b71d9u32 &&
        swap_bytes32(crc32_byte(0, 52u8)) == 0x4c1b36c7u32 &&
        swap_bytes32(crc32_byte(0, 53u8)) == 0xfb06f7c3u32 &&
        swap_bytes32(crc32_byte(0, 54u8)) == 0x2220b4ceu32 &&
        swap_bytes32(crc32_byte(0, 55u8)) == 0x953d75cau32 &&
        swap_bytes32(crc32_byte(0, 56u8)) == 0x28803af2u32 &&
        swap_bytes32(crc32_byte(0, 57u8)) == 0x9f9dfbf6u32 &&
        swap_bytes32(crc32_byte(0, 58u8)) == 0x46bbb8fbu32 &&
        swap_bytes32(crc32_byte(0, 59u8)) == 0xf1a679ffu32 &&
        swap_bytes32(crc32_byte(0, 60u8)) == 0xf4f63ee1u32 &&
        swap_bytes32(crc32_byte(0, 61u8)) == 0x43ebffe5u32 &&
        swap_bytes32(crc32_byte(0, 62u8)) == 0x9acdbce8u32 &&
        swap_bytes32(crc32_byte(0, 63u8)) == 0x2dd07decu32 &&
        swap_bytes32(crc32_byte(0, 64u8)) == 0x77708634u32 &&
        swap_bytes32(crc32_byte(0, 65u8)) == 0xc06d4730u32 &&
        swap_bytes32(crc32_byte(0, 66u8)) == 0x194b043du32 &&
        swap_bytes32(crc32_byte(0, 67u8)) == 0xae56c539u32 &&
        swap_bytes32(crc32_byte(0, 68u8)) == 0xab068227u32 &&
        swap_bytes32(crc32_byte(0, 69u8)) == 0x1c1b4323u32 &&
        swap_bytes32(crc32_byte(0, 70u8)) == 0xc53d002eu32 &&
        swap_bytes32(crc32_byte(0, 71u8)) == 0x7220c12au32 &&
        swap_bytes32(crc32_byte(0, 72u8)) == 0xcf9d8e12u32 &&
        swap_bytes32(crc32_byte(0, 73u8)) == 0x78804f16u32 &&
        swap_bytes32(crc32_byte(0, 74u8)) == 0xa1a60c1bu32 &&
        swap_bytes32(crc32_byte(0, 75u8)) == 0x16bbcd1fu32 &&
        swap_bytes32(crc32_byte(0, 76u8)) == 0x13eb8a01u32 &&
        swap_bytes32(crc32_byte(0, 77u8)) == 0xa4f64b05u32 &&
        swap_bytes32(crc32_byte(0, 78u8)) == 0x7dd00808u32 &&
        swap_bytes32(crc32_byte(0, 79u8)) == 0xcacdc90cu32 &&
        swap_bytes32(crc32_byte(0, 80u8)) == 0x07ab9778u32 &&
        swap_bytes32(crc32_byte(0, 81u8)) == 0xb0b6567cu32 &&
        swap_bytes32(crc32_byte(0, 82u8)) == 0x69901571u32 &&
        swap_bytes32(crc32_byte(0, 83u8)) == 0xde8dd475u32 &&
        swap_bytes32(crc32_byte(0, 84u8)) == 0xdbdd936bu32 &&
        swap_bytes32(crc32_byte(0, 85u8)) == 0x6cc0526fu32 &&
        swap_bytes32(crc32_byte(0, 86u8)) == 0xb5e61162u32 &&
        swap_bytes32(crc32_byte(0, 87u8)) == 0x02fbd066u32 &&
        swap_bytes32(crc32_byte(0, 88u8)) == 0xbf469f5eu32 &&
        swap_bytes32(crc32_byte(0, 89u8)) == 0x085b5e5au32 &&
        swap_bytes32(crc32_byte(0, 90u8)) == 0xd17d1d57u32 &&
        swap_bytes32(crc32_byte(0, 91u8)) == 0x6660dc53u32 &&
        swap_bytes32(crc32_byte(0, 92u8)) == 0x63309b4du32 &&
        swap_bytes32(crc32_byte(0, 93u8)) == 0xd42d5a49u32 &&
        swap_bytes32(crc32_byte(0, 94u8)) == 0x0d0b1944u32 &&
        swap_bytes32(crc32_byte(0, 95u8)) == 0xba16d840u32 &&
        swap_bytes32(crc32_byte(0, 96u8)) == 0x97c6a5acu32 &&
        swap_bytes32(crc32_byte(0, 97u8)) == 0x20db64a8u32 &&
        swap_bytes32(crc32_byte(0, 98u8)) == 0xf9fd27a5u32 &&
        swap_bytes32(crc32_byte(0, 99u8)) == 0x4ee0e6a1u32 &&
        swap_bytes32(crc32_byte(0, 100u8)) == 0x4bb0a1bfu32 &&
        swap_bytes32(crc32_byte(0, 101u8)) == 0xfcad60bbu32 &&
        swap_bytes32(crc32_byte(0, 102u8)) == 0x258b23b6u32 &&
        swap_bytes32(crc32_byte(0, 103u8)) == 0x9296e2b2u32 &&
        swap_bytes32(crc32_byte(0, 104u8)) == 0x2f2bad8au32 &&
        swap_bytes32(crc32_byte(0, 105u8)) == 0x98366c8eu32 &&
        swap_bytes32(crc32_byte(0, 106u8)) == 0x41102f83u32 &&
        swap_bytes32(crc32_byte(0, 107u8)) == 0xf60dee87u32 &&
        swap_bytes32(crc32_byte(0, 108u8)) == 0xf35da999u32 &&
        swap_bytes32(crc32_byte(0, 109u8)) == 0x4440689du32 &&
        swap_bytes32(crc32_byte(0, 110u8)) == 0x9d662b90u32 &&
        swap_bytes32(crc32_byte(0, 111u8)) == 0x2a7bea94u32 &&
        swap_bytes32(crc32_byte(0, 112u8)) == 0xe71db4e0u32 &&
        swap_bytes32(crc32_byte(0, 113u8)) == 0x500075e4u32 &&
        swap_bytes32(crc32_byte(0, 114u8)) == 0x892636e9u32 &&
        swap_bytes32(crc32_byte(0, 115u8)) == 0x3e3bf7edu32 &&
        swap_bytes32(crc32_byte(0, 116u8)) == 0x3b6bb0f3u32 &&
        swap_bytes32(crc32_byte(0, 117u8)) == 0x8c7671f7u32 &&
        swap_bytes32(crc32_byte(0, 118u8)) == 0x555032fau32 &&
        swap_bytes32(crc32_byte(0, 119u8)) == 0xe24df3feu32 &&
        swap_bytes32(crc32_byte(0, 120u8)) == 0x5ff0bcc6u32 &&
        swap_bytes32(crc32_byte(0, 121u8)) == 0xe8ed7dc2u32 &&
        swap_bytes32(crc32_byte(0, 122u8)) == 0x31cb3ecfu32 &&
        swap_bytes32(crc32_byte(0, 123u8)) == 0x86d6ffcbu32 &&
        swap_bytes32(crc32_byte(0, 124u8)) == 0x8386b8d5u32 &&
        swap_bytes32(crc32_byte(0, 125u8)) == 0x349b79d1u32 &&
        swap_bytes32(crc32_byte(0, 126u8)) == 0xedbd3adcu32 &&
        swap_bytes32(crc32_byte(0, 127u8)) == 0x5aa0fbd8u32 &&
        swap_bytes32(crc32_byte(0, 128u8)) == 0xeee00c69u32 &&
        swap_bytes32(crc32_byte(0, 129u8)) == 0x59fdcd6du32 &&
        swap_bytes32(crc32_byte(0, 130u8)) == 0x80db8e60u32 &&
        swap_bytes32(crc32_byte(0, 131u8)) == 0x37c64f64u32 &&
        swap_bytes32(crc32_byte(0, 132u8)) == 0x3296087au32 &&
        swap_bytes32(crc32_byte(0, 133u8)) == 0x858bc97eu32 &&
        swap_bytes32(crc32_byte(0, 134u8)) == 0x5cad8a73u32 &&
        swap_bytes32(crc32_byte(0, 135u8)) == 0xebb04b77u32 &&
        swap_bytes32(crc32_byte(0, 136u8)) == 0x560d044fu32 &&
        swap_bytes32(crc32_byte(0, 137u8)) == 0xe110c54bu32 &&
        swap_bytes32(crc32_byte(0, 138u8)) == 0x38368646u32 &&
        swap_bytes32(crc32_byte(0, 139u8)) == 0x8f2b4742u32 &&
        swap_bytes32(crc32_byte(0, 140u8)) == 0x8a7b005cu32 &&
        swap_bytes32(crc32_byte(0, 141u8)) == 0x3d66c158u32 &&
        swap_bytes32(crc32_byte(0, 142u8)) == 0xe4408255u32 &&
        swap_bytes32(crc32_byte(0, 143u8)) == 0x535d4351u32 &&
        swap_bytes32(crc32_byte(0, 144u8)) == 0x9e3b1d25u32 &&
        swap_bytes32(crc32_byte(0, 145u8)) == 0x2926dc21u32 &&
        swap_bytes32(crc32_byte(0, 146u8)) == 0xf0009f2cu32 &&
        swap_bytes32(crc32_byte(0, 147u8)) == 0x471d5e28u32 &&
        swap_bytes32(crc32_byte(0, 148u8)) == 0x424d1936u32 &&
        swap_bytes32(crc32_byte(0, 149u8)) == 0xf550d832u32 &&
        swap_bytes32(crc32_byte(0, 150u8)) == 0x2c769b3fu32 &&
        swap_bytes32(crc32_byte(0, 151u8)) == 0x9b6b5a3bu32 &&
        swap_bytes32(crc32_byte(0, 152u8)) == 0x26d61503u32 &&
        swap_bytes32(crc32_byte(0, 153u8)) == 0x91cbd407u32 &&
        swap_bytes32(crc32_byte(0, 154u8)) == 0x48ed970au32 &&
        swap_bytes32(crc32_byte(0, 155u8)) == 0xfff0560eu32 &&
        swap_bytes32(crc32_byte(0, 156u8)) == 0xfaa01110u32 &&
        swap_bytes32(crc32_byte(0, 157u8)) == 0x4dbdd014u32 &&
        swap_bytes32(crc32_byte(0, 158u8)) == 0x949b9319u32 &&
        swap_bytes32(crc32_byte(0, 159u8)) == 0x2386521du32 &&
        swap_bytes32(crc32_byte(0, 160u8)) == 0x0e562ff1u32 &&
        swap_bytes32(crc32_byte(0, 161u8)) == 0xb94beef5u32 &&
        swap_bytes32(crc32_byte(0, 162u8)) == 0x606dadf8u32 &&
        swap_bytes32(crc32_byte(0, 163u8)) == 0xd7706cfcu32 &&
        swap_bytes32(crc32_byte(0, 164u8)) == 0xd2202be2u32 &&
        swap_bytes32(crc32_byte(0, 165u8)) == 0x653deae6u32 &&
        swap_bytes32(crc32_byte(0, 166u8)) == 0xbc1ba9ebu32 &&
        swap_bytes32(crc32_byte(0, 167u8)) == 0x0b0668efu32 &&
        swap_bytes32(crc32_byte(0, 168u8)) == 0xb6bb27d7u32 &&
        swap_bytes32(crc32_byte(0, 169u8)) == 0x01a6e6d3u32 &&
        swap_bytes32(crc32_byte(0, 170u8)) == 0xd880a5deu32 &&
        swap_bytes32(crc32_byte(0, 171u8)) == 0x6f9d64dau32 &&
        swap_bytes32(crc32_byte(0, 172u8)) == 0x6acd23c4u32 &&
        swap_bytes32(crc32_byte(0, 173u8)) == 0xddd0e2c0u32 &&
        swap_bytes32(crc32_byte(0, 174u8)) == 0x04f6a1cdu32 &&
        swap_bytes32(crc32_byte(0, 175u8)) == 0xb3eb60c9u32 &&
        swap_bytes32(crc32_byte(0, 176u8)) == 0x7e8d3ebdu32 &&
        swap_bytes32(crc32_byte(0, 177u8)) == 0xc990ffb9u32 &&
        swap_bytes32(crc32_byte(0, 178u8)) == 0x10b6bcb4u32 &&
        swap_bytes32(crc32_byte(0, 179u8)) == 0xa7ab7db0u32 &&
        swap_bytes32(crc32_byte(0, 180u8)) == 0xa2fb3aaeu32 &&
        swap_bytes32(crc32_byte(0, 181u8)) == 0x15e6fbaau32 &&
        swap_bytes32(crc32_byte(0, 182u8)) == 0xccc0b8a7u32 &&
        swap_bytes32(crc32_byte(0, 183u8)) == 0x7bdd79a3u32 &&
        swap_bytes32(crc32_byte(0, 184u8)) == 0xc660369bu32 &&
        swap_bytes32(crc32_byte(0, 185u8)) == 0x717df79fu32 &&
        swap_bytes32(crc32_byte(0, 186u8)) == 0xa85bb492u32 &&
        swap_bytes32(crc32_byte(0, 187u8)) == 0x1f467596u32 &&
        swap_bytes32(crc32_byte(0, 188u8)) == 0x1a163288u32 &&
        swap_bytes32(crc32_byte(0, 189u8)) == 0xad0bf38cu32 &&
        swap_bytes32(crc32_byte(0, 190u8)) == 0x742db081u32 &&
        swap_bytes32(crc32_byte(0, 191u8)) == 0xc3307185u32 &&
        swap_bytes32(crc32_byte(0, 192u8)) == 0x99908a5du32 &&
        swap_bytes32(crc32_byte(0, 193u8)) == 0x2e8d4b59u32 &&
        swap_bytes32(crc32_byte(0, 194u8)) == 0xf7ab0854u32 &&
        swap_bytes32(crc32_byte(0, 195u8)) == 0x40b6c950u32 &&
        swap_bytes32(crc32_byte(0, 196u8)) == 0x45e68e4eu32 &&
        swap_bytes32(crc32_byte(0, 197u8)) == 0xf2fb4f4au32 &&
        swap_bytes32(crc32_byte(0, 198u8)) == 0x2bdd0c47u32 &&
        swap_bytes32(crc32_byte(0, 199u8)) == 0x9cc0cd43u32 &&
        swap_bytes32(crc32_byte(0, 200u8)) == 0x217d827bu32 &&
        swap_bytes32(crc32_byte(0, 201u8)) == 0x9660437fu32 &&
        swap_bytes32(crc32_byte(0, 202u8)) == 0x4f460072u32 &&
        swap_bytes32(crc32_byte(0, 203u8)) == 0xf85bc176u32 &&
        swap_bytes32(crc32_byte(0, 204u8)) == 0xfd0b8668u32 &&
        swap_bytes32(crc32_byte(0, 205u8)) == 0x4a16476cu32 &&
        swap_bytes32(crc32_byte(0, 206u8)) == 0x93300461u32 &&
        swap_bytes32(crc32_byte(0, 207u8)) == 0x242dc565u32 &&
        swap_bytes32(crc32_byte(0, 208u8)) == 0xe94b9b11u32 &&
        swap_bytes32(crc32_byte(0, 209u8)) == 0x5e565a15u32 &&
        swap_bytes32(crc32_byte(0, 210u8)) == 0x87701918u32 &&
        swap_bytes32(crc32_byte(0, 211u8)) == 0x306dd81cu32 &&
        swap_bytes32(crc32_byte(0, 212u8)) == 0x353d9f02u32 &&
        swap_bytes32(crc32_byte(0, 213u8)) == 0x82205e06u32 &&
        swap_bytes32(crc32_byte(0, 214u8)) == 0x5b061d0bu32 &&
        swap_bytes32(crc32_byte(0, 215u8)) == 0xec1bdc0fu32 &&
        swap_bytes32(crc32_byte(0, 216u8)) == 0x51a69337u32 &&
        swap_bytes32(crc32_byte(0, 217u8)) == 0xe6bb5233u32 &&
        swap_bytes32(crc32_byte(0, 218u8)) == 0x3f9d113eu32 &&
        swap_bytes32(crc32_byte(0, 219u8)) == 0x8880d03au32 &&
        swap_bytes32(crc32_byte(0, 220u8)) == 0x8dd09724u32 &&
        swap_bytes32(crc32_byte(0, 221u8)) == 0x3acd5620u32 &&
        swap_bytes32(crc32_byte(0, 222u8)) == 0xe3eb152du32 &&
        swap_bytes32(crc32_byte(0, 223u8)) == 0x54f6d429u32 &&
        swap_bytes32(crc32_byte(0, 224u8)) == 0x7926a9c5u32 &&
        swap_bytes32(crc32_byte(0, 225u8)) == 0xce3b68c1u32 &&
        swap_bytes32(crc32_byte(0, 226u8)) == 0x171d2bccu32 &&
        swap_bytes32(crc32_byte(0, 227u8)) == 0xa000eac8u32 &&
        swap_bytes32(crc32_byte(0, 228u8)) == 0xa550add6u32 &&
        swap_bytes32(crc32_byte(0, 229u8)) == 0x124d6cd2u32 &&
        swap_bytes32(crc32_byte(0, 230u8)) == 0xcb6b2fdfu32 &&
        swap_bytes32(crc32_byte(0, 231u8)) == 0x7c76eedbu32 &&
        swap_bytes32(crc32_byte(0, 232u8)) == 0xc1cba1e3u32 &&
        swap_bytes32(crc32_byte(0, 233u8)) == 0x76d660e7u32 &&
        swap_bytes32(crc32_byte(0, 234u8)) == 0xaff023eau32 &&
        swap_bytes32(crc32_byte(0, 235u8)) == 0x18ede2eeu32 &&
        swap_bytes32(crc32_byte(0, 236u8)) == 0x1dbda5f0u32 &&
        swap_bytes32(crc32_byte(0, 237u8)) == 0xaaa064f4u32 &&
        swap_bytes32(crc32_byte(0, 238u8)) == 0x738627f9u32 &&
        swap_bytes32(crc32_byte(0, 239u8)) == 0xc49be6fdu32 &&
        swap_bytes32(crc32_byte(0, 240u8)) == 0x09fdb889u32 &&
        swap_bytes32(crc32_byte(0, 241u8)) == 0xbee0798du32 &&
        swap_bytes32(crc32_byte(0, 242u8)) == 0x67c63a80u32 &&
        swap_bytes32(crc32_byte(0, 243u8)) == 0xd0dbfb84u32 &&
        swap_bytes32(crc32_byte(0, 244u8)) == 0xd58bbc9au32 &&
        swap_bytes32(crc32_byte(0, 245u8)) == 0x62967d9eu32 &&
        swap_bytes32(crc32_byte(0, 246u8)) == 0xbbb03e93u32 &&
        swap_bytes32(crc32_byte(0, 247u8)) == 0x0cadff97u32 &&
        swap_bytes32(crc32_byte(0, 248u8)) == 0xb110b0afu32 &&
        swap_bytes32(crc32_byte(0, 249u8)) == 0x060d71abu32 &&
        swap_bytes32(crc32_byte(0, 250u8)) == 0xdf2b32a6u32 &&
        swap_bytes32(crc32_byte(0, 251u8)) == 0x6836f3a2u32 &&
        swap_bytes32(crc32_byte(0, 252u8)) == 0x6d66b4bcu32 &&
        swap_bytes32(crc32_byte(0, 253u8)) == 0xda7b75b8u32 &&
        swap_bytes32(crc32_byte(0, 254u8)) == 0x035d36b5u32 &&
        swap_bytes32(crc32_byte(0, 255u8)) == 0xb440f7b1u32
    ) by (bit_vector);
}

/// Feeding a byte is linear: the register shifted by a byte, and its top byte
/// with the new byte fed into a zero register.
pub proof fn lemma_crc32_byte_split(r: u32, b: u8)
    ensures
        crc32_byte(r, b) == (r << 8u32) ^ crc32_byte(0, (((r >> 24u32) ^ (b as u32)) as u8)),
{
    assert(crc32_byte(r, b) == (r << 8u32) ^ crc32_byte(0, (((r >> 24u32) ^ (b as u32)) as u8)))
        by (bit_vector);
}

/// How reversing the bytes of a register meets shifts, masks, xor and not.
pub proof fn lemma_swap_bytes32(x: u32, y: u32)
    ensures
        swap_bytes32(x) >> 8u32 == swap_bytes32(x << 8u32),
        swap_bytes32(x) & 0xFFu32 == x >> 24u32,
        swap_bytes32(x ^ y) == swap_bytes32(x) ^ swap_bytes32(y),
        !swap_bytes32(x) == swap_bytes32(!x),
        swap_bytes32(swap_bytes32(x)) == x,
        swap_bytes32(!0u32) == !0u32,
{
    assert(swap_bytes32(x) >> 8u32 == swap_bytes32(x << 8u32)) by (bit_vector);
    assert(swap_bytes32(x) & 0xFFu32 == x >> 24u32) by (bit_vector);
    assert(swap_bytes32(x ^ y) == swap_bytes32(x) ^ swap_bytes32(y)) by (bit_vector);
    assert(!swap_bytes32(x) == swap_bytes32(!x)) by (bit_vector);
    assert(swap_bytes32(swap_bytes32(x)) == x) by (bit_vector);
    assert(swap_bytes32(!0u32) == !0u32) by (bit_vector);
}

} // verus!
