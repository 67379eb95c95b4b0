use mint::server_list::mark_modded;
use mint::ue::array::{next_power_of_two, TArray};
use mint::ue::map::{
    FBitReference, FSetElementId, TBitArray, TInlineAllocator, TMap, TSetElement,
    TSparseArray, TSparseArrayElementOrFreeListLink, TTuple, UEHash, ListLink,
};
use mint::ue::name::{EFindName, FName, FNameEntryId};
use mint::ue::string::FString;

#[test]
fn next_powers_of_two() {
    assert_eq!(next_power_of_two(0), 1);
    assert_eq!(next_power_of_two(1), 1);
    assert_eq!(next_power_of_two(2), 2);
    assert_eq!(next_power_of_two(5), 8);
    assert_eq!(next_power_of_two(64), 64);
    assert_eq!(next_power_of_two(65), 128);
    assert_eq!(next_power_of_two(0x4000_0000), 0x4000_0000);
}

#[test]
fn new_array_is_empty() {
    let a: TArray<u32> = TArray::new();
    assert_eq!(a.len(), 0);
    assert_eq!(a.capacity(), 0);
    assert!(a.is_empty());
    let d: TArray<u32> = TArray::default();
    assert_eq!(d.capacity(), 0);
    let c: TArray<u32> = TArray::with_capacity(10);
    assert_eq!((c.len(), c.capacity()), (0, 10));
}

#[test]
fn push_grows_when_the_next_element_reaches_capacity() {
    let mut a: TArray<u32> = TArray::new();
    let mut caps = vec![];
    for i in 0..5 {
        a.push(i);
        caps.push(a.capacity());
    }
    // growth happens when the elements after the reservation reach the capacity
    assert_eq!(caps, vec![1, 2, 4, 8, 8]);
    assert_eq!(a.as_slice(), &[0, 1, 2, 3, 4]);
}

#[test]
fn reserve_rule() {
    let mut a: TArray<u8> = TArray::with_capacity(10);
    a.reserve(0);
    assert_eq!(a.capacity(), 10);
    a.reserve(9);
    assert_eq!(a.capacity(), 10);
    a.reserve(10);
    assert_eq!(a.capacity(), 32);
}

#[test]
fn extend_and_from_slice() {
    let mut a: TArray<u16> = TArray::new();
    a.extend_from_slice(&[1, 2, 3]);
    assert_eq!(a.as_slice(), &[1, 2, 3]);
    // reserve(3) from capacity 0 gives 4; the pushes stay below it
    assert_eq!(a.capacity(), 4);
    a.push(4);
    // the fourth element reaches the capacity: next power of two of 4 + 1
    assert_eq!(a.capacity(), 8);
    let b = TArray::from_slice(&[7u8, 8, 9]);
    assert_eq!(b.as_slice(), &[7, 8, 9]);
    // capacity 3 from the length, then reserve(3) reaches it: next power of two of 6
    assert_eq!(b.capacity(), 8);
}

#[test]
fn clear_keeps_capacity() {
    let mut a = TArray::from_slice(&[1u8, 2]);
    let cap = a.capacity();
    a.clear();
    assert!(a.is_empty());
    assert_eq!(a.capacity(), cap);
}

#[test]
fn elements_change_in_place() {
    let mut a = TArray::from_slice(&[1u8, 2, 3]);
    let cap = a.capacity();
    a.as_mut_slice()[1] = 9;
    assert_eq!(a.as_slice(), &[1u8, 9, 3]);
    assert_eq!(a.capacity(), cap);
}

#[test]
fn fstring_from_text() {
    let s = FString::from_str("Hi");
    assert_eq!(s.as_slice(), &[0x48, 0x69, 0]);
    let e = FString::from_str("\u{1F600}");
    assert_eq!(e.as_slice(), &[0xD83D, 0xDE00, 0]);
    let n = FString::from_str("a\0");
    assert_eq!(n.as_slice(), &[0x61, 0]);
    let empty = FString::from_str("");
    assert_eq!(empty.as_slice(), &[0]);
}

#[test]
fn fstring_text() {
    assert_eq!(FString::from_slice(&[0x48, 0x69, 0, 0]).to_string(), Some("Hi".to_string()));
    assert_eq!(FString::from_slice(&[0xD83D, 0xDE00, 0]).to_string(), Some("\u{1F600}".to_string()));
    assert_eq!(FString::new().to_string(), Some(String::new()));
    // a string of NULs only keeps all of them
    assert_eq!(FString::from_slice(&[0, 0]).to_string(), Some("\0\0".to_string()));
    assert_eq!(FString::from_slice(&[0xD800, 0]).to_string(), None);
}

#[test]
fn server_name_is_marked_modded() {
    let mut name = FString::from_str("Srv");
    mark_modded(&mut name);
    let mut expected: Vec<u16> = "[MODDED] ".encode_utf16().collect();
    expected.extend_from_slice(&[0x53, 0x72, 0x76, 0, 0]);
    assert_eq!(name.as_slice(), expected.as_slice());
    assert_eq!(name.to_string(), Some("[MODDED] Srv".to_string()));
}

#[test]
fn name_hashes() {
    assert_eq!(FNameEntryId { value: 0x12345678 }.ue_hash(), 0xfb6fae13);
    assert_eq!(FNameEntryId { value: 0 }.ue_hash(), 0);
    assert_eq!(FNameEntryId { value: 7 }.ue_hash(), 0x70007);
    assert_eq!(FNameEntryId { value: 0xffffffff }.ue_hash(), 0x0ff7fffd);
    let name = FName { comparison_index: FNameEntryId { value: 0x12345678 }, number: 5 };
    assert_eq!(name.ue_hash(), 0xfb6fae18);
    assert_ne!(EFindName::Find, EFindName::Add);
}

#[test]
fn element_ids() {
    assert!(!FSetElementId { index: -1 }.is_valid());
    assert!(FSetElementId { index: 0 }.is_valid());
    assert!(FSetElementId { index: -2 }.is_valid());
}

#[test]
fn bit_array_bits() {
    let bits = TBitArray {
        allocator_instance: TInlineAllocator { inline_data: [0b1000, 0, 1, 0], secondary_data: None },
        num_bits: 128,
        max_bits: 128,
    };
    assert!(bits.index(3).bool());
    assert!(!bits.index(2).bool());
    assert!(bits.index(64).bool());
    assert_eq!(bits.get_data(), &[0b1000, 0, 1, 0]);
    let heap = TInlineAllocator::<4, u32> { inline_data: [0; 4], secondary_data: Some(vec![5, 6]) };
    assert_eq!(heap.get_allocation(), &[5, 6]);
    let r = FBitReference { data: &6, mask: 2 };
    assert!(r.bool());
}

fn name(v: u32) -> FName {
    FName { comparison_index: FNameEntryId { value: v }, number: 0 }
}

fn element(key: FName, value: u32, next: i32) -> TSparseArrayElementOrFreeListLink<TSetElement<TTuple<FName, u32>>> {
    TSparseArrayElementOrFreeListLink::Element(TSetElement {
        value: TTuple { a: key, b: value },
        hash_next_id: FSetElementId { index: next },
        hash_index: 0,
    })
}

fn sample_map() -> TMap<FName, u32> {
    // two buckets; keys 1 and 3 hash to bucket 1 and are chained 2 -> 0, key 2 is alone in bucket 0
    assert_eq!(name(1).ue_hash() & 1, 1);
    assert_eq!(name(3).ue_hash() & 1, 1);
    assert_eq!(name(2).ue_hash() & 1, 0);
    let mut data = TArray::new();
    data.push(element(name(1), 10, -1));
    data.push(element(name(2), 20, -1));
    data.push(element(name(3), 30, 0));
    data.push(TSparseArrayElementOrFreeListLink::ListLink(ListLink { next_free_index: -1, prev_free_index: -1 }));
    TMap {
        elements: TSparseArray {
            data,
            allocation_flags: TBitArray {
                allocator_instance: TInlineAllocator { inline_data: [0b0111, 0, 0, 0], secondary_data: None },
                num_bits: 4,
                max_bits: 128,
            },
            first_free_index: 3,
            num_free_indices: 1,
        },
        hash: TInlineAllocator { inline_data: [FSetElementId { index: 1 }], secondary_data: Some(vec![FSetElementId { index: 1 }, FSetElementId { index: 2 }]) },
        hash_size: 2,
    }
}

#[test]
fn map_lookup_follows_hash_chains() {
    let m = sample_map();
    assert_eq!(m.hash(), &[FSetElementId { index: 1 }, FSetElementId { index: 2 }]);
    assert_eq!(m.find_id(name(3)), FSetElementId { index: 2 });
    assert_eq!(m.find_id(name(1)), FSetElementId { index: 0 });
    assert_eq!(m.find_id(name(2)), FSetElementId { index: 1 });
    assert_eq!(m.find(name(1)), Some(&10));
    assert_eq!(m.find(name(2)), Some(&20));
    assert_eq!(m.find(name(3)), Some(&30));
    assert_eq!(m.find_id(name(5)), FSetElementId { index: -1 });
    assert_eq!(m.find(name(4)), None);
}

#[test]
fn map_with_only_free_slots_finds_nothing() {
    let mut m = sample_map();
    m.elements.num_free_indices = 4;
    assert_eq!(m.find_id(name(1)), FSetElementId { index: -1 });
    assert_eq!(m.elements.index(2).value.b, 30);
}

#[test]
fn default_map_is_empty() {
    let m: TMap<FName, u32> = TMap::default();
    assert_eq!(m.hash_size, 0);
    assert_eq!(m.elements.data.len(), 0);
    assert_eq!(m.find(name(1)), None);
    assert_eq!(m.find_id(name(7)), FSetElementId { index: -1 });
    let bits = TBitArray::default();
    assert_eq!(bits.num_bits, 0);
    assert_eq!(bits.get_data(), &[0u32, 0, 0, 0]);
    let sparse: TSparseArray<u8> = TSparseArray::default();
    assert_eq!(sparse.first_free_index, 0);
    assert!(sparse.data.is_empty());
}

#[test]
fn every_held_key_is_found() {
    let m = sample_map();
    for j in 0..m.elements.data.len() {
        if let TSparseArrayElementOrFreeListLink::Element(e) = &m.elements.data.as_slice()[j] {
            let id = m.find_id(e.value.a);
            assert_eq!(id, FSetElementId { index: j as i32 });
            assert_eq!(m.find(e.value.a), Some(&e.value.b));
        }
    }
}

#[test]
fn extension_that_reaches_the_capacity_grows_once_more() {
    // capacity 0, four elements: reserve(4) gives 4, and the fourth push reaches it
    let mut a: TArray<u8> = TArray::new();
    a.extend_from_slice(&[1, 2, 3, 4]);
    assert_eq!(a.as_slice(), &[1, 2, 3, 4]);
    assert_eq!(a.capacity(), 8);
    // a large capacity with room to spare does not grow
    let mut big: TArray<u8> = TArray::with_capacity(0x7FFF_0000);
    big.extend_from_slice(&[5, 6]);
    assert_eq!(big.capacity(), 0x7FFF_0000);
    assert_eq!(big.as_slice(), &[5, 6]);
}
