use crc32::crc::hash;
use crc32::crc::table;

#[test]
fn table_is_deterministic() {
    let t1 = table();
    let t2 = table();
    for i in 0..256 {
        assert_eq!(t1[i], t2[i]);
    }
}

#[test]
fn table_entry_zero() {
    let t = table();
    assert_eq!(t[0], 0x00000000u32);
}

#[test]
fn table_entry_one() {
    let t = table();
    assert_eq!(t[1], 0x77073096u32);
}

#[test]
fn hash_empty_input() {
    let t = table();
    assert_eq!(hash(&[], &t), 0x00000000u32);
}

#[test]
fn hash_test_string() {
    let t = table();
    assert_eq!(hash("This is a test string!".as_bytes(), &t), 0xad03acc5u32);
}

#[test]
fn hash_single_byte_matches_one_fold_step() {
    let t = table();
    let b: u8 = 0x61;
    let acc: u32 = 0xffffffff;
    let folded_once = (acc >> 8) ^ t[((acc & 0xff) ^ b as u32) as usize];
    assert_eq!(hash(&[b], &t), !folded_once);
    assert_eq!(hash(&[b], &t), 0xe8b7be43u32);
}

#[test]
fn hash_is_pure() {
    let t1 = table();
    let t2 = table();
    let data = b"repeatable";
    assert_eq!(hash(data, &t1), hash(data, &t1));
    assert_eq!(hash(data, &t1), hash(data, &t2));
}

#[test]
fn hash_check_value() {
    let t = table();
    assert_eq!(hash(b"123456789", &t), 0xcbf43926u32);
}
