use blockchainblock::blockchainblock::{header_message, leaves_of};
use blockchainblock::digest::{hash_bytes, same_hash};
use blockchainblock::byteable::{append_bytes, join_bytes, u32_to_bytes, u64_to_bytes, unsigned_of};
use blockchainblock::merkle::{chain_root_of_hashes, merkle_hash, merkle_root_of_leaves};
use blockchainblock::{BlockHash, BlockchainBlock, Byteable, Hashable, BLOCKHASHLEN, VERSION};

fn sha256(data: &[u8]) -> Vec<u8> {
    crypto_hash::digest(crypto_hash::Algorithm::SHA256, data)
}

fn shelf(indent: &str) -> String {
    let lines = [
        "\"Adventures of Huckleberry Finn\": \"My favorite book.\",",
        "\"Grimms' Fairy Tales\": \"Masterpiece.\",",
        "\"Pride and Prejudice\": \"Very enjoyable.\",",
        "\"The Adventures of Sherlock Holmes\": \"Eye lyked it alot.\",",
    ];
    let mut text = String::from("{\n");
    for line in lines.iter() {
        text.push_str(indent);
        text.push_str(line);
        text.push('\n');
    }
    text.push_str(indent);
    text.push('}');
    text
}

#[test]
fn constants_have_protocol_values() {
    assert_eq!(VERSION, 1);
    assert_eq!(BLOCKHASHLEN, 32);
}

#[test]
fn i32_bytes_are_little_endian() {
    assert_eq!(5i32.bytes(), vec![5, 0, 0, 0]);
    assert_eq!(0x01020304i32.bytes(), vec![4, 3, 2, 1]);
    assert_eq!((-2i32).bytes(), vec![0xfe, 0xff, 0xff, 0xff]);
    assert_eq!(i32::MIN.bytes(), vec![0, 0, 0, 0x80]);
}

#[test]
fn string_bytes_are_utf8() {
    assert_eq!(String::from("ab").bytes(), vec![97, 98]);
    assert_eq!(String::from("é").bytes(), vec![0xc3, 0xa9]);
    assert_eq!(String::new().bytes(), Vec::<u8>::new());
}

#[test]
fn slice_bytes_are_concatenated_in_order() {
    let data: [i32; 2] = [1, 2];
    assert_eq!(data[..].bytes(), vec![1, 0, 0, 0, 2, 0, 0, 0]);
    let words = [String::from("ab"), String::from(""), String::from("c")];
    assert_eq!(words[..].bytes(), vec![97, 98, 99]);
    let none: [i32; 0] = [];
    assert_eq!(none[..].bytes(), Vec::<u8>::new());
}

#[test]
fn hash_bytes_is_sha256() {
    let out = hash_bytes(&b"crypto-hash".to_vec());
    let expected: [u8; 32] = [
        0xfd, 0x1a, 0xfb, 0x60, 0x22, 0xcd, 0x4d, 0x47, 0xc8, 0x90, 0x96, 0x1c, 0x53, 0x39, 0x28,
        0xea, 0xcf, 0xe8, 0x21, 0x9f, 0x1b, 0x25, 0x24, 0xf7, 0xfb, 0x2a, 0x61, 0x84, 0x7d, 0xdf,
        0x8c, 0x27,
    ];
    assert_eq!(out, expected);
    assert_ne!(out.to_vec(), b"crypto-hash".to_vec());
}

#[test]
fn same_hash_compares_every_byte() {
    let a: BlockHash = [7; 32];
    let mut b: BlockHash = [7; 32];
    assert!(same_hash(&a, &b));
    b[31] = 8;
    assert!(!same_hash(&a, &b));
    b[31] = 7;
    b[0] = 0;
    assert!(!same_hash(&a, &b));
}

#[test]
fn append_bytes_adds_at_the_end() {
    let mut target: Vec<u8> = vec![1, 2];
    append_bytes(&mut target, &[3, 4]);
    assert_eq!(target, vec![1, 2, 3, 4]);
    append_bytes(&mut target, &[]);
    assert_eq!(target, vec![1, 2, 3, 4]);
}

#[test]
fn join_bytes_keeps_order() {
    assert_eq!(join_bytes(&[1, 2], &[3]), vec![1, 2, 3]);
    assert_eq!(join_bytes(&[], &[3]), vec![3]);
    assert_eq!(join_bytes(&[1], &[]), vec![1]);
}

#[test]
fn merkle_hash_hashes_left_then_right() {
    let left: BlockHash = [1; 32];
    let right: BlockHash = [2; 32];
    let mut joined = left.to_vec();
    joined.extend_from_slice(&right);
    assert_eq!(merkle_hash(&left, &right).to_vec(), sha256(&joined));
    assert_ne!(merkle_hash(&left, &right), merkle_hash(&right, &left));
}

#[test]
fn leaves_of_lists_each_items_bytes() {
    let data: [i32; 3] = [1, 2, 3];
    assert_eq!(
        leaves_of(&data[..]),
        vec![vec![1, 0, 0, 0], vec![2, 0, 0, 0], vec![3, 0, 0, 0]]
    );
}

#[test]
fn merkle_root_of_single_leaf_pairs_it_with_itself() {
    let x = vec![9u8, 8, 7];
    let root = merkle_root_of_leaves(&[x.clone()]);
    assert_eq!(root.to_vec(), sha256(&[9, 8, 7, 9, 8, 7]));
    let data: [i32; 1] = [5];
    let block = BlockchainBlock::new(None, &data, 4, 3);
    assert_eq!(block.merkle_root.to_vec(), sha256(&[5, 0, 0, 0, 5, 0, 0, 0]));
}

#[test]
fn merkle_root_of_pair_joins_the_raw_bytes() {
    let root = merkle_root_of_leaves(&[vec![1u8, 2], vec![3u8]]);
    assert_eq!(root.to_vec(), sha256(&[1, 2, 3]));
    let data: [i32; 2] = [5, 6];
    let block = BlockchainBlock::new(None, &data, 4, 3);
    assert_eq!(block.merkle_root.to_vec(), sha256(&[5, 0, 0, 0, 6, 0, 0, 0]));
}

#[test]
fn merkle_root_of_three_splits_one_and_two() {
    let a = vec![1u8];
    let b = vec![2u8];
    let c = vec![3u8];
    let left = merkle_root_of_leaves(&[a.clone()]);
    let right = merkle_root_of_leaves(&[b.clone(), c.clone()]);
    let mut joined = left.to_vec();
    joined.extend_from_slice(&right);
    let root = merkle_root_of_leaves(&[a, b, c]);
    assert_eq!(root.to_vec(), sha256(&joined));
    let mut swapped = right.to_vec();
    swapped.extend_from_slice(&left);
    assert_ne!(root.to_vec(), sha256(&swapped));
}

#[test]
fn merkle_root_of_five_splits_two_and_three() {
    let leaves: Vec<Vec<u8>> = (0u8..5).map(|i| vec![i]).collect();
    let left = sha256(&[0, 1]);
    let mut right_in = sha256(&[2, 2]);
    right_in.extend_from_slice(&sha256(&[3, 4]));
    let right = sha256(&right_in);
    let mut joined = left;
    joined.extend_from_slice(&right);
    assert_eq!(merkle_root_of_leaves(&leaves).to_vec(), sha256(&joined));
}

#[test]
fn header_message_has_fixed_field_order() {
    let root: BlockHash = [9; 32];
    let without = header_message(&None, &vec![5, 0, 0, 0], 4, 3, &root, 1);
    let mut expected: Vec<u8> = vec![5, 0, 0, 0, 4, 0, 0, 0, 0, 0, 0, 0, 3, 0, 0, 0, 0, 0, 0, 0];
    expected.extend_from_slice(&[9; 32]);
    expected.push(1);
    assert_eq!(without, expected);
    let with = header_message(&Some([2; 32]), &vec![5, 0, 0, 0], 0x0102030405060708, 3, &root, 1);
    let mut expected: Vec<u8> = vec![2; 32];
    expected.extend_from_slice(&[5, 0, 0, 0, 8, 7, 6, 5, 4, 3, 2, 1, 3, 0, 0, 0, 0, 0, 0, 0]);
    expected.extend_from_slice(&[9; 32]);
    expected.push(1);
    assert_eq!(with, expected);
}

#[test]
fn new_block_with_one_integer_has_known_hash() {
    let prev: Option<BlockHash> = None;
    let nonce: u64 = 3;
    let timestamp: u64 = 4;
    let data: [i32; 1] = [5];
    let block: BlockchainBlock<i32> = BlockchainBlock::new(prev, &data, timestamp, nonce);
    assert_eq!(
        block.curr_hash,
        [
            23, 105, 91, 179, 190, 192, 178, 189, 198, 134, 87, 143, 214, 135, 93, 17, 50, 143,
            192, 3, 254, 144, 115, 123, 42, 223, 197, 199, 181, 113, 224, 123
        ]
    );
    assert_eq!(block.prev_hash, None);
    assert_eq!(block.timestamp, 4);
    assert_eq!(block.nonce, 3);
    assert_eq!(block.version, VERSION);
    assert_eq!(block.data, &data[..]);
}

#[test]
fn new_block_hash_is_digest_of_header_message() {
    let data = [String::from("one"), String::from("two"), String::from("three")];
    let prev: Option<BlockHash> = Some([1; BLOCKHASHLEN]);
    let block = BlockchainBlock::new(prev, &data, 1524885322, 3);
    let message = header_message(
        &prev,
        &data[..].bytes(),
        1524885322,
        3,
        &block.merkle_root,
        VERSION,
    );
    assert_eq!(block.curr_hash.to_vec(), sha256(&message));
    assert_eq!(block.merkle_root, merkle_root_of_leaves(&leaves_of(&data[..])));
}

#[test]
fn new_block_with_two_strings_links_to_previous() {
    let books = [shelf("   "), shelf("   ")];
    let prev: Option<BlockHash> = Some([1; BLOCKHASHLEN]);
    let nonce: u64 = 3;
    let timestamp = std::time::Duration::from_secs(1524885322).as_secs();
    let block: BlockchainBlock<String> =
        BlockchainBlock::new(prev, &books, timestamp, nonce);
    assert_eq!(
        block.curr_hash,
        [
            220, 149, 236, 219, 173, 29, 131, 71, 35, 245, 97, 228, 58, 247, 45, 86, 197, 104, 26,
            236, 232, 98, 144, 4, 220, 210, 177, 17, 235, 113, 214, 18
        ]
    );
}

#[test]
fn empty_payload_leaves_zero_merkle_root() {
    let data: [i32; 0] = [];
    let block = BlockchainBlock::new(None, &data, 10, 20);
    assert_eq!(block.merkle_root, [0u8; 32]);
    let message = header_message(&None, &Vec::new(), 10, 20, &[0u8; 32], VERSION);
    assert_eq!(block.curr_hash.to_vec(), sha256(&message));
    assert!(!block.check_value_inblock(&1, 0));
}

#[test]
fn construction_is_deterministic() {
    let data: [i32; 4] = [1, 2, 3, 4];
    let a = BlockchainBlock::new(Some([7; 32]), &data, 100, 200);
    let b = BlockchainBlock::new(Some([7; 32]), &data, 100, 200);
    assert_eq!(a.curr_hash, b.curr_hash);
    assert_eq!(a.merkle_root, b.merkle_root);
}

#[test]
fn previous_hash_changes_current_hash() {
    let data: [i32; 2] = [1, 2];
    let first = BlockchainBlock::new(None, &data, 100, 200);
    let second = BlockchainBlock::new(Some([0; 32]), &data, 100, 200);
    let third = BlockchainBlock::new(Some([1; 32]), &data, 100, 200);
    assert_ne!(first.curr_hash, second.curr_hash);
    assert_ne!(second.curr_hash, third.curr_hash);
    assert_eq!(first.merkle_root, second.merkle_root);
    assert_eq!(second.merkle_root, third.merkle_root);
}

#[test]
fn header_fields_change_hash_but_not_merkle_root() {
    let data: [i32; 2] = [1, 2];
    let a = BlockchainBlock::new(None, &data, 100, 200);
    let b = BlockchainBlock::new(None, &data, 101, 200);
    let c = BlockchainBlock::new(None, &data, 100, 201);
    assert_ne!(a.curr_hash, b.curr_hash);
    assert_ne!(a.curr_hash, c.curr_hash);
    assert_eq!(a.merkle_root, b.merkle_root);
    assert_eq!(a.merkle_root, c.merkle_root);
}

#[test]
fn changing_one_leaf_changes_merkle_root() {
    let data: [i32; 5] = [1, 2, 3, 4, 5];
    let block = BlockchainBlock::new(None, &data, 1, 1);
    for position in 0..5 {
        let mut other = data;
        other[position] = 99;
        let changed = BlockchainBlock::new(None, &other, 1, 1);
        assert_ne!(block.merkle_root, changed.merkle_root);
    }
}

#[test]
fn check_value_inblock_finds_string() {
    let string_check =
        String::from("{\"The Adventures of Sherlock Holmes\",\"Grimms' Fairy Tales\"}");
    let books = [
        String::from("{\"Adventures of Huckleberry Finn\",\"Grimms' Fairy Tales\"}"),
        String::from(
            "{\"Eloquent JavaScript, Second Edition\",\"Learning JavaScript Design Patterns\"}",
        ),
        string_check.clone(),
        String::from("{\"Speaking JavaScript\",\"Programming JavaScript Applications\"}"),
    ];
    let prev: Option<BlockHash> = None;
    let nonce: u64 = 1;
    let timestamp = std::time::Duration::from_secs(1524885322).as_secs();
    let block: BlockchainBlock<String> =
        BlockchainBlock::new(prev, &books, timestamp, nonce);
    assert_eq!(block.check_value_inblock(&string_check, 2), true);
    assert_eq!(block.check_value_inblock(&string_check, 1), false);
}

#[test]
fn check_value_inblock_accepts_each_committed_value() {
    let data: [i32; 5] = [10, 20, 30, 40, 50];
    let block = BlockchainBlock::new(None, &data, 1, 1);
    for position in 0..5 {
        assert!(block.check_value_inblock(&data[position], position));
    }
}

#[test]
fn check_value_inblock_rejects_other_values() {
    let data: [i32; 5] = [10, 20, 30, 40, 50];
    let block = BlockchainBlock::new(None, &data, 1, 1);
    for position in 0..5 {
        assert!(!block.check_value_inblock(&(data[position] + 1), position));
        assert!(!block.check_value_inblock(&data[(position + 1) % 5], position));
    }
}

#[test]
fn check_value_inblock_is_false_out_of_bounds() {
    let data: [i32; 3] = [10, 20, 30];
    let block = BlockchainBlock::new(None, &data, 1, 1);
    assert!(!block.check_value_inblock(&10, 3));
    assert!(!block.check_value_inblock(&30, 4));
    assert!(!block.check_value_inblock(&30, usize::MAX));
}

#[test]
fn calculate_merkle_root_matches_engine() {
    let data: [i32; 3] = [1, 2, 3];
    let block = BlockchainBlock::new(None, &data, 1, 1);
    let other: [i32; 2] = [8, 9];
    let root = block.calculate_merkle_root(&other);
    assert_eq!(root.to_vec(), sha256(&[8, 0, 0, 0, 9, 0, 0, 0]));
    let left: BlockHash = [3; 32];
    let right: BlockHash = [4; 32];
    assert_eq!(block.calculate_merkle_hash(&left, &right), merkle_hash(&left, &right));
}

#[test]
fn calculate_hash_stores_hash_of_current_fields() {
    let data: [i32; 1] = [5];
    let mut block = BlockchainBlock::new(None, &data, 4, 3);
    let before = block.curr_hash;
    block.nonce = 4;
    block.calculate_hash();
    assert_ne!(block.curr_hash, before);
    let message = header_message(&None, &vec![5, 0, 0, 0], 4, 4, &block.merkle_root, VERSION);
    assert_eq!(block.curr_hash.to_vec(), sha256(&message));
    block.nonce = 3;
    block.calculate_hash();
    assert_eq!(block.curr_hash, before);
}

#[test]
fn chain_root_of_one_hash_is_that_hash() {
    let only: BlockHash = [5; 32];
    assert_eq!(chain_root_of_hashes(&[only]), only);
}

#[test]
fn chain_root_of_two_and_three_hashes() {
    let a: BlockHash = [1; 32];
    let b: BlockHash = [2; 32];
    let c: BlockHash = [3; 32];
    let mut ab = a.to_vec();
    ab.extend_from_slice(&b);
    assert_eq!(chain_root_of_hashes(&[a, b]).to_vec(), sha256(&ab));
    let mut bc = b.to_vec();
    bc.extend_from_slice(&c);
    let mut abc = a.to_vec();
    abc.extend_from_slice(&sha256(&bc));
    assert_eq!(chain_root_of_hashes(&[a, b, c]).to_vec(), sha256(&abc));
}

#[test]
fn new_in_chain_without_prior_blocks_is_its_own_root() {
    let data: [i32; 1] = [5];
    let block = BlockchainBlock::new_in_chain(None, &data, 4, 3, &[]);
    let message = header_message(&None, &vec![5, 0, 0, 0], 4, 3, &[0u8; 32], VERSION);
    assert_eq!(block.curr_hash.to_vec(), sha256(&message));
    assert_eq!(block.merkle_root, block.curr_hash);
    assert_eq!(block.version, VERSION);
}

#[test]
fn new_in_chain_summarizes_prior_hashes_in_order() {
    let data: [i32; 1] = [5];
    let first = BlockchainBlock::new_in_chain(None, &data, 1, 1, &[]);
    let second = BlockchainBlock::new_in_chain(Some(first.curr_hash), &data, 2, 1, &[]);
    let third_data: [i32; 2] = [6, 7];
    let prior = [first, second];
    let third =
        BlockchainBlock::new_in_chain(Some(prior[1].curr_hash), &third_data, 3, 1, &prior);
    let message = header_message(
        &Some(prior[1].curr_hash),
        &third_data[..].bytes(),
        3,
        1,
        &[0u8; 32],
        VERSION,
    );
    assert_eq!(third.curr_hash.to_vec(), sha256(&message));
    assert_eq!(
        third.merkle_root,
        chain_root_of_hashes(&[prior[0].curr_hash, prior[1].curr_hash, third.curr_hash])
    );
    let mut right = prior[1].curr_hash.to_vec();
    right.extend_from_slice(&third.curr_hash);
    let mut top = prior[0].curr_hash.to_vec();
    top.extend_from_slice(&sha256(&right));
    assert_eq!(third.merkle_root.to_vec(), sha256(&top));
    let again =
        BlockchainBlock::new_in_chain(Some(prior[1].curr_hash), &third_data, 3, 1, &prior);
    assert_eq!(again.curr_hash, third.curr_hash);
    assert_eq!(again.merkle_root, third.merkle_root);
}

#[test]
fn integer_encodings_are_little_endian() {
    assert_eq!(u32_to_bytes(0xa1b2c3d4), vec![0xd4, 0xc3, 0xb2, 0xa1]);
    assert_eq!(u32_to_bytes(0xa1b2c3d4), 0xa1b2c3d4u32.to_le_bytes().to_vec());
    assert_eq!(
        u64_to_bytes(0x0102030405060708),
        vec![8, 7, 6, 5, 4, 3, 2, 1]
    );
    assert_eq!(u64_to_bytes(u64::MAX), u64::MAX.to_le_bytes().to_vec());
    assert_eq!(u64_to_bytes(1524885322), 1524885322u64.to_le_bytes().to_vec());
    assert_eq!(unsigned_of(-1), u32::MAX);
    assert_eq!(unsigned_of(i32::MIN), 0x8000_0000);
    assert_eq!(unsigned_of(i32::MAX), 0x7fff_ffff);
    assert_eq!(unsigned_of(0), 0);
    assert_eq!((-1i32).bytes(), (-1i32).to_le_bytes().to_vec());
    assert_eq!(i32::MIN.bytes(), i32::MIN.to_le_bytes().to_vec());
}
