use create_gadget::word::{Address, Word};

#[test]
fn a_word_is_its_limbs_least_significant_first() {
    let word = Word { limbs: [0x0807_0605_0403_0201, 0x10, 0x20, 0x30] };
    let mut expected = vec![0u8; 32];
    for i in 0..8 {
        expected[i] = i as u8 + 1;
    }
    expected[8] = 0x10;
    expected[16] = 0x20;
    expected[24] = 0x30;
    assert_eq!(word.to_le_bytes(), expected);
    assert_eq!(word.low_u64(), 0x0807_0605_0403_0201);
    assert_eq!(word.to_usize(), None);
}

#[test]
fn a_word_of_one_limb_is_a_usize() {
    let word = Word::from_u64(77);
    assert_eq!(word.to_usize(), Some(77));
    assert_eq!(word.as_usize(), 77);
    assert_eq!(word.low_u64(), 77);
    assert_eq!(Word::zero(), Word::from_u64(0));
    assert_eq!(Word::zero().to_le_bytes(), vec![0; 32]);
    for k in 1..4 {
        let mut limbs = [0u64; 4];
        limbs[k] = 1;
        assert_eq!(Word { limbs }.to_usize(), None);
        assert_eq!(Word { limbs }.low_u64(), 0);
    }
}

#[test]
fn the_words_agree_with_the_machine_words_of_ethereum() {
    let limbs = [0x0123_4567_89ab_cdef, 0xfedc_ba98_7654_3210, 5, 0x8000_0000_0000_0000];
    let mut expected = [0u8; 32];
    ethers_core::types::U256(limbs).to_little_endian(&mut expected);
    assert_eq!(Word { limbs }.to_le_bytes(), expected.to_vec());
    assert_eq!(Word { limbs }.low_u64(), ethers_core::types::U256(limbs).low_u64());
}

#[test]
fn an_address_is_read_from_its_end() {
    let mut bytes = [0u8; 20];
    for i in 0..20 {
        bytes[i] = i as u8;
    }
    let mut expected = bytes.to_vec();
    expected.reverse();
    assert_eq!(Address { bytes }.to_le_bytes(), expected);
}
