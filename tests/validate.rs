use bytes::Bytes;
use packetcrypt_sys::announce::check_ann_hashed;
use packetcrypt_sys::block::{check_block_hashed, header_and_proof};
use packetcrypt_sys::{check_ann, check_block_work, init, PacketCryptAnn, ValidateCtx};
use sodiumoxide::crypto::generichash;

const EASY: u32 = 0x207fffff;

fn digest(data: &[u8]) -> [u8; 32] {
    let d = generichash::hash(data, Some(32), None).unwrap();
    let mut out = [0u8; 32];
    out.copy_from_slice(&d[..]);
    out
}

fn good_ann(slot: u8, work: u32) -> [u8; 1024] {
    let mut a = [0u8; 1024];
    a[0] = 1;
    a[8..12].copy_from_slice(&work.to_le_bytes());
    a[24] = slot + 1;
    for i in 88..1024 {
        a[i] = (i % 251) as u8 ^ slot;
    }
    a
}

fn good_anns() -> Vec<[u8; 1024]> {
    (0..4).map(|i| good_ann(i, EASY)).collect()
}

fn header() -> Vec<u8> {
    (0..80).map(|i| i as u8).collect()
}

#[test]
fn init_succeeds() {
    assert!(init());
    assert!(init());
}

#[test]
fn all_zero_announcement_is_invalid() {
    init();
    let ann = PacketCryptAnn { bytes: Bytes::from(vec![0u8; 1024]) };
    let mut ctx = ValidateCtx::default();
    assert_eq!(check_ann(&ann, &[0u8; 32], &mut ctx), Err("INVAL"));
}

#[test]
fn short_announcement_is_invalid() {
    init();
    let full = good_ann(0, EASY);
    let mut ctx = ValidateCtx::default();
    for len in [0usize, 1, 16, 88, 1023] {
        let ann = PacketCryptAnn { bytes: Bytes::from(full[..len].to_vec()) };
        assert_eq!(check_ann(&ann, &[7u8; 32], &mut ctx), Err("INVAL"));
    }
}

#[test]
fn long_announcement_is_invalid() {
    let mut v = good_ann(0, EASY).to_vec();
    v.push(0);
    let ann = PacketCryptAnn { bytes: Bytes::from(v) };
    let mut ctx = ValidateCtx::default();
    assert_eq!(check_ann(&ann, &[7u8; 32], &mut ctx), Err("INVAL"));
}

#[test]
fn wrong_version_or_bad_work_bits_is_invalid() {
    let mut ctx = ValidateCtx::default();
    let mut a = good_ann(0, EASY);
    a[0] = 2;
    let ann = PacketCryptAnn { bytes: Bytes::from(a.to_vec()) };
    assert_eq!(check_ann(&ann, &[0u8; 32], &mut ctx), Err("INVAL"));
    let a = good_ann(0, 0x1d80ffff);
    let ann = PacketCryptAnn { bytes: Bytes::from(a.to_vec()) };
    assert_eq!(check_ann(&ann, &[0u8; 32], &mut ctx), Err("INVAL"));
}

#[test]
fn accepted_announcement_returns_its_hash() {
    init();
    let parent = [9u8; 32];
    let mut ctx = ValidateCtx::default();
    let mut found = false;
    for nonce in 0u32..200 {
        let mut a = good_ann(0, EASY);
        a[4..8].copy_from_slice(&nonce.to_le_bytes());
        let mut input = a.to_vec();
        input.extend_from_slice(&parent);
        let expect = digest(&input);
        let ann = PacketCryptAnn { bytes: Bytes::from(a.to_vec()) };
        let r = check_ann(&ann, &parent, &mut ctx);
        if expect[0] < 0x7f {
            assert_eq!(r, Ok(expect));
            found = true;
        } else if expect[0] > 0x7f {
            assert_eq!(r, Err("INSUF_POW"));
        }
    }
    assert!(found);
}

#[test]
fn announcement_check_is_deterministic() {
    let parent = [3u8; 32];
    let ann = PacketCryptAnn { bytes: Bytes::from(good_ann(1, EASY).to_vec()) };
    let mut ctx = ValidateCtx::default();
    let first = check_ann(&ann, &parent, &mut ctx);
    let second = check_ann(&ann, &parent, &mut ctx);
    let mut other_ctx = ValidateCtx::default();
    let third = check_ann(&ann, &parent, &mut other_ctx);
    assert_eq!(first, second);
    assert_eq!(first, third);
}

#[test]
fn hard_target_gives_insufficient_work() {
    let ann = PacketCryptAnn { bytes: Bytes::from(good_ann(0, 0x03000001).to_vec()) };
    let mut ctx = ValidateCtx::default();
    assert_eq!(check_ann(&ann, &[1u8; 32], &mut ctx), Err("INSUF_POW"));
}

#[test]
fn announcement_outcome_for_a_given_hash() {
    let a = good_ann(0, EASY);
    let mut low = [0u8; 32];
    low[0] = 0x7f;
    assert_eq!(check_ann_hashed(&a, low), Ok(low));
    let mut high = [0u8; 32];
    high[0] = 0x80;
    assert_eq!(check_ann_hashed(&a, high), Err("INSUF_POW"));
    assert_eq!(check_ann_hashed(&a[..100], low), Err("INVAL"));
}

#[test]
fn all_zero_share_is_invalid() {
    init();
    let anns = vec![[0u8; 1024]; 4];
    assert_eq!(check_block_work(&[0u8; 80], 0, EASY, &anns, &[]), Err("INVAL"));
}

#[test]
fn share_with_wrong_sizes_is_invalid() {
    let anns = good_anns();
    assert_eq!(check_block_work(&[0u8; 79], 0, EASY, &anns, &[]), Err("INVAL"));
    assert_eq!(check_block_work(&header(), 0, EASY, &anns[..3], &[]), Err("INVAL"));
    assert_eq!(check_block_work(&header(), 0, 0x1d800001, &anns, &[]), Err("INVAL"));
}

#[test]
fn share_meeting_target_returns_recomputed_hash() {
    init();
    let anns = good_anns();
    let coinbase = vec![5u8, 6, 7];
    let mut found = false;
    for nonce in 0u32..200 {
        let mut input = header();
        input.extend_from_slice(&[0, 0, 0, 0]);
        input.extend_from_slice(&nonce.to_le_bytes());
        for a in &anns {
            input.extend_from_slice(a);
        }
        input.extend_from_slice(&coinbase);
        let expect = digest(&input);
        let r = check_block_work(&header(), nonce, EASY, &anns, &coinbase);
        if expect[0] < 0x7f {
            assert_eq!(r, Ok(expect));
            found = true;
        } else if expect[0] > 0x7f {
            assert_eq!(r, Err("INSUF_POW"));
        }
    }
    assert!(found);
}

#[test]
fn header_and_proof_layout() {
    let anns = good_anns();
    let hap = header_and_proof(&header(), 0x0403_0201, &anns);
    assert_eq!(hap.len(), 4184);
    assert_eq!(&hap[..80], &header()[..]);
    assert_eq!(&hap[80..88], &[0, 0, 0, 0, 1, 2, 3, 4]);
    for (i, a) in anns.iter().enumerate() {
        assert_eq!(&hap[88 + 1024 * i..88 + 1024 * (i + 1)], &a[..]);
    }
}

#[test]
fn changing_any_announcement_byte_changes_share_hash() {
    let anns = good_anns();
    let base = digest(&header_and_proof(&header(), 0, &anns));
    for slot in 0..4 {
        for at in [0usize, 5, 100, 1023] {
            let mut changed = anns.clone();
            changed[slot][at] ^= 0x01;
            let h = digest(&header_and_proof(&header(), 0, &changed));
            assert_ne!(h, base);
        }
    }
}

#[test]
fn soft_nonce_above_maximum_is_refused() {
    let mut anns = good_anns();
    anns[1][1] = 0xff;
    anns[1][2] = 0xff;
    assert_ne!(check_block_work(&header(), 0, EASY, &anns, &[1, 2]), Err("SOFT_NONCE_HIGH"));
    anns[1][3] = 1;
    assert_eq!(check_block_work(&header(), 0, EASY, &anns, &[1, 2]), Err("SOFT_NONCE_HIGH"));
}

#[test]
fn repeated_item_in_slot_four_is_refused() {
    let mut anns = good_anns();
    anns[3][24] = anns[0][24];
    assert_eq!(check_block_work(&header(), 0, EASY, &anns, &[]), Err("INVAL_ITEM4"));
}

#[test]
fn share_outcome_for_a_given_hash() {
    let anns = good_anns();
    let mut low = [0u8; 32];
    low[2] = 1;
    assert_eq!(check_block_hashed(&header(), EASY, &anns, low), Ok(low));
    assert_eq!(check_block_hashed(&header(), EASY, &anns, [0xff; 32]), Err("INSUF_POW"));
    assert_eq!(check_block_hashed(&header(), 0x03000001, &anns, [0xff; 32]), Err("INSUF_POW"));
    let mut zeros = anns.clone();
    zeros[2] = [0u8; 1024];
    assert_eq!(check_block_hashed(&header(), EASY, &zeros, low), Err("INVAL"));
}
