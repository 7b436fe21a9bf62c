use lib::nestfs::bp::{NestBlockPointer, NestCksumType};
use lib::nestfs::checksum::{Checksum, NestChecksum};
use lib::nestfs::dedup::{cas_aware_write, cas_ref_count, sha256, sha256_matches, CasIndex};

fn hex(s: &str) -> Vec<u8> {
    (0..s.len()).step_by(2).map(|i| u8::from_str_radix(&s[i..i + 2], 16).unwrap()).collect()
}

#[test]
fn sha256_known_answers() {
    assert_eq!(
        sha256(b"").to_vec(),
        hex("e3b0c44298fc1c149afbf4c8996fb92427ae41e4649b934ca495991b7852b855")
    );
    assert_eq!(
        sha256(b"abc").to_vec(),
        hex("ba7816bf8f01cfea414140de5dae2223b00361a396177a9cb410ff61f20015ad")
    );
    assert_eq!(
        sha256(b"abcdbcdecdefdefgefghfghighijhijkijkljklmklmnlmnomnopnopq").to_vec(),
        hex("248d6a61d20638b8e5c026930c3e6039a33ce45964ff2167f6ecedd419db06c1")
    );
}

#[test]
fn sha256_match_check() {
    let h = sha256(b"hello");
    assert!(sha256_matches(b"hello", &h));
    assert!(!sha256_matches(b"hellp", &h));
}

#[test]
fn checksum_sha256_words_big_endian() {
    let c = NestChecksum::compute(NestCksumType::SHA256, b"abc");
    assert_eq!(c.value[0], 0xba7816bf8f01cfea);
    assert_eq!(c.value[3], 0xb410ff61f20015ad);
    assert!(c.verify(b"abc"));
    assert!(!c.verify(b"abd"));
}

#[test]
fn fletcher4_two_words() {
    let data: Vec<u8> = (1..=16).collect();
    let w0: u64 = 0x0807060504030201;
    let w1: u64 = 0x100f0e0d0c0b0a09;
    let c = NestChecksum::compute(NestCksumType::Fletcher4, &data);
    assert_eq!(c.value, [w0.wrapping_add(w1), w0.wrapping_mul(2).wrapping_add(w1), w0.wrapping_mul(3).wrapping_add(w1), w0.wrapping_mul(4).wrapping_add(w1)]);
    let e = NestChecksum::compute(NestCksumType::EdonR, &data);
    assert_eq!(e.value, c.value);
}

#[test]
fn fletcher2_pads_last_word() {
    let c = NestChecksum::compute(NestCksumType::Fletcher2, &[1, 2, 3]);
    assert_eq!(c.value, [0x030201, 0x030201, 0, 0]);
    let off = NestChecksum::compute(NestCksumType::Off, &[1, 2, 3]);
    assert_eq!(off.value, [0, 0, 0, 0]);
    assert_eq!(NestChecksum::new(NestCksumType::Fletcher2).value, [0, 0, 0, 0]);
}

#[test]
fn checksum_trait_object_use() {
    let ck = NestChecksum::new(NestCksumType::Off);
    let v = Checksum::compute(&ck, NestCksumType::Fletcher4, &[9u8; 8]);
    assert!(Checksum::verify(&ck, NestCksumType::Fletcher4, &[9u8; 8], &v));
    assert!(!Checksum::verify(&ck, NestCksumType::Fletcher4, &[8u8; 8], &v));
}

#[test]
fn cas_aware_write_dedups_known_content() {
    let mut cas = CasIndex::new();
    let data = b"block contents";
    assert!(cas_aware_write(&mut cas, data, 1, 5).is_none());
    let h = sha256(data);
    let mut bp = NestBlockPointer::null();
    bp.birth_txg = 7;
    cas.insert(h, bp);
    assert_eq!(cas_ref_count(&cas, &h), 1);
    let got = cas_aware_write(&mut cas, data, 2, 5).unwrap();
    assert_eq!(got.birth_txg, 7);
    assert_eq!(cas_ref_count(&cas, &h), 2);
}
