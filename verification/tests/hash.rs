use apt_cmd::hash::{check_size, compare_digest, compare_hash, ChecksumError, ChecksumVerifier};
use apt_cmd::request::RequestChecksum;

const ABC_MD5: &str = "900150983cd24fb0d6963f7d28e17f72";
const ABC_SHA1: &str = "a9993e364706816aba3e25717850c26c9cd0d89d";
const ABC_SHA256: &str = "ba7816bf8f01cfea414140de5dae2223b00361a396177a9cb410ff61f20015ad";
const ABC_SHA512: &str = "ddaf35a193617abacc417349ae20413112e6fa4e89a97ea20a9eeee64b55d39a2192992a274fc1a836ba3c23a3feebbd454d4423643ce80e2a9ac94fa54ca49f";
const EMPTY_SHA256: &str = "e3b0c44298fc1c149afbf4c8996fb92427ae41e4649b934ca495991b7852b855";

#[test]
fn digest_of_each_algorithm_is_accepted() {
    assert!(compare_hash(b"abc", 3, &RequestChecksum::Md5(ABC_MD5.to_string())).is_ok());
    assert!(compare_hash(b"abc", 3, &RequestChecksum::Sha1(ABC_SHA1.to_string())).is_ok());
    assert!(compare_hash(b"abc", 3, &RequestChecksum::Sha256(ABC_SHA256.to_string())).is_ok());
    assert!(compare_hash(b"abc", 3, &RequestChecksum::Sha512(ABC_SHA512.to_string())).is_ok());
    assert!(compare_hash(b"", 0, &RequestChecksum::Sha256(EMPTY_SHA256.to_string())).is_ok());
}

#[test]
fn digest_in_upper_case_is_accepted() {
    assert!(compare_hash(b"abc", 3, &RequestChecksum::Md5(ABC_MD5.to_uppercase())).is_ok());
}

#[test]
fn digest_of_other_content_is_a_mismatch() {
    assert!(matches!(
        compare_hash(b"abd", 3, &RequestChecksum::Sha256(ABC_SHA256.to_string())),
        Err(ChecksumError::Mismatch)
    ));
    assert!(matches!(
        compare_hash(b"abc", 3, &RequestChecksum::Sha256(EMPTY_SHA256.to_string())),
        Err(ChecksumError::Mismatch)
    ));
}

#[test]
fn digest_of_another_algorithm_is_invalid_input() {
    assert!(matches!(
        compare_hash(b"abc", 3, &RequestChecksum::Sha256(ABC_MD5.to_string())),
        Err(ChecksumError::InvalidInput(text)) if text == format!("SHA256 {}", ABC_MD5)
    ));
}

#[test]
fn malformed_digest_is_invalid_input() {
    assert!(matches!(
        compare_hash(b"abc", 3, &RequestChecksum::Md5("zz".to_string())),
        Err(ChecksumError::InvalidInput(text)) if text == "MD5 zz"
    ));
    assert!(matches!(
        compare_hash(b"abc", 3, &RequestChecksum::Sha1("a9993e364706816aba3e25717850c26c9cd0d89".to_string())),
        Err(ChecksumError::InvalidInput(text)) if text == "SHA1 a9993e364706816aba3e25717850c26c9cd0d89"
    ));
    let not_hex = "g00150983cd24fb0d6963f7d28e17f72";
    assert!(matches!(
        compare_hash(b"abc", 3, &RequestChecksum::Md5(not_hex.to_string())),
        Err(ChecksumError::InvalidInput(text)) if text == format!("MD5 {}", not_hex)
    ));
    let not_ascii = "\u{e9}0150983cd24fb0d6963f7d28e17f7";
    assert!(matches!(
        compare_hash(b"abc", 3, &RequestChecksum::Md5(not_ascii.to_string())),
        Err(ChecksumError::InvalidInput(_))
    ));
    assert!(matches!(
        compare_hash(b"abc", 3, &RequestChecksum::Sha512(String::new())),
        Err(ChecksumError::InvalidInput(text)) if text == "SHA512 "
    ));
}

#[test]
fn short_file_is_reported_before_hashing() {
    let content = [0u8; 9];
    assert!(matches!(
        compare_hash(&content, 10, &RequestChecksum::Sha256(EMPTY_SHA256.to_string())),
        Err(ChecksumError::InvalidSize { found: 9, expected: 10 })
    ));
    assert!(matches!(
        compare_hash(&content, 10, &RequestChecksum::Sha256("not hex".to_string())),
        Err(ChecksumError::InvalidSize { found: 9, expected: 10 })
    ));
}

#[test]
fn size_check_alone() {
    assert!(check_size(10, 10).is_ok());
    assert!(matches!(check_size(9, 10), Err(ChecksumError::InvalidSize { found: 9, expected: 10 })));
    assert!(matches!(
        check_size(4096, 2048),
        Err(ChecksumError::InvalidSize { found: 4096, expected: 2048 })
    ));
}

#[test]
fn digest_comparison_alone() {
    let digest = [0x90u8, 0x01, 0x50, 0x98, 0x3c, 0xd2, 0x4f, 0xb0, 0xd6, 0x96, 0x3f, 0x7d, 0x28, 0xe1, 0x7f, 0x72];
    assert!(compare_digest(&RequestChecksum::Md5(ABC_MD5.to_string()), &digest).is_ok());
    assert!(matches!(
        compare_digest(&RequestChecksum::Md5(ABC_MD5.to_string()), &digest[..15]),
        Err(ChecksumError::Mismatch)
    ));
    assert!(matches!(
        compare_digest(&RequestChecksum::Md5("9".to_string()), &digest),
        Err(ChecksumError::InvalidInput(text)) if text == "MD5 9"
    ));
}

#[test]
fn validation_twice_gives_the_same_verdict() {
    let content = b"the same unmodified file".to_vec();
    let good = RequestChecksum::Sha256(
        "c0a2f5f2b1a7354cf37bc1e0a3d5e3f5f4f0b7d30a5a4e0d39f4b712a2f90f00".to_string(),
    );
    let first = compare_hash(&content, content.len() as u64, &good);
    let second = compare_hash(&content, content.len() as u64, &good);
    assert_eq!(format!("{:?}", first), format!("{:?}", second));
    let abc = RequestChecksum::Sha1(ABC_SHA1.to_string());
    assert!(compare_hash(b"abc", 3, &abc).is_ok());
    assert!(compare_hash(b"abc", 3, &abc).is_ok());
    assert!(matches!(compare_hash(b"abc", 4, &abc), Err(ChecksumError::InvalidSize { found: 3, expected: 4 })));
    assert!(matches!(compare_hash(b"abc", 4, &abc), Err(ChecksumError::InvalidSize { found: 3, expected: 4 })));
}

#[test]
fn file_in_pieces_gets_the_verdict_of_the_whole() {
    let content: Vec<u8> = (0..20_000u32).map(|n| (n % 251) as u8).collect();
    for checksum in [
        RequestChecksum::Md5(ABC_MD5.to_string()),
        RequestChecksum::Sha1(ABC_SHA1.to_string()),
        RequestChecksum::Sha256(ABC_SHA256.to_string()),
        RequestChecksum::Sha512(ABC_SHA512.to_string()),
    ] {
        for piece in [1usize, 3, 64, 8192, 20_000] {
            let mut verifier = ChecksumVerifier::begin(3, 3, &checksum).unwrap();
            for part in b"abc".chunks(piece) {
                verifier.update(part);
            }
            assert!(verifier.finish().is_ok());
            let mut verifier = ChecksumVerifier::begin(20_000, 20_000, &checksum).unwrap();
            for part in content.chunks(piece) {
                verifier.update(part);
            }
            assert!(matches!(verifier.finish(), Err(ChecksumError::Mismatch)));
        }
    }
    let empty = ChecksumVerifier::begin(0, 0, &RequestChecksum::Sha256(EMPTY_SHA256.to_string())).unwrap();
    assert!(empty.finish().is_ok());
}

#[test]
fn verifier_rejects_before_reading() {
    assert!(matches!(
        ChecksumVerifier::begin(9, 10, &RequestChecksum::Sha256("zz".to_string())).err(),
        Some(ChecksumError::InvalidSize { found: 9, expected: 10 })
    ));
    assert!(matches!(
        ChecksumVerifier::begin(10, 10, &RequestChecksum::Sha256("zz".to_string())).err(),
        Some(ChecksumError::InvalidInput(text)) if text == "SHA256 zz"
    ));
    assert_eq!(
        apt_cmd::hash::expected_digest(&RequestChecksum::Md5(ABC_MD5.to_string())).unwrap(),
        vec![0x90u8, 0x01, 0x50, 0x98, 0x3c, 0xd2, 0x4f, 0xb0, 0xd6, 0x96, 0x3f, 0x7d, 0x28, 0xe1, 0x7f, 0x72]
    );
    assert_eq!(
        apt_cmd::hash::expected_digest(&RequestChecksum::Sha1("A9993E364706816ABA3E25717850C26C9CD0D89D".to_string())).unwrap(),
        apt_cmd::hash::expected_digest(&RequestChecksum::Sha1(ABC_SHA1.to_string())).unwrap()
    );
}
