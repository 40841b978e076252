use lc_login::error::StoreError;
use lc_login::password::{write_password, PasswordHeader};
use lc_login::record::{
    disable_record, enable_record, expire_record, new_record, password_record, template_header,
    unexpire_record, verify_record,
};

const NOW: u64 = 1_700_000_000;

fn header(algorithm: u8, salt_and_repetition: u8, salt_size: u32) -> PasswordHeader {
    PasswordHeader { version: 0, algorithm, salt_and_repetition, salt_size, expiry_seconds: 0 }
}

fn reference_digest(pw: &[u8], salt: &[u8], rounds: u32, concat: bool) -> Vec<u8> {
    let mut input = pw.to_vec();
    for _ in 0..rounds {
        let mut b = input.clone();
        if concat {
            b.extend_from_slice(salt);
        } else if !salt.is_empty() {
            for i in 0..b.len() {
                b[i] ^= salt[i % salt.len()];
            }
        }
        input = openssl::sha::sha256(&b).to_vec();
    }
    input
}

#[test]
fn header_encodes_little_endian() {
    let h = PasswordHeader {
        version: 0x0102,
        algorithm: 3,
        salt_and_repetition: 0x81,
        salt_size: 0x0A0B0C0D,
        expiry_seconds: 0x1122334455667788,
    };
    let b = h.to_bytes();
    assert_eq!(
        b,
        vec![
            0x02, 0x01, 3, 0x81, 0x0D, 0x0C, 0x0B, 0x0A, 0x88, 0x77, 0x66, 0x55, 0x44, 0x33,
            0x22, 0x11
        ]
    );
    assert_eq!(PasswordHeader::from_bytes(&b), Some(h));
    assert_eq!(PasswordHeader::from_bytes(&b[..15]), None);
}

#[test]
fn builtin_and_default_headers() {
    let h = PasswordHeader::builtin();
    assert_eq!(h, header(3, 0x81, 31));
    assert!(!h.is_disabled());
    let d = PasswordHeader::default();
    assert_eq!(d.version, 0xFFFF);
    assert!(d.is_invalid());
    assert!(d.is_disabled());
    assert_eq!(d.salt_size, 0xFFFF_FFFF);
    assert!(PasswordHeader::disabled_marker().is_disabled());
}

#[test]
fn pipeline_matches_openssl_concat() {
    let salt = [1u8, 2, 3, 4, 5];
    let mut w = vec![9u8];
    assert_eq!(write_password("pw", &salt, 1, 0x01, &mut w), Ok(()));
    let mut expected = vec![9u8];
    expected.extend(reference_digest(b"pw", &salt, 1024, true));
    assert_eq!(w, expected);
}

#[test]
fn pipeline_matches_openssl_xor_and_round_exponent() {
    let salt = [0xAAu8, 0x55];
    let mut w = Vec::new();
    assert_eq!(write_password("secret", &salt, 1, 0x20, &mut w), Ok(()));
    assert_eq!(w, reference_digest(b"secret", &salt, 2048, false));
}

#[test]
fn digest_widths() {
    for (alg, width) in [(0u8, 28usize), (1, 32), (2, 48), (3, 64)] {
        let mut w = Vec::new();
        assert_eq!(write_password("x", b"salt", alg, 0x01, &mut w), Ok(()));
        assert_eq!(w.len(), width);
    }
}

#[test]
fn unsupported_parameters_are_invalid() {
    let mut w = vec![7u8];
    assert_eq!(write_password("x", b"s", 4, 0x01, &mut w), Err(StoreError::InvalidData));
    assert_eq!(write_password("x", b"s", 3, 0x02, &mut w), Err(StoreError::InvalidData));
    assert_eq!(write_password("x", b"s", 0xFF, 0x1F, &mut w), Err(StoreError::InvalidData));
    assert_eq!(w, vec![7u8]);
}

#[test]
fn default_record_has_expected_size_and_verifies() {
    let rec = password_record(None, "hunter2").unwrap();
    assert_eq!(rec.len(), 16 + 31 + 64);
    assert_eq!(PasswordHeader::from_bytes(&rec), Some(PasswordHeader::builtin()));
    assert_eq!(verify_record(&rec, "hunter2", NOW), Ok(false));
    assert_eq!(verify_record(&rec, "hunter3", NOW), Err(StoreError::IncorrectPassword));
}

#[test]
fn salts_are_fresh() {
    let a = password_record(None, "hunter2").unwrap();
    let b = password_record(None, "hunter2").unwrap();
    assert_ne!(a[16..47], b[16..47]);
}

#[test]
fn template_decides_the_header() {
    let t = header(1, 0x00, 8).to_bytes();
    let rec = password_record(Some(&t), "pw").unwrap();
    assert_eq!(rec.len(), 16 + 8 + 32);
    assert_eq!(verify_record(&rec, "pw", NOW), Ok(false));
    assert_eq!(template_header(Some(&t[..10])), Err(StoreError::Truncated));
    assert_eq!(template_header(None), Ok(PasswordHeader::builtin()));
    let bad = header(9, 0x01, 8).to_bytes();
    assert_eq!(password_record(Some(&bad), "pw"), Err(StoreError::InvalidData));
    let hmac = header(3, 0x02, 8).to_bytes();
    assert_eq!(password_record(Some(&hmac), "pw"), Err(StoreError::InvalidData));
}

#[test]
fn new_record_layout() {
    let h = header(3, 0x01, 4);
    let rec = new_record(&h, &[1, 2, 3, 4], "pw").unwrap();
    assert_eq!(&rec[..16], &h.to_bytes()[..]);
    assert_eq!(&rec[16..20], &[1, 2, 3, 4]);
    let mut d = Vec::new();
    write_password("pw", &[1, 2, 3, 4], 3, 0x01, &mut d).unwrap();
    assert_eq!(&rec[20..], &d[..]);
    assert_eq!(new_record(&h, &[1, 2, 3], "pw"), Err(StoreError::InvalidData));
}

#[test]
fn expiry_round_trip() {
    let rec = new_record(&header(1, 0x01, 3), &[5, 6, 7], "hunter2").unwrap();
    let expired = expire_record(&rec, 1).unwrap();
    assert_eq!(verify_record(&expired, "hunter2", NOW), Ok(true));
    let later = expire_record(&rec, NOW + 1).unwrap();
    assert_eq!(verify_record(&later, "hunter2", NOW), Ok(false));
    let exact = expire_record(&rec, NOW).unwrap();
    assert_eq!(verify_record(&exact, "hunter2", NOW), Ok(true));
    let back = unexpire_record(&expired).unwrap();
    assert_eq!(verify_record(&back, "hunter2", NOW), Ok(false));
    assert_eq!(back, rec);
    // an instant of zero means "never expires"
    let zero = expire_record(&rec, 0).unwrap();
    assert_eq!(verify_record(&zero, "hunter2", NOW), Ok(false));
}

#[test]
fn disable_and_enable() {
    let rec = new_record(&header(1, 0x01, 3), &[5, 6, 7], "hunter2").unwrap();
    let disabled = disable_record(&rec).unwrap().unwrap();
    assert_eq!(disabled.len(), rec.len() + 16);
    assert_eq!(&disabled[16..], &rec[..]);
    assert_eq!(verify_record(&disabled, "hunter2", NOW), Err(StoreError::AuthDisabled));
    assert_eq!(disable_record(&disabled), Ok(None));
    let enabled = enable_record(&disabled).unwrap().unwrap();
    assert_eq!(enabled, rec);
    assert_eq!(verify_record(&enabled, "hunter2", NOW), Ok(false));
    assert_eq!(enable_record(&enabled), Ok(None));
}

#[test]
fn malformed_records() {
    let rec = new_record(&header(1, 0x01, 3), &[5, 6, 7], "pw").unwrap();
    assert_eq!(verify_record(&rec[..10], "pw", NOW), Err(StoreError::Truncated));
    assert_eq!(verify_record(&rec[..17], "pw", NOW), Err(StoreError::Truncated));
    assert_eq!(expire_record(&rec[..17], 5), Err(StoreError::Truncated));
    let mut invalid = rec.clone();
    invalid[0] = 0xFF;
    invalid[1] = 0xFF;
    assert_eq!(verify_record(&invalid, "pw", NOW), Err(StoreError::InvalidData));
    assert_eq!(expire_record(&invalid, 5), Err(StoreError::InvalidData));
    assert_eq!(disable_record(&invalid), Err(StoreError::InvalidData));
    assert_eq!(enable_record(&invalid), Err(StoreError::InvalidData));
    let mut short_digest = rec.clone();
    short_digest.pop();
    assert_eq!(verify_record(&short_digest, "pw", NOW), Err(StoreError::IncorrectPassword));
    let mut unknown = rec.clone();
    unknown[2] = 9;
    assert_eq!(verify_record(&unknown, "pw", NOW), Err(StoreError::InvalidData));
    let mut off = rec.clone();
    off[3] = 0x1F;
    assert_eq!(verify_record(&off, "pw", NOW), Err(StoreError::AuthDisabled));
    let disabled_only = PasswordHeader::disabled_marker().to_bytes();
    assert_eq!(enable_record(&disabled_only), Err(StoreError::Truncated));
}

#[test]
fn template_gives_only_its_hash_parameters() {
    let mut t = header(3, 0x01, 12);
    t.version = 0xFFFF;
    t.expiry_seconds = 5;
    let bytes = t.to_bytes();
    let h = template_header(Some(&bytes)).unwrap();
    assert_eq!(h, header(3, 0x01, 12));
    let rec = password_record(Some(&bytes), "hunter2").unwrap();
    assert_eq!(PasswordHeader::from_bytes(&rec), Some(header(3, 0x01, 12)));
    assert_eq!(rec.len(), 16 + 12 + 64);
    assert_eq!(verify_record(&rec, "hunter2", NOW), Ok(false));
}

#[test]
fn xor_needs_a_salt() {
    let mut w = vec![1u8];
    assert_eq!(write_password("pw", &[], 1, 0x00, &mut w), Err(StoreError::InvalidData));
    assert_eq!(w, vec![1u8]);
    let mut c = Vec::new();
    assert_eq!(write_password("pw", &[], 1, 0x01, &mut c), Ok(()));
    assert_eq!(c.len(), 32);
    assert_eq!(new_record(&header(1, 0x00, 0), &[], "pw"), Err(StoreError::InvalidData));
    let t = header(1, 0x00, 0).to_bytes();
    assert_eq!(password_record(Some(&t), "pw"), Err(StoreError::InvalidData));
    let mut rec = header(1, 0x00, 0).to_bytes();
    rec.extend_from_slice(&[0u8; 32]);
    assert_eq!(verify_record(&rec, "pw", NOW), Err(StoreError::InvalidData));
}
