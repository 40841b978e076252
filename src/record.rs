use vstd::prelude::*;

use crate::error::StoreError;
use crate::password::{
    append_bytes, digest_len, header_of, lemma_header_round_trip, password_digest, supported,
    write_password, PasswordHeader, CURRENT_VERSION, HEADER_LEN,
};
use crate::digest::{constant_time_eq, random_fill, scrub};
use vstd::slice::slice_subrange;
use vstd::string::StringSliceAdditionalSpecFns;

verus! {

/// Whether `rec` holds a header and the salt that the header announces.
pub open spec fn complete(rec: Seq<u8>) -> bool {
    rec.len() >= 16 && rec.len() >= 16 + header_of(rec).salt_size
}

/// The salt of a complete record.
pub open spec fn salt_of(rec: Seq<u8>) -> Seq<u8> {
    rec.subrange(16, 16 + header_of(rec).salt_size)
}

/// The stored digest of a complete record: everything after the salt.
pub open spec fn stored_digest_of(rec: Seq<u8>) -> Seq<u8> {
    rec.subrange(16 + header_of(rec).salt_size, rec.len() as int)
}

/// The outcome of checking `pw` against the record `rec` at instant `now`:
/// `Ok(expired)` on a match.
pub open spec fn verify_spec(rec: Seq<u8>, pw: Seq<u8>, now: u64) -> Result<bool, StoreError> {
    if rec.len() < 16 {
        Err(StoreError::Truncated)
    } else if header_of(rec).version == 0xFFFF {
        Err(StoreError::InvalidData)
    } else if header_of(rec).spec_disabled() {
        Err(StoreError::AuthDisabled)
    } else if !complete(rec) {
        Err(StoreError::Truncated)
    } else if !supported(
        header_of(rec).algorithm,
        header_of(rec).salt_and_repetition,
        header_of(rec).salt_size as nat,
    ) {
        Err(StoreError::InvalidData)
    } else if stored_digest_of(rec) == password_digest(
        pw,
        salt_of(rec),
        header_of(rec).algorithm,
        header_of(rec).salt_and_repetition,
    ) {
        Ok(header_of(rec).expiry_seconds != 0 && header_of(rec).expiry_seconds <= now)
    } else {
        Err(StoreError::IncorrectPassword)
    }
}

/// The record for `pw` under the header `h` and the salt `salt`.
pub open spec fn new_record_spec(h: PasswordHeader, salt: Seq<u8>, pw: Seq<u8>) -> Result<
    Seq<u8>,
    StoreError,
> {
    if salt.len() != h.salt_size || !supported(h.algorithm, h.salt_and_repetition, salt.len()) {
        Err(StoreError::InvalidData)
    } else {
        Ok(h.spec_bytes() + salt + password_digest(pw, salt, h.algorithm, h.salt_and_repetition))
    }
}

/// The record with its expiry instant set to `at` (0: never expires).
pub open spec fn expire_spec(rec: Seq<u8>, at: u64) -> Result<Seq<u8>, StoreError> {
    if rec.len() < 16 {
        Err(StoreError::Truncated)
    } else if header_of(rec).version == 0xFFFF {
        Err(StoreError::InvalidData)
    } else if !complete(rec) {
        Err(StoreError::Truncated)
    } else {
        Ok(PasswordHeader { expiry_seconds: at, ..header_of(rec) }.spec_bytes() + rec.subrange(
            16,
            rec.len() as int,
        ))
    }
}

/// The disabled form of a record: `Ok(None)` when it is disabled already.
pub open spec fn disable_spec(rec: Seq<u8>) -> Result<Option<Seq<u8>>, StoreError> {
    if rec.len() < 16 {
        Err(StoreError::Truncated)
    } else if header_of(rec).version == 0xFFFF {
        Err(StoreError::InvalidData)
    } else if header_of(rec).spec_disabled() {
        Ok(None)
    } else if !complete(rec) {
        Err(StoreError::Truncated)
    } else {
        Ok(Some(PasswordHeader::spec_disabled_marker().spec_bytes() + rec))
    }
}

/// The enabled form of a record: the preserved record behind the disabled
/// header, or `Ok(None)` when it is enabled already.
pub open spec fn enable_spec(rec: Seq<u8>) -> Result<Option<Seq<u8>>, StoreError> {
    if rec.len() < 16 {
        Err(StoreError::Truncated)
    } else if header_of(rec).version == 0xFFFF {
        Err(StoreError::InvalidData)
    } else if !header_of(rec).spec_disabled() {
        Ok(None)
    } else if !complete(rec.subrange(16, rec.len() as int)) {
        Err(StoreError::Truncated)
    } else {
        Ok(Some(rec.subrange(16, rec.len() as int)))
    }
}

/// The header of a new record: the current version, no expiry, and the
/// algorithm, salting, rounds and salt size of the site template when one is
/// given, else the built-in defaults.
pub open spec fn template_spec(template: Option<Seq<u8>>) -> Result<PasswordHeader, StoreError> {
    match template {
        None => Ok(PasswordHeader::spec_builtin()),
        Some(t) => if t.len() < 16 {
            Err(StoreError::Truncated)
        } else {
            Ok(PasswordHeader { version: CURRENT_VERSION, expiry_seconds: 0, ..header_of(t) })
        },
    }
}

proof fn lemma_header_of_prefix(a: Seq<u8>, b: Seq<u8>)
    requires
        a.len() >= 16,
    ensures
        header_of(a + b) == header_of(a),
{
    assert forall|i: int| 0 <= i < 16 implies (a + b)[i] == a[i] by {}
}

/// Checks `passwd` against the record `record` at the instant `now` (unix
/// seconds). `Ok(expired)` on a match, where `expired` holds when the record
/// carries an expiry instant that is not after `now`. The digests are
/// compared in constant time.
pub fn verify_record(record: &[u8], passwd: &str, now: u64) -> (r: Result<bool, StoreError>)
    ensures
        r == verify_spec(record@, passwd.spec_bytes(), now),
{
    let h = match PasswordHeader::from_bytes(record) {
        None => return Err(StoreError::Truncated),
        Some(h) => h,
    };
    if h.is_invalid() {
        return Err(StoreError::InvalidData);
    }
    if h.is_disabled() {
        return Err(StoreError::AuthDisabled);
    }
    let n = record.len();
    if n - HEADER_LEN < h.salt_size as usize {
        return Err(StoreError::Truncated);
    }
    let end = HEADER_LEN + h.salt_size as usize;
    let salt = slice_subrange(record, HEADER_LEN, end);
    let stored = slice_subrange(record, end, n);
    let mut checked: Vec<u8> = Vec::new();
    match write_password(passwd, salt, h.algorithm, h.salt_and_repetition, &mut checked) {
        Err(e) => return Err(e),
        Ok(()) => {},
    }
    assert(checked@ =~= Seq::<u8>::empty() + checked@);
    if stored.len() != checked.len() {
        scrub(&mut checked);
        return Err(StoreError::IncorrectPassword);
    }
    let matched = constant_time_eq(stored, checked.as_slice());
    scrub(&mut checked);
    if matched {
        Ok(h.expiry_seconds != 0 && h.expiry_seconds <= now)
    } else {
        Err(StoreError::IncorrectPassword)
    }
}

/// Sets the expiry instant of a record to `at` (unix seconds; 0 removes the
/// expiry). Salt and digest are kept.
pub fn expire_record(record: &[u8], at: u64) -> (r: Result<Vec<u8>, StoreError>)
    ensures
        match (r, expire_spec(record@, at)) {
            (Ok(v), Ok(s)) => v@ == s,
            (Err(e), Err(f)) => e == f,
            _ => false,
        },
{
    let h = match PasswordHeader::from_bytes(record) {
        None => return Err(StoreError::Truncated),
        Some(h) => h,
    };
    if h.is_invalid() {
        return Err(StoreError::InvalidData);
    }
    let n = record.len();
    if n - HEADER_LEN < h.salt_size as usize {
        return Err(StoreError::Truncated);
    }
    let h2 = PasswordHeader { expiry_seconds: at, ..h };
    let mut out = h2.to_bytes();
    append_bytes(&mut out, slice_subrange(record, HEADER_LEN, n));
    Ok(out)
}

/// Removes the expiry instant of a record.
pub fn unexpire_record(record: &[u8]) -> (r: Result<Vec<u8>, StoreError>)
    ensures
        match (r, expire_spec(record@, 0)) {
            (Ok(v), Ok(s)) => v@ == s,
            (Err(e), Err(f)) => e == f,
            _ => false,
        },
{
    expire_record(record, 0)
}

/// The disabled form of a record: a disabled header followed by the whole
/// record as it was, so that `enable_record` can restore it. `Ok(None)` when
/// the record is disabled already and nothing is to be written.
pub fn disable_record(record: &[u8]) -> (r: Result<Option<Vec<u8>>, StoreError>)
    ensures
        match (r, disable_spec(record@)) {
            (Ok(Some(v)), Ok(Some(s))) => v@ == s,
            (Ok(None), Ok(None)) => true,
            (Err(e), Err(f)) => e == f,
            _ => false,
        },
{
    let h = match PasswordHeader::from_bytes(record) {
        None => return Err(StoreError::Truncated),
        Some(h) => h,
    };
    if h.is_invalid() {
        return Err(StoreError::InvalidData);
    }
    if h.is_disabled() {
        return Ok(None);
    }
    let n = record.len();
    if n - HEADER_LEN < h.salt_size as usize {
        return Err(StoreError::Truncated);
    }
    let mut out = PasswordHeader::disabled_marker().to_bytes();
    append_bytes(&mut out, record);
    Ok(Some(out))
}

/// The enabled form of a record: the record preserved behind its disabled
/// header. `Ok(None)` when the record is enabled already.
pub fn enable_record(record: &[u8]) -> (r: Result<Option<Vec<u8>>, StoreError>)
    ensures
        match (r, enable_spec(record@)) {
            (Ok(Some(v)), Ok(Some(s))) => v@ == s,
            (Ok(None), Ok(None)) => true,
            (Err(e), Err(f)) => e == f,
            _ => false,
        },
{
    let h = match PasswordHeader::from_bytes(record) {
        None => return Err(StoreError::Truncated),
        Some(h) => h,
    };
    if h.is_invalid() {
        return Err(StoreError::InvalidData);
    }
    if !h.is_disabled() {
        return Ok(None);
    }
    let n = record.len();
    let inner = slice_subrange(record, HEADER_LEN, n);
    let ih = match PasswordHeader::from_bytes(inner) {
        None => return Err(StoreError::Truncated),
        Some(ih) => ih,
    };
    if inner.len() - HEADER_LEN < ih.salt_size as usize {
        return Err(StoreError::Truncated);
    }
    let mut out: Vec<u8> = Vec::new();
    append_bytes(&mut out, inner);
    assert(out@ =~= inner@);
    Ok(Some(out))
}

/// The record for `passwd` under the header `h` and the salt `salt`: header,
/// salt, digest. `InvalidData` when the salt's length is not the header's
/// salt size, or the algorithm or salt mode is not shipped.
pub fn new_record(h: &PasswordHeader, salt: &[u8], passwd: &str) -> (r: Result<Vec<u8>, StoreError>)
    ensures
        match (r, new_record_spec(*h, salt@, passwd.spec_bytes())) {
            (Ok(v), Ok(s)) => v@ == s,
            (Err(e), Err(f)) => e == f,
            _ => false,
        },
        r matches Ok(v) ==> v@.len() == 16 + salt@.len() + digest_len(h.algorithm),
{
    if salt.len() != h.salt_size as usize {
        return Err(StoreError::InvalidData);
    }
    let mut out = h.to_bytes();
    append_bytes(&mut out, salt);
    match write_password(passwd, salt, h.algorithm, h.salt_and_repetition, &mut out) {
        Err(e) => Err(e),
        Ok(()) => Ok(out),
    }
}

/// The header for a new password: the current version and no expiry, with
/// the algorithm, salting, rounds and salt size decoded from the site
/// template's bytes when one is given (`Truncated` when it is shorter than a
/// header), else the built-in defaults.
pub fn template_header(template: Option<&[u8]>) -> (r: Result<PasswordHeader, StoreError>)
    ensures
        r == template_spec(
            match template {
                None => None,
                Some(t) => Some(t@),
            },
        ),
{
    match template {
        None => Ok(PasswordHeader::builtin()),
        Some(t) => match PasswordHeader::from_bytes(t) {
            None => Err(StoreError::Truncated),
            Some(h) => Ok(PasswordHeader { version: CURRENT_VERSION, expiry_seconds: 0, ..h }),
        },
    }
}

/// The record that `set_password` writes: the template's header (or the
/// built-in one), a fresh random salt of the header's salt size, and the
/// digest of `passwd`. Whatever the random source gives, an `Ok` record is
/// exactly `new_record_spec` of that header, its own salt and the password.
/// Every `Ok` record verifies `passwd`, unexpired, at any instant.
/// Success is owed unless the template is short (`Truncated`), the
/// algorithm or salt mode is not shipped, XOR is asked with no salt, or the
/// salt size exceeds what the random source takes (`InvalidData`), or the
/// random source fails (`Io`).
pub fn password_record(template: Option<&[u8]>, passwd: &str) -> (r: Result<Vec<u8>, StoreError>)
    ensures
        ({
            let t = match template {
                None => None,
                Some(t) => Some(t@),
            };
            match template_spec(t) {
                Err(e) => r == Err::<Vec<u8>, StoreError>(e),
                Ok(h) => if !supported(h.algorithm, h.salt_and_repetition, h.salt_size as nat) || h.salt_size
                    > 0x7FFF_FFFF {
                    r == Err::<Vec<u8>, StoreError>(StoreError::InvalidData)
                } else {
                    match r {
                        Ok(v) => v@.len() == 16 + h.salt_size + digest_len(h.algorithm)
                            && new_record_spec(
                            h,
                            v@.subrange(16, 16 + h.salt_size),
                            passwd.spec_bytes(),
                        ) == Ok::<Seq<u8>, StoreError>(v@) && forall|now: u64|
                            verify_spec(v@, passwd.spec_bytes(), now) == Ok::<
                                bool,
                                StoreError,
                            >(false),
                        Err(e) => e == StoreError::Io,
                    }
                },
            }
        }),
{
    let h = match template_header(template) {
        Err(e) => return Err(e),
        Ok(h) => h,
    };
    let sr = h.salt_and_repetition;
    let mode = sr & crate::password::SALT_MASK;
    assert(sr & 0x1f == sr % 32) by (bit_vector);
    if h.algorithm > crate::password::SHA_512 || (mode != crate::password::SALT_XOR && mode
        != crate::password::SALT_CONCAT) || (mode == crate::password::SALT_XOR && h.salt_size
        == 0) || h.salt_size > 0x7FFF_FFFF {
        return Err(StoreError::InvalidData);
    }
    let mut salt: Vec<u8> = vec![0u8; h.salt_size as usize];
    match random_fill(&mut salt) {
        Err(_) => return Err(StoreError::Io),
        Ok(()) => {},
    }
    let ghost used = salt@;
    let r = new_record(&h, salt.as_slice(), passwd);
    scrub(&mut salt);
    match r {
        Ok(v) => {
            assert(v@.subrange(16, 16 + h.salt_size) =~= used);
            proof {
                assert forall|now: u64|
                    verify_spec(v@, passwd.spec_bytes(), now) == Ok::<bool, StoreError>(false) by {
                    lemma_set_then_verify(h, used, passwd.spec_bytes(), passwd.spec_bytes(), now);
                }
            }
            Ok(v)
        },
        Err(e) => Err(e),
    }
}

/// A record made for a password verifies that password, unexpired, and
/// refuses every other password whose digest differs.
pub proof fn lemma_set_then_verify(
    h: PasswordHeader,
    salt: Seq<u8>,
    pw: Seq<u8>,
    other: Seq<u8>,
    now: u64,
)
    requires
        h.version != 0xFFFF,
        !h.spec_disabled(),
        h.expiry_seconds == 0,
        salt.len() == h.salt_size,
        supported(h.algorithm, h.salt_and_repetition, salt.len()),
    ensures
        new_record_spec(h, salt, pw) is Ok,
        verify_spec(new_record_spec(h, salt, pw)->Ok_0, pw, now) == Ok::<bool, StoreError>(false),
        password_digest(other, salt, h.algorithm, h.salt_and_repetition) != password_digest(
            pw,
            salt,
            h.algorithm,
            h.salt_and_repetition,
        ) ==> verify_spec(new_record_spec(h, salt, pw)->Ok_0, other, now) == Err::<
            bool,
            StoreError,
        >(StoreError::IncorrectPassword),
{
    let d = password_digest(pw, salt, h.algorithm, h.salt_and_repetition);
    let rec = h.spec_bytes() + salt + d;
    lemma_header_round_trip(h);
    lemma_header_of_prefix(h.spec_bytes(), salt + d);
    assert(rec =~= h.spec_bytes() + (salt + d));
    assert(salt_of(rec) =~= salt);
    assert(stored_digest_of(rec) =~= d);
}

/// Disabling twice is a single disable: the disabled record is left as it is.
pub proof fn lemma_disable_idempotent(rec: Seq<u8>)
    requires
        disable_spec(rec) matches Ok(Some(_)),
    ensures
        disable_spec(disable_spec(rec)->Ok_0->Some_0) == Ok::<Option<Seq<u8>>, StoreError>(None),
{
    let m = PasswordHeader::spec_disabled_marker();
    lemma_header_round_trip(m);
    lemma_header_of_prefix(m.spec_bytes(), rec);
    assert(m.salt_and_repetition % 32 == 0x1f);
}

/// Enabling a disabled record restores the record as it was, exactly, and
/// enabling it again changes nothing.
pub proof fn lemma_enable_restores(rec: Seq<u8>)
    requires
        disable_spec(rec) matches Ok(Some(_)),
    ensures
        enable_spec(disable_spec(rec)->Ok_0->Some_0) == Ok::<Option<Seq<u8>>, StoreError>(Some(rec)),
        enable_spec(rec) == Ok::<Option<Seq<u8>>, StoreError>(None),
{
    let m = PasswordHeader::spec_disabled_marker();
    let d = m.spec_bytes() + rec;
    lemma_header_round_trip(m);
    lemma_header_of_prefix(m.spec_bytes(), rec);
    assert(m.salt_and_repetition % 32 == 0x1f);
    assert(d.subrange(16, d.len() as int) =~= rec);
}

/// Setting an expiry instant `t` (not 0) on a record that verifies a password
/// makes it verify as expired exactly when `t` is not after `now`; removing
/// the expiry makes it verify as unexpired.
pub proof fn lemma_expiry(rec: Seq<u8>, pw: Seq<u8>, t: u64, now: u64)
    requires
        verify_spec(rec, pw, now) is Ok,
        t != 0,
    ensures
        expire_spec(rec, t) is Ok,
        verify_spec(expire_spec(rec, t)->Ok_0, pw, now) == Ok::<bool, StoreError>(t <= now),
        expire_spec(rec, 0) is Ok,
        verify_spec(expire_spec(rec, 0)->Ok_0, pw, now) == Ok::<bool, StoreError>(false),
{
    lemma_expire_keeps(rec, pw, t, now);
    lemma_expire_keeps(rec, pw, 0, now);
}

proof fn lemma_expire_keeps(rec: Seq<u8>, pw: Seq<u8>, t: u64, now: u64)
    requires
        verify_spec(rec, pw, now) is Ok,
    ensures
        expire_spec(rec, t) is Ok,
        verify_spec(expire_spec(rec, t)->Ok_0, pw, now) == Ok::<bool, StoreError>(
            t != 0 && t <= now,
        ),
{
    let h = header_of(rec);
    let h2 = PasswordHeader { expiry_seconds: t, ..h };
    let rest = rec.subrange(16, rec.len() as int);
    let r2 = h2.spec_bytes() + rest;
    lemma_header_round_trip(h2);
    lemma_header_of_prefix(h2.spec_bytes(), rest);
    assert(salt_of(r2) =~= salt_of(rec));
    assert(stored_digest_of(r2) =~= stored_digest_of(rec));
}

} // verus!
