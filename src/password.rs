use vstd::prelude::*;

use crate::digest::{
    constant_time_eq, scrub, sha224, sha224_of, sha256, sha256_of, sha384, sha384_of, sha512,
    sha512_of,
};
use crate::error::StoreError;
use vstd::string::StringSliceAdditionalSpecFns;

verus! {

/// Digest algorithm codes.
pub const SHA_224: u8 = 0;
pub const SHA_256: u8 = 1;
pub const SHA_384: u8 = 2;
pub const SHA_512: u8 = 3;
/// Algorithm code of a disabled record.
pub const ALGORITHM_DISABLED: u8 = 0xFF;

/// Salt-mixing modes (low five bits of `salt_and_repetition`).
pub const SALT_XOR: u8 = 0;
pub const SALT_CONCAT: u8 = 1;
pub const SALT_HMAC: u8 = 2;
/// Salt mode of a disabled record.
pub const SALT_DISABLED: u8 = 0x1F;
pub const SALT_MASK: u8 = 0x1F;
pub const ROUNDS_SHIFT: u8 = 5;
pub const ROUNDS_MASK: u8 = 0xE0;

pub const CURRENT_VERSION: u16 = 0;
pub const INVALID_VERSION: u16 = 0xFFFF;

pub const DEFAULT_ALGORITHM: u8 = 3;
pub const DEFAULT_SALT: u8 = 1;
/// Round exponent 4, already shifted into the high three bits.
pub const DEFAULT_ROUNDS: u8 = 0x80;
pub const DEFAULT_SALT_SIZE: u32 = 31;
/// `DEFAULT_SALT | DEFAULT_ROUNDS`.
pub const DEFAULT_SALT_AND_ROUNDS: u8 = 0x81;
/// `SALT_DISABLED | ROUNDS_MASK`: every bit set.
pub const DISABLED_SALT_AND_ROUNDS: u8 = 0xFF;

/// Width of the encoded header in bytes.
pub const HEADER_LEN: usize = 16;

/// The fixed-layout header that starts every password record.
#[derive(Clone, Copy, Debug, PartialEq, Eq, Structural)]
pub struct PasswordHeader {
    pub version: u16,
    pub algorithm: u8,
    pub salt_and_repetition: u8,
    pub salt_size: u32,
    pub expiry_seconds: u64,
}

pub open spec fn le16(x: u16) -> Seq<u8> {
    seq![x as u8, (x >> 8u16) as u8]
}

pub open spec fn le32(x: u32) -> Seq<u8> {
    seq![x as u8, (x >> 8u32) as u8, (x >> 16u32) as u8, (x >> 24u32) as u8]
}

pub open spec fn le64(x: u64) -> Seq<u8> {
    seq![
        x as u8,
        (x >> 8u64) as u8,
        (x >> 16u64) as u8,
        (x >> 24u64) as u8,
        (x >> 32u64) as u8,
        (x >> 40u64) as u8,
        (x >> 48u64) as u8,
        (x >> 56u64) as u8,
    ]
}

pub open spec fn u16_at(b: Seq<u8>, i: int) -> u16 {
    (b[i] as u16) | ((b[i + 1] as u16) << 8u16)
}

pub open spec fn u32_at(b: Seq<u8>, i: int) -> u32 {
    (b[i] as u32) | ((b[i + 1] as u32) << 8u32) | ((b[i + 2] as u32) << 16u32) | ((b[i + 3] as u32)
        << 24u32)
}

pub open spec fn u64_at(b: Seq<u8>, i: int) -> u64 {
    (b[i] as u64) | ((b[i + 1] as u64) << 8u64) | ((b[i + 2] as u64) << 16u64) | ((b[i + 3] as u64)
        << 24u64) | ((b[i + 4] as u64) << 32u64) | ((b[i + 5] as u64) << 40u64) | ((b[i + 6] as u64)
        << 48u64) | ((b[i + 7] as u64) << 56u64)
}

/// The header that the first sixteen bytes of `b` encode.
pub open spec fn header_of(b: Seq<u8>) -> PasswordHeader {
    PasswordHeader {
        version: u16_at(b, 0),
        algorithm: b[2],
        salt_and_repetition: b[3],
        salt_size: u32_at(b, 4),
        expiry_seconds: u64_at(b, 8),
    }
}

impl PasswordHeader {
    /// The little-endian encoding of the header.
    pub open spec fn spec_bytes(self) -> Seq<u8> {
        le16(self.version) + seq![self.algorithm, self.salt_and_repetition] + le32(self.salt_size)
            + le64(self.expiry_seconds)
    }

    pub open spec fn spec_disabled(self) -> bool {
        self.algorithm == ALGORITHM_DISABLED || self.salt_and_repetition % 32 == SALT_DISABLED
    }

    /// The header that marks a record as disabled and precedes the preserved one.
    pub open spec fn spec_disabled_marker() -> PasswordHeader {
        PasswordHeader {
            version: CURRENT_VERSION,
            algorithm: ALGORITHM_DISABLED,
            salt_and_repetition: DISABLED_SALT_AND_ROUNDS,
            salt_size: 0,
            expiry_seconds: 0,
        }
    }

    /// The header used for a new password when no site template is present.
    pub open spec fn spec_builtin() -> PasswordHeader {
        PasswordHeader {
            version: CURRENT_VERSION,
            algorithm: DEFAULT_ALGORITHM,
            salt_and_repetition: DEFAULT_SALT_AND_ROUNDS,
            salt_size: DEFAULT_SALT_SIZE,
            expiry_seconds: 0,
        }
    }

    /// The header used for a new password when no site template is present:
    /// SHA2-512, concatenated salt, 16384 rounds, 31 salt bytes, no expiry.
    pub fn builtin() -> (r: PasswordHeader)
        ensures
            r == PasswordHeader::spec_builtin(),
    {
        PasswordHeader {
            version: CURRENT_VERSION,
            algorithm: DEFAULT_ALGORITHM,
            salt_and_repetition: DEFAULT_SALT_AND_ROUNDS,
            salt_size: DEFAULT_SALT_SIZE,
            expiry_seconds: 0,
        }
    }

    /// The header written in front of a preserved record by `disable_record`.
    pub fn disabled_marker() -> (r: PasswordHeader)
        ensures
            r == PasswordHeader::spec_disabled_marker(),
            r.spec_disabled(),
    {
        let r = PasswordHeader {
            version: CURRENT_VERSION,
            algorithm: ALGORITHM_DISABLED,
            salt_and_repetition: DISABLED_SALT_AND_ROUNDS,
            salt_size: 0,
            expiry_seconds: 0,
        };
        r
    }

    /// Whether the record's algorithm or salt mode carries the disabled sentinel.
    pub fn is_disabled(&self) -> (r: bool)
        ensures
            r == self.spec_disabled(),
    {
        let sr = self.salt_and_repetition;
        let m = sr & SALT_MASK;
        assert(sr & 0x1f == sr % 32) by (bit_vector);
        self.algorithm == ALGORITHM_DISABLED || m == SALT_DISABLED
    }

    /// Whether the version field holds the invalid sentinel.
    pub fn is_invalid(&self) -> (r: bool)
        ensures
            r == (self.version == INVALID_VERSION),
    {
        self.version == INVALID_VERSION
    }

    /// Encodes the header as its sixteen little-endian bytes.
    pub fn to_bytes(&self) -> (r: Vec<u8>)
        ensures
            r@ == self.spec_bytes(),
    {
        let mut r: Vec<u8> = Vec::with_capacity(HEADER_LEN);
        let v = self.version;
        r.push(v as u8);
        r.push((v >> 8u16) as u8);
        r.push(self.algorithm);
        r.push(self.salt_and_repetition);
        let s = self.salt_size;
        r.push(s as u8);
        r.push((s >> 8u32) as u8);
        r.push((s >> 16u32) as u8);
        r.push((s >> 24u32) as u8);
        let e = self.expiry_seconds;
        r.push(e as u8);
        r.push((e >> 8u64) as u8);
        r.push((e >> 16u64) as u8);
        r.push((e >> 24u64) as u8);
        r.push((e >> 32u64) as u8);
        r.push((e >> 40u64) as u8);
        r.push((e >> 48u64) as u8);
        r.push((e >> 56u64) as u8);
        assert(r@ =~= self.spec_bytes());
        r
    }

    /// Decodes the header from the first sixteen bytes of `b`; `None` when `b`
    /// is shorter than a header.
    pub fn from_bytes(b: &[u8]) -> (r: Option<PasswordHeader>)
        ensures
            r is None <==> b@.len() < 16,
            r matches Some(h) ==> h == header_of(b@),
    {
        if b.len() < HEADER_LEN {
            return None;
        }
        let version = (b[0] as u16) | ((b[1] as u16) << 8u16);
        let salt_size = (b[4] as u32) | ((b[5] as u32) << 8u32) | ((b[6] as u32) << 16u32) | ((
        b[7] as u32) << 24u32);
        let expiry_seconds = (b[8] as u64) | ((b[9] as u64) << 8u64) | ((b[10] as u64) << 16u64)
            | ((b[11] as u64) << 24u64) | ((b[12] as u64) << 32u64) | ((b[13] as u64) << 40u64) | ((
        b[14] as u64) << 48u64) | ((b[15] as u64) << 56u64);
        Some(PasswordHeader { version, algorithm: b[2], salt_and_repetition: b[3], salt_size, expiry_seconds })
    }
}

impl Default for PasswordHeader {
    /// The all-sentinel header: invalid version, disabled algorithm and salt
    /// mode, maximal salt size, no expiry.
    fn default() -> (r: PasswordHeader)
        ensures
            r.version == INVALID_VERSION,
            r.algorithm == ALGORITHM_DISABLED,
            r.salt_and_repetition == 0xFF,
            r.salt_size == 0xFFFF_FFFF,
            r.expiry_seconds == 0,
    {
        PasswordHeader {
            version: INVALID_VERSION,
            algorithm: ALGORITHM_DISABLED,
            salt_and_repetition: DISABLED_SALT_AND_ROUNDS,
            salt_size: 0xFFFF_FFFF,
            expiry_seconds: 0,
        }
    }
}

/// Decoding an encoded header gives it back.
pub proof fn lemma_header_round_trip(h: PasswordHeader)
    ensures
        header_of(h.spec_bytes()) == h,
{
    let b = h.spec_bytes();
    let v = h.version;
    let s = h.salt_size;
    let e = h.expiry_seconds;
    assert(v == ((v as u8) as u16) | ((((v >> 8u16) as u8) as u16) << 8u16)) by (bit_vector);
    assert(s == ((s as u8) as u32) | ((((s >> 8u32) as u8) as u32) << 8u32) | ((((s >> 16u32)
        as u8) as u32) << 16u32) | ((((s >> 24u32) as u8) as u32) << 24u32)) by (bit_vector);
    assert(e == ((e as u8) as u64) | ((((e >> 8u64) as u8) as u64) << 8u64) | ((((e >> 16u64)
        as u8) as u64) << 16u64) | ((((e >> 24u64) as u8) as u64) << 24u64) | ((((e >> 32u64)
        as u8) as u64) << 32u64) | ((((e >> 40u64) as u8) as u64) << 40u64) | ((((e >> 48u64)
        as u8) as u64) << 48u64) | ((((e >> 56u64) as u8) as u64) << 56u64)) by (bit_vector);
    assert(u16_at(b, 0) == v);
    assert(u32_at(b, 4) == s);
    assert(u64_at(b, 8) == e);
}

/// Salt mode encoded in the low five bits.
pub open spec fn salt_mode(salt_and_repetition: u8) -> u8 {
    salt_and_repetition % 32
}

/// Number of hashing rounds, `1 << (10 + r)` for the round exponent `r` in
/// the high three bits.
pub open spec fn round_count(salt_and_repetition: u8) -> u32 {
    1u32 << (10 + salt_and_repetition / 32) as u32
}

/// Whether the pipeline ships the algorithm and salt mode, and can mix a
/// salt of `salt_len` bytes: XOR needs at least one salt byte.
pub open spec fn supported(algorithm: u8, salt_and_repetition: u8, salt_len: nat) -> bool {
    algorithm <= SHA_512 && (salt_mode(salt_and_repetition) == SALT_CONCAT || (salt_mode(
        salt_and_repetition,
    ) == SALT_XOR && salt_len > 0))
}

/// Width of the digest that an algorithm produces.
pub open spec fn digest_len(algorithm: u8) -> nat {
    if algorithm == SHA_224 {
        28
    } else if algorithm == SHA_256 {
        32
    } else if algorithm == SHA_384 {
        48
    } else {
        64
    }
}

pub open spec fn digest_of(algorithm: u8, data: Seq<u8>) -> Seq<u8> {
    if algorithm == SHA_224 {
        sha224_of(data)
    } else if algorithm == SHA_256 {
        sha256_of(data)
    } else if algorithm == SHA_384 {
        sha384_of(data)
    } else {
        sha512_of(data)
    }
}

/// The buffer a round hashes: the input XORed with the repeated salt, or the
/// input followed by the salt.
pub open spec fn mix(input: Seq<u8>, salt: Seq<u8>, mode: u8) -> Seq<u8> {
    if mode == SALT_XOR {
        Seq::new(
            input.len(),
            |i: int| input[i] ^ salt[i % (salt.len() as int)],
        )
    } else {
        input + salt
    }
}

/// The value after `n` rounds, starting from the password bytes.
pub open spec fn hash_rounds(pw: Seq<u8>, salt: Seq<u8>, algorithm: u8, mode: u8, n: nat) -> Seq<
    u8,
>
    decreases n,
{
    if n == 0 {
        pw
    } else {
        digest_of(algorithm, mix(hash_rounds(pw, salt, algorithm, mode, (n - 1) as nat), salt, mode))
    }
}

/// The digest stored for `pw` under the given salt and parameters.
pub open spec fn password_digest(pw: Seq<u8>, salt: Seq<u8>, algorithm: u8, salt_and_repetition: u8) -> Seq<
    u8,
> {
    hash_rounds(pw, salt, algorithm, salt_mode(salt_and_repetition), round_count(salt_and_repetition) as nat)
}

/// Appends `src` to `dst`.
pub(crate) fn append_bytes(dst: &mut Vec<u8>, src: &[u8])
    ensures
        final(dst)@ == old(dst)@ + src@,
{
    let n = src.len();
    let mut i: usize = 0;
    while i < n
        invariant
            n == src@.len(),
            i <= n,
            dst@ == old(dst)@ + src@.subrange(0, i as int),
        decreases n - i,
    {
        dst.push(src[i]);
        i = i + 1;
        assert(src@.subrange(0, i as int) =~= src@.subrange(0, (i - 1) as int).push(src@[i - 1]));
    }
    assert(src@.subrange(0, n as int) =~= src@);
}

/// The buffer that one round hashes, built from the round's input and the salt.
fn mixed(input: &[u8], salt: &[u8], mode: u8) -> (r: Vec<u8>)
    requires
        mode == SALT_CONCAT || (mode == SALT_XOR && salt@.len() > 0),
    ensures
        r@ == mix(input@, salt@, mode),
{
    let mut b: Vec<u8> = Vec::new();
    append_bytes(&mut b, input);
    if mode == SALT_XOR {
        let n = b.len();
        let k = salt.len();
        {
            let mut i: usize = 0;
            while i < n
                invariant
                    n == b@.len(),
                    n == input@.len(),
                    k == salt@.len(),
                    k > 0,
                    i <= n,
                    forall|j: int| 0 <= j < i ==> b@[j] == input@[j] ^ salt@[j % (k as int)],
                    forall|j: int| i <= j < n ==> b@[j] == input@[j],
                decreases n - i,
            {
                let x = b[i] ^ salt[i % k];
                b.set(i, x);
                i = i + 1;
            }
        }
        assert(b@ =~= mix(input@, salt@, mode));
    } else {
        append_bytes(&mut b, salt);
    }
    b
}

/// One digest of `data` with the algorithm's OpenSSL implementation.
fn digest(algorithm: u8, data: &[u8]) -> (r: Vec<u8>)
    requires
        algorithm <= SHA_512,
    ensures
        r@ == digest_of(algorithm, data@),
        r@.len() == digest_len(algorithm),
{
    if algorithm == SHA_224 {
        sha224(data)
    } else if algorithm == SHA_256 {
        sha256(data)
    } else if algorithm == SHA_384 {
        sha384(data)
    } else {
        sha512(data)
    }
}

/// Runs the salted, iterated hash of `passwd` and appends the digest to `w`.
/// An algorithm or salt mode that the pipeline does not ship (HMAC among
/// them), or XOR mixing with an empty salt, is `InvalidData`, and `w` is
/// left as it was. The digest is 28, 32, 48 or 64 bytes by algorithm.
pub fn write_password(
    passwd: &str,
    salt: &[u8],
    algorithm: u8,
    salt_and_repetition: u8,
    w: &mut Vec<u8>,
) -> (r: Result<(), StoreError>)
    ensures
        r is Ok <==> supported(algorithm, salt_and_repetition, salt@.len()),
        r is Err ==> r == Err::<(), StoreError>(StoreError::InvalidData) && final(w)@ == old(w)@,
        r is Ok ==> final(w)@.len() == old(w)@.len() + digest_len(algorithm),
        r is Ok ==> final(w)@ == old(w)@ + password_digest(
            passwd.spec_bytes(),
            salt@,
            algorithm,
            salt_and_repetition,
        ),
{
    let sr = salt_and_repetition;
    let mode = sr & SALT_MASK;
    assert(sr & 0x1f == sr % 32) by (bit_vector);
    if algorithm > SHA_512 || (mode != SALT_XOR && mode != SALT_CONCAT) || (mode == SALT_XOR
        && salt.len() == 0) {
        return Err(StoreError::InvalidData);
    }
    let exp: u8 = (sr & ROUNDS_MASK) >> ROUNDS_SHIFT;
    assert((sr & 0xe0) >> 5u8 == sr / 32) by (bit_vector);
    let rounds: u32 = 1u32 << (10 + exp as u32);
    assert(exp < 8);
    assert(exp < 8 ==> 1u32 << (10 + exp as u32) > 0) by (bit_vector);
    let ghost pw = passwd.spec_bytes();
    let mut input: Vec<u8> = Vec::new();
    append_bytes(&mut input, passwd.as_bytes());
    assert(input@ =~= pw);
    let mut i: u32 = 0;
    while i < rounds
        invariant
            algorithm <= SHA_512,
            mode == salt_mode(sr),
            mode == SALT_CONCAT || (mode == SALT_XOR && salt@.len() > 0),
            rounds == round_count(sr),
            rounds > 0,
            i <= rounds,
            input@ == hash_rounds(pw, salt@, algorithm, mode, i as nat),
            i > 0 ==> input@.len() == digest_len(algorithm),
        decreases rounds - i,
    {
        let mut b = mixed(input.as_slice(), salt, mode);
        let out = digest(algorithm, b.as_slice());
        scrub(&mut b);
        scrub(&mut input);
        input = out;
        i = i + 1;
    }
    append_bytes(w, input.as_slice());
    scrub(&mut input);
    Ok(())
}

} // verus!
