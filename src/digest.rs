use vstd::prelude::*;

verus! {

/// The SHA2-224 digest of `data`, as computed by OpenSSL.
pub uninterp spec fn sha224_of(data: Seq<u8>) -> Seq<u8>;

/// The SHA2-256 digest of `data`, as computed by OpenSSL.
pub uninterp spec fn sha256_of(data: Seq<u8>) -> Seq<u8>;

/// The SHA2-384 digest of `data`, as computed by OpenSSL.
pub uninterp spec fn sha384_of(data: Seq<u8>) -> Seq<u8>;

/// The SHA2-512 digest of `data`, as computed by OpenSSL.
pub uninterp spec fn sha512_of(data: Seq<u8>) -> Seq<u8>;

/// Relies on `openssl::sha::sha224`: a 28-byte digest that depends on the data alone.
#[verifier::external_body]
pub(crate) fn sha224(data: &[u8]) -> (r: Vec<u8>)
    ensures
        r@ == sha224_of(data@),
        r@.len() == 28,
{
    openssl::sha::sha224(data).to_vec()
}

/// Relies on `openssl::sha::sha256`: a 32-byte digest that depends on the data alone.
#[verifier::external_body]
pub(crate) fn sha256(data: &[u8]) -> (r: Vec<u8>)
    ensures
        r@ == sha256_of(data@),
        r@.len() == 32,
{
    openssl::sha::sha256(data).to_vec()
}

/// Relies on `openssl::sha::sha384`: a 48-byte digest that depends on the data alone.
#[verifier::external_body]
pub(crate) fn sha384(data: &[u8]) -> (r: Vec<u8>)
    ensures
        r@ == sha384_of(data@),
        r@.len() == 48,
{
    openssl::sha::sha384(data).to_vec()
}

/// Relies on `openssl::sha::sha512`: a 64-byte digest that depends on the data alone.
#[verifier::external_body]
pub(crate) fn sha512(data: &[u8]) -> (r: Vec<u8>)
    ensures
        r@ == sha512_of(data@),
        r@.len() == 64,
{
    openssl::sha::sha512(data).to_vec()
}

/// Relies on `openssl::memcmp::eq` (CRYPTO_memcmp): a comparison whose time
/// does not depend on where the inputs differ. It asserts equal lengths.
#[verifier::external_body]
pub(crate) fn constant_time_eq(a: &[u8], b: &[u8]) -> (r: bool)
    requires
        a@.len() == b@.len(),
    ensures
        r == (a@ == b@),
{
    openssl::memcmp::eq(a, b)
}

/// Relies on `zeroize::Zeroize` for `Vec<u8>`: the elements and the spare
/// capacity are overwritten with zeros, then the vector is cleared.
#[verifier::external_body]
pub(crate) fn scrub(v: &mut Vec<u8>)
    ensures
        final(v)@.len() == 0,
{
    zeroize::Zeroize::zeroize(v)
}

#[verifier::external_type_specification]
#[verifier::external_body]
pub struct ExErrorStack(openssl::error::ErrorStack);

/// Relies on `openssl::rand::rand_bytes`: fills the buffer with
/// cryptographically strong random bytes or reports OpenSSL's error. It
/// asserts that the length fits a C `int`.
#[verifier::external_body]
pub(crate) fn random_fill(buf: &mut Vec<u8>) -> (r: Result<(), openssl::error::ErrorStack>)
    requires
        old(buf)@.len() <= 0x7FFF_FFFF,
    ensures
        final(buf)@.len() == old(buf)@.len(),
{
    openssl::rand::rand_bytes(buf.as_mut_slice())
}

} // verus!
