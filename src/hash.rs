use vstd::prelude::*;
use base64::Engine;
use digest::Digest;

verus! {

/// The digest algorithms a report can be made with.
#[derive(Clone, Copy, Debug, PartialEq, Eq, Structural)]
pub enum HashAlgorithm {
    Md5,
    Sha1,
    Sha224,
    Sha256,
    Sha384,
    Sha512,
}

/// The MD5 digest of the bytes.
pub uninterp spec fn md5_of(bytes: Seq<u8>) -> Seq<u8>;

/// The SHA-1 digest of the bytes.
pub uninterp spec fn sha1_of(bytes: Seq<u8>) -> Seq<u8>;

/// The SHA-224 digest of the bytes.
pub uninterp spec fn sha224_of(bytes: Seq<u8>) -> Seq<u8>;

/// The SHA-256 digest of the bytes.
pub uninterp spec fn sha256_of(bytes: Seq<u8>) -> Seq<u8>;

/// The SHA-384 digest of the bytes.
pub uninterp spec fn sha384_of(bytes: Seq<u8>) -> Seq<u8>;

/// The SHA-512 digest of the bytes.
pub uninterp spec fn sha512_of(bytes: Seq<u8>) -> Seq<u8>;

/// The standard, padded base64 text of the bytes.
pub uninterp spec fn base64_of(bytes: Seq<u8>) -> Seq<char>;

/// Relies on md5::Md5 (`Digest::digest`): a digest of 16 bytes that depends
/// on the input alone.
#[verifier::external_body]
fn md5_digest(bytes: &[u8]) -> (r: Vec<u8>)
    ensures
        r@ == md5_of(bytes@),
        r@.len() == 16,
{
    md5::Md5::digest(bytes).to_vec()
}

/// Relies on sha1::Sha1 (`Digest::digest`): a digest of 20 bytes that
/// depends on the input alone.
#[verifier::external_body]
fn sha1_digest(bytes: &[u8]) -> (r: Vec<u8>)
    ensures
        r@ == sha1_of(bytes@),
        r@.len() == 20,
{
    sha1::Sha1::digest(bytes).to_vec()
}

/// Relies on sha2::Sha224 (`Digest::digest`): a digest of 28 bytes that
/// depends on the input alone.
#[verifier::external_body]
fn sha224_digest(bytes: &[u8]) -> (r: Vec<u8>)
    ensures
        r@ == sha224_of(bytes@),
        r@.len() == 28,
{
    sha2::Sha224::digest(bytes).to_vec()
}

/// Relies on sha2::Sha256 (`Digest::digest`): a digest of 32 bytes that
/// depends on the input alone.
#[verifier::external_body]
fn sha256_digest(bytes: &[u8]) -> (r: Vec<u8>)
    ensures
        r@ == sha256_of(bytes@),
        r@.len() == 32,
{
    sha2::Sha256::digest(bytes).to_vec()
}

/// Relies on sha2::Sha384 (`Digest::digest`): a digest of 48 bytes that
/// depends on the input alone.
#[verifier::external_body]
fn sha384_digest(bytes: &[u8]) -> (r: Vec<u8>)
    ensures
        r@ == sha384_of(bytes@),
        r@.len() == 48,
{
    sha2::Sha384::digest(bytes).to_vec()
}

/// Relies on sha2::Sha512 (`Digest::digest`): a digest of 64 bytes that
/// depends on the input alone.
#[verifier::external_body]
fn sha512_digest(bytes: &[u8]) -> (r: Vec<u8>)
    ensures
        r@ == sha512_of(bytes@),
        r@.len() == 64,
{
    sha2::Sha512::digest(bytes).to_vec()
}

/// Relies on base64's `general_purpose::STANDARD.encode`: the padded base64
/// text, four characters for each started group of three bytes. It panics
/// when that length overflows `usize`, which `requires` rules out.
#[verifier::external_body]
fn base64_encode(bytes: &[u8]) -> (r: String)
    requires
        bytes@.len() / 3 * 4 + 4 <= usize::MAX,
    ensures
        r@ == base64_of(bytes@),
        r@.len() == 4 * ((bytes@.len() + 2) / 3),
{
    base64::engine::general_purpose::STANDARD.encode(bytes)
}

/// The digest of `bytes` under `algorithm`.
pub open spec fn digest_of(algorithm: HashAlgorithm, bytes: Seq<u8>) -> Seq<u8> {
    match algorithm {
        HashAlgorithm::Md5 => md5_of(bytes),
        HashAlgorithm::Sha1 => sha1_of(bytes),
        HashAlgorithm::Sha224 => sha224_of(bytes),
        HashAlgorithm::Sha256 => sha256_of(bytes),
        HashAlgorithm::Sha384 => sha384_of(bytes),
        HashAlgorithm::Sha512 => sha512_of(bytes),
    }
}

/// The length in bytes of a digest under `algorithm`.
pub open spec fn digest_len(algorithm: HashAlgorithm) -> nat {
    match algorithm {
        HashAlgorithm::Md5 => 16,
        HashAlgorithm::Sha1 => 20,
        HashAlgorithm::Sha224 => 28,
        HashAlgorithm::Sha256 => 32,
        HashAlgorithm::Sha384 => 48,
        HashAlgorithm::Sha512 => 64,
    }
}

/// The lowercase hexadecimal digit for `d < 16`.
pub open spec fn hex_digit(d: int) -> char {
    "0123456789abcdef"@[d]
}

/// A byte in lowercase hexadecimal without a leading zero: one digit below
/// 16, two from 16 on.
pub open spec fn byte_hex(b: u8) -> Seq<char> {
    if b < 16 {
        seq![hex_digit(b as int)]
    } else {
        seq![hex_digit(b as int / 16), hex_digit(b as int % 16)]
    }
}

/// The bytes' `byte_hex` texts, one after another.
pub open spec fn hex_unpadded_of(bytes: Seq<u8>) -> Seq<char>
    decreases bytes.len(),
{
    if bytes.len() == 0 {
        Seq::empty()
    } else {
        hex_unpadded_of(bytes.drop_last()) + byte_hex(bytes.last())
    }
}

fn push_hex_digit(text: &mut String, d: u8)
    requires
        d < 16,
    ensures
        final(text)@ == old(text)@.push(hex_digit(d as int)),
{
    let digits = "0123456789abcdef";
    proof {
        reveal_strlit("0123456789abcdef");
    }
    let digit = digits.substring_char(d as usize, d as usize + 1);
    proof {
        assert(digit@ =~= seq![hex_digit(d as int)]);
    }
    text.append(digit);
}

/// The bytes in lowercase hexadecimal, each written without a leading zero
/// (so `0x0a` gives `a`, `0xab` gives `ab`).
pub fn hex_unpadded(bytes: &[u8]) -> (r: String)
    ensures
        r@ == hex_unpadded_of(bytes@),
{
    let mut text = String::new();
    let mut i: usize = 0;
    proof {
        assert(bytes@.take(0) =~= Seq::<u8>::empty());
    }
    while i < bytes.len()
        invariant
            i <= bytes@.len(),
            text@ == hex_unpadded_of(bytes@.take(i as int)),
        decreases bytes@.len() - i,
    {
        let b = bytes[i];
        let ghost before = text@;
        proof {
            assert(bytes@.take(i + 1).drop_last() =~= bytes@.take(i as int));
        }
        if b >= 16 {
            push_hex_digit(&mut text, b / 16);
        }
        push_hex_digit(&mut text, b % 16);
        proof {
            assert(text@ =~= before + byte_hex(b));
        }
        i += 1;
    }
    proof {
        assert(bytes@.take(bytes@.len() as int) =~= bytes@);
    }
    text
}

/// What a digest report shows: the digest in unpadded hexadecimal and in
/// base64.
pub struct HashReport {
    pub hex: String,
    pub base64: String,
}

/// Digest reports.
pub struct HashImpl;

impl HashImpl {
    /// The digest of `bytes` under `algorithm`.
    pub fn digest(bytes: &[u8], algorithm: HashAlgorithm) -> (r: Vec<u8>)
        ensures
            r@ == digest_of(algorithm, bytes@),
            r@.len() == digest_len(algorithm),
    {
        match algorithm {
            HashAlgorithm::Md5 => md5_digest(bytes),
            HashAlgorithm::Sha1 => sha1_digest(bytes),
            HashAlgorithm::Sha224 => sha224_digest(bytes),
            HashAlgorithm::Sha256 => sha256_digest(bytes),
            HashAlgorithm::Sha384 => sha384_digest(bytes),
            HashAlgorithm::Sha512 => sha512_digest(bytes),
        }
    }

    /// The report for a digest that was already computed.
    pub fn report_of_digest(digest: &[u8]) -> (r: HashReport)
        requires
            digest@.len() / 3 * 4 + 4 <= usize::MAX,
        ensures
            r.hex@ == hex_unpadded_of(digest@),
            r.base64@ == base64_of(digest@),
    {
        HashReport { hex: hex_unpadded(digest), base64: base64_encode(digest) }
    }

    /// The report for `bytes` (a file's contents, or the text itself) under
    /// `algorithm`.
    pub fn report(bytes: &[u8], algorithm: HashAlgorithm) -> (r: HashReport)
        ensures
            r.hex@ == hex_unpadded_of(digest_of(algorithm, bytes@)),
            r.base64@ == base64_of(digest_of(algorithm, bytes@)),
    {
        let digest = Self::digest(bytes, algorithm);
        Self::report_of_digest(digest.as_slice())
    }
}

} // verus!
