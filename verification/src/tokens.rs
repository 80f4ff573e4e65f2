//! Random identifiers, and the hashes under which lease tokens are stored.
use base64::engine::general_purpose::URL_SAFE_NO_PAD;
use base64::Engine;
use sha2::{Digest, Sha256};
use vstd::prelude::*;
use vstd::string::StringSliceAdditionalSpecFns;

use crate::errors::JobsError;
use crate::names::{
    is_job_id, is_lease_token, is_random_value, lemma_ascii_chars, token_char,
};

verus! {

/// Why no random bytes could be had.
#[verifier::external_type_specification]
#[verifier::external_body]
pub struct ExRandomError(getrandom::Error);

/// The character that stands for a number below 64 in URL-safe base64.
pub open spec fn base64_char(digit: int) -> char {
    if digit < 26 {
        ('A' as int + digit) as char
    } else if digit < 52 {
        ('a' as int + digit - 26) as char
    } else if digit < 62 {
        ('0' as int + digit - 52) as char
    } else if digit == 62 {
        '-'
    } else {
        '_'
    }
}

/// The number that the six bits from bit `6 * i` on make, with zeros after the end.
pub open spec fn base64_digit(bytes: Seq<u8>, i: int) -> int {
    let at = 6 * i / 8;
    let next = if at + 1 < bytes.len() {
        bytes[at + 1] as int
    } else {
        0
    };
    let pair = bytes[at] * 256 + next;
    if i % 4 == 0 {
        pair / 1024 % 64
    } else if i % 4 == 1 {
        pair / 16 % 64
    } else if i % 4 == 2 {
        pair / 64 % 64
    } else {
        pair / 256 % 64
    }
}

/// How many base64 characters so many bytes take without padding.
pub open spec fn base64_len(length: int) -> int {
    (length * 4 + 2) / 3
}

/// The URL-safe base64 text of the bytes, without padding.
pub open spec fn base64_url(bytes: Seq<u8>) -> Seq<char> {
    Seq::new(base64_len(bytes.len() as int) as nat, |i: int| base64_char(base64_digit(bytes, i)))
}

/// The SHA-256 digest of the bytes.
pub uninterp spec fn sha256_digest(bytes: Seq<u8>) -> Seq<u8>;

/// `getrandom::fill` replaces the bytes, all of them if it succeeds; by which ones
/// is up to the operating system, which is not asked where there are none.
#[verifier::external_body]
fn fill_random(bytes: &mut Vec<u8>) -> (r: Result<(), getrandom::Error>)
    ensures
        final(bytes)@.len() == old(bytes)@.len(),
        old(bytes)@.len() == 0 ==> r is Ok,
{
    getrandom::fill(bytes)
}

/// `URL_SAFE_NO_PAD.encode` writes six bits per character in the alphabet of
/// letters, digits, `-` and `_`, and no padding. It panics where the text is too
/// long to be allocated.
#[verifier::external_body]
fn encode_base64(bytes: &[u8]) -> (r: String)
    requires
        base64_len(bytes@.len() as int) <= isize::MAX,
    ensures
        r@ == base64_url(bytes@),
{
    URL_SAFE_NO_PAD.encode(bytes)
}

/// `Sha256::digest`, whose output has 32 bytes.
#[verifier::external_body]
fn sha256(bytes: &[u8]) -> (r: Vec<u8>)
    ensures
        r@ == sha256_digest(bytes@),
        r@.len() == 32,
{
    Sha256::digest(bytes).to_vec()
}

/// `prefix` followed by the base64 text of the bytes.
pub fn prefixed_value(prefix: &str, bytes: &[u8]) -> (r: String)
    requires
        prefix.spec_bytes().len() + base64_len(bytes@.len() as int) <= isize::MAX,
    ensures
        r@ == prefix@ + base64_url(bytes@),
{
    prefix.to_owned().concat(encode_base64(bytes).as_str())
}

/// `prefix` followed by the base64 text of `length` random bytes.
pub fn random_value(prefix: &str, length: usize) -> (r: Result<String, JobsError>)
    requires
        prefix.spec_bytes().len() + base64_len(length as int) <= isize::MAX,
    ensures
        match r {
            Ok(text) => exists|bytes: Seq<u8>|
                bytes.len() == length && text@ == prefix@ + #[trigger] base64_url(bytes),
            Err(error) => error == JobsError::Random,
        },
        length == 0 ==> r is Ok,
{
    let mut bytes: Vec<u8> = vec![0u8; length];
    match fill_random(&mut bytes) {
        Ok(_) => Ok(prefixed_value(prefix, bytes.as_slice())),
        Err(_) => Err(JobsError::Random),
    }
}

/// The hash under which a lease token is stored; never the token itself.
pub fn lease_hash(token: &str) -> (r: Vec<u8>)
    ensures
        r@ == sha256_digest(token.spec_bytes()),
        r@.len() == 32,
        is_lease_token(token@) ==> r@ != token.spec_bytes(),
{
    let hash = sha256(token.as_bytes());
    proof {
        if is_lease_token(token@) {
            reveal_strlit("job_lease_");
            assert(vstd::utf8::is_ascii_chars(token@)) by {
                assert forall|i: int| 0 <= i < token@.len() implies '\0' <= #[trigger] token@[i]
                    <= '\u{7f}' by {
                    if i < "job_lease_"@.len() {
                        assert(token@[i] == "job_lease_"@[i]);
                    }
                }
            }
            lemma_ascii_chars(token@);
        }
    }
    hash
}

proof fn lemma_digit_range(bytes: Seq<u8>, i: int)
    ensures
        0 <= base64_digit(bytes, i) < 64,
{
}

/// Whatever the random bytes are, an identifier made of 18 of them is a job
/// identifier, and a token made of 32 of them is a lease token.
pub proof fn law_generated_values_are_valid(bytes: Seq<u8>)
    ensures
        bytes.len() == 18 ==> is_job_id("job_"@ + base64_url(bytes)),
        bytes.len() == 32 ==> is_lease_token("job_lease_"@ + base64_url(bytes)),
{
    assert forall|i: int| 0 <= i < base64_url(bytes).len() implies token_char(
        #[trigger] base64_url(bytes)[i],
    ) by {
        lemma_digit_range(bytes, i);
    }
    assert forall|prefix: Seq<char>| #[trigger]
        is_random_value(prefix + base64_url(bytes), prefix, base64_url(bytes).len()) by {
        let text = prefix + base64_url(bytes);
        assert(prefix.is_prefix_of(text)) by {
            assert(text.take(prefix.len() as int) == prefix);
        }
        assert forall|i: int| prefix.len() <= i < text.len() implies token_char(
            #[trigger] text[i],
        ) by {
            assert(text[i] == base64_url(bytes)[i - prefix.len()]);
        }
    }
    assert(is_random_value("job_"@ + base64_url(bytes), "job_"@, base64_url(bytes).len()));
    assert(is_random_value("job_lease_"@ + base64_url(bytes), "job_lease_"@, base64_url(bytes).len()));
}

} // verus!
