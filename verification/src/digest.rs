//! Password digests: a salted SHA-256 digest in hexadecimal text, and the
//! comparisons that test a credential against a stored digest.
//!
//! A stored digest is the salt, a `$`, and the 64 hexadecimal characters of
//! the SHA-256 digest of the salt's bytes followed by the password's bytes.
//! The hexadecimal part holds no `$`, so the last `$` of a stored digest is
//! the separator, whatever the salt holds.

use crate::ident::{fresh_uuid_text, is_hyphenated_uuid};
use sha2::{Digest, Sha256};
use vstd::prelude::*;
use vstd::utf8::{encode_utf8, encode_utf8_decode_utf8};

verus! {

/// The SHA-256 digest of a byte string, as the `sha2` crate computes it.
pub uninterp spec fn sha256(data: Seq<u8>) -> Seq<u8>;

/// Computes a digest with `sha2::Sha256::digest`. The result is a function
/// of the bytes alone; the algorithm is taken on trust and only named.
#[verifier::external_body]
fn sha256_of(data: &[u8]) -> (out: Vec<u8>)
    ensures
        out@ == sha256(data@),
{
    Sha256::digest(data).to_vec()
}

/// The lower-case hexadecimal digit of a number below sixteen.
pub open spec fn hex_digit(n: int) -> char {
    if n < 10 {
        ('0' as u8 + n) as u8 as char
    } else {
        ('a' as u8 + n - 10) as u8 as char
    }
}

/// The hexadecimal text of a byte string: two digits a byte, high half first.
pub open spec fn hex_text(bytes: Seq<u8>) -> Seq<char> {
    Seq::new(
        2 * bytes.len(),
        |i: int|
            if i % 2 == 0 {
                hex_digit(bytes[i / 2] as int / 16)
            } else {
                hex_digit(bytes[i / 2] as int % 16)
            },
    )
}

/// The bytes that are digested for a salt and a password.
pub open spec fn salted_input(salt: Seq<char>, secret: Seq<char>) -> Seq<u8> {
    encode_utf8(salt) + encode_utf8(secret)
}

/// The stored digest of `secret` under `salt`.
pub open spec fn salted_digest(salt: Seq<char>, secret: Seq<char>) -> Seq<char> {
    salt.push('$') + hex_text(sha256(salted_input(salt, secret)))
}

/// Whether the separator of `stored` stands at `k`: the last `$` in it.
pub open spec fn separator_at(stored: Seq<char>, k: int) -> bool {
    &&& 0 <= k < stored.len()
    &&& stored[k] == '$'
    &&& forall|j: int| k < j < stored.len() ==> #[trigger] stored[j] != '$'
}

/// Whether `stored` is a digest of `secret`: it has a separator, and what
/// follows it is the hexadecimal digest of what precedes it and `secret`.
pub open spec fn digest_matches(stored: Seq<char>, secret: Seq<char>) -> bool {
    exists|k: int|
        #![trigger separator_at(stored, k)]
        separator_at(stored, k) && stored.skip(k + 1) == hex_text(
            sha256(salted_input(stored.take(k), secret)),
        )
}

/// Whether `stored` is the digest of `secret` under some salt in the form
/// of a hyphenated UUID, as a fresh digest is.
pub open spec fn is_fresh_digest(stored: Seq<char>, secret: Seq<char>) -> bool {
    exists|salt: Seq<char>|
        is_hyphenated_uuid(salt) && stored == #[trigger] salted_digest(salt, secret)
}

/// Whether `pw_hash` is what a creation stores for `password`: nothing for
/// no password, and else a fresh digest of the password.
pub open spec fn hashes_password(
    pw_hash: Option<Seq<char>>,
    password: Option<Seq<char>>,
) -> bool {
    match (pw_hash, password) {
        (Some(stored), Some(secret)) => is_fresh_digest(stored, secret),
        (None, None) => true,
        _ => false,
    }
}

/// Whether two passwords have the same digest under `salt`.
pub open spec fn same_digest(salt: Seq<char>, a: Seq<char>, b: Seq<char>) -> bool {
    sha256(salted_input(salt, a)) == sha256(salted_input(salt, b))
}

/// No character of a hexadecimal text is the separator.
pub proof fn lemma_hex_holds_no_separator(bytes: Seq<u8>)
    ensures
        forall|i: int| 0 <= i < hex_text(bytes).len() ==> #[trigger] hex_text(bytes)[i] != '$',
{
}

/// Byte strings with the same hexadecimal text are the same.
pub proof fn lemma_hex_is_injective(a: Seq<u8>, b: Seq<u8>)
    requires
        hex_text(a) == hex_text(b),
    ensures
        a == b,
{
    assert(hex_text(a).len() == 2 * a.len());
    assert(hex_text(b).len() == 2 * b.len());
    assert forall|i: int| 0 <= i < a.len() implies a[i] == b[i] by {
        let high = hex_text(a)[2 * i];
        let low = hex_text(a)[2 * i + 1];
        assert(high == hex_text(b)[2 * i]);
        assert(low == hex_text(b)[2 * i + 1]);
        assert(high == hex_digit(a[i] as int / 16));
        assert(low == hex_digit(a[i] as int % 16));
        assert(high == hex_digit(b[i] as int / 16));
        assert(low == hex_digit(b[i] as int % 16));
    }
    assert(a =~= b);
}

/// The separator of a stored digest stands right after the salt, and
/// nowhere else.
pub proof fn lemma_separator_follows_salt(salt: Seq<char>, secret: Seq<char>, k: int)
    ensures
        separator_at(salted_digest(salt, secret), k) <==> k == salt.len(),
        salted_digest(salt, secret).take(salt.len() as int) == salt,
        salted_digest(salt, secret).skip(salt.len() as int + 1) == hex_text(
            sha256(salted_input(salt, secret)),
        ),
{
    let hex = hex_text(sha256(salted_input(salt, secret)));
    let stored = salted_digest(salt, secret);
    let n = salt.len() as int;
    lemma_hex_holds_no_separator(sha256(salted_input(salt, secret)));
    assert(stored.len() == n + 1 + hex.len());
    assert(stored[n] == '$');
    assert forall|j: int| n < j < stored.len() implies #[trigger] stored[j] != '$' by {
        assert(stored[j] == hex[j - n - 1]);
    }
    assert(separator_at(stored, n));
    if separator_at(stored, k) && k != n {
        if k < n {
            assert(stored[n] == '$');
        } else {
            assert(stored[k] == hex[k - n - 1]);
        }
    }
    assert(stored.take(n) =~= salt);
    assert(stored.skip(n + 1) =~= hex);
}

/// A stored digest of a password under a salt matches exactly the
/// credentials that have the password's digest under that salt; the
/// password itself is one of them.
pub proof fn law_digest_matches_same_digest(
    salt: Seq<char>,
    secret: Seq<char>,
    credential: Seq<char>,
)
    ensures
        digest_matches(salted_digest(salt, secret), credential) <==> same_digest(
            salt,
            secret,
            credential,
        ),
        digest_matches(salted_digest(salt, secret), secret),
{
    let stored = salted_digest(salt, secret);
    let n = salt.len() as int;
    lemma_separator_follows_salt(salt, secret, n);
    assert(separator_at(stored, n));
    if same_digest(salt, secret, credential) {
        assert(stored.skip(n + 1) == hex_text(sha256(salted_input(stored.take(n), credential))));
    }
    if digest_matches(stored, credential) {
        let k = choose|k: int|
            #![trigger separator_at(stored, k)]
            separator_at(stored, k) && stored.skip(k + 1) == hex_text(
                sha256(salted_input(stored.take(k), credential)),
            );
        lemma_separator_follows_salt(salt, secret, k);
        lemma_hex_is_injective(
            sha256(salted_input(salt, secret)),
            sha256(salted_input(salt, credential)),
        );
    }
    assert(stored.skip(n + 1) == hex_text(sha256(salted_input(stored.take(n), secret))));
}

fn hex_digit_of(n: u8) -> (c: char)
    requires
        n < 16,
    ensures
        c == hex_digit(n as int),
{
    if n < 10 {
        ('0' as u8 + n) as char
    } else {
        ('a' as u8 + (n - 10)) as char
    }
}

/// Writes a byte string as hexadecimal text.
pub fn to_hex(bytes: &[u8]) -> (text: String)
    ensures
        text@ == hex_text(bytes@),
{
    let mut text = String::new();
    let mut i: usize = 0;
    while i < bytes.len()
        invariant
            i <= bytes@.len(),
            text@ == hex_text(bytes@.take(i as int)),
        decreases bytes@.len() - i,
    {
        let byte = bytes[i];
        text.push(hex_digit_of(byte / 16));
        text.push(hex_digit_of(byte % 16));
        i += 1;
        assert(text@ =~= hex_text(bytes@.take(i as int)));
    }
    assert(bytes@.take(i as int) =~= bytes@);
    text
}

/// Compares two byte strings without stopping at the first difference: the
/// time taken depends on the lengths alone.
pub fn constant_time_eq(a: &[u8], b: &[u8]) -> (same: bool)
    ensures
        same == (a@ == b@),
{
    if a.len() != b.len() {
        return false;
    }
    let mut diff: u8 = 0;
    let mut i: usize = 0;
    assert(a@.take(0) =~= b@.take(0));
    while i < a.len()
        invariant
            i <= a@.len(),
            a@.len() == b@.len(),
            diff == 0 <==> a@.take(i as int) == b@.take(i as int),
        decreases a@.len() - i,
    {
        let x = a[i];
        let y = b[i];
        let ghost before = diff;
        diff = diff | (x ^ y);
        assert(diff == 0 <==> (before == 0 && x == y)) by (bit_vector)
            requires
                diff == before | (x ^ y),
        ;
        proof {
            let grown_a = a@.take(i + 1);
            let grown_b = b@.take(i + 1);
            assert(grown_a.drop_last() =~= a@.take(i as int));
            assert(grown_b.drop_last() =~= b@.take(i as int));
            assert(grown_a.last() == x && grown_b.last() == y);
            if before == 0 && x == y {
                assert(grown_a =~= grown_b);
            }
        }
        i += 1;
    }
    assert(a@.take(i as int) =~= a@ && b@.take(i as int) =~= b@);
    diff == 0
}

/// The stored digest of `secret` under the given salt.
pub fn gen_hash_with_salt(salt: &str, secret: &str) -> (stored: String)
    ensures
        stored@ == salted_digest(salt@, secret@),
{
    let mut input = salt.as_bytes_vec();
    let tail = secret.as_bytes();
    let mut i: usize = 0;
    while i < tail.len()
        invariant
            i <= tail@.len(),
            input@ == encode_utf8(salt@) + tail@.take(i as int),
        decreases tail@.len() - i,
    {
        input.push(tail[i]);
        i += 1;
        assert(input@ =~= encode_utf8(salt@) + tail@.take(i as int));
    }
    assert(tail@.take(i as int) =~= tail@);
    let hex = to_hex(sha256_of(input.as_slice()).as_slice());
    let mut stored = salt.to_owned();
    stored.push('$');
    stored.append(hex.as_str());
    stored
}

/// The stored digest of a password under a fresh random salt. Two calls on
/// one password give different texts; each matches the password.
pub fn gen_hash(s: String) -> (stored: String)
    ensures
        is_fresh_digest(stored@, s@),
        digest_matches(stored@, s@),
{
    let salt = fresh_uuid_text();
    let stored = gen_hash_with_salt(salt.as_str(), s.as_str());
    proof {
        assert(stored@ == salted_digest(salt@, s@));
        law_digest_matches_same_digest(salt@, s@, s@);
    }
    stored
}

/// Whether `stored` is a digest of `secret`. The digest of `secret` under
/// the stored salt is computed anew and compared in constant time.
pub fn verify_hash(stored: &str, secret: &str) -> (ok: bool)
    ensures
        ok == digest_matches(stored@, secret@),
{
    let n = stored.unicode_len();
    let mut k: usize = n;
    while k > 0 && stored.get_char(k - 1) != '$'
        invariant
            k <= n,
            n == stored@.len(),
            forall|j: int| k <= j < n ==> #[trigger] stored@[j] != '$',
        decreases k,
    {
        k -= 1;
    }
    if k == 0 {
        assert forall|j: int| !separator_at(stored@, j) by {
            if 0 <= j < n {
                assert(stored@[j] != '$');
            }
        }
        return false;
    }
    let at: usize = k - 1;
    assert(separator_at(stored@, at as int));
    let salt = stored.substring_char(0, at);
    let claimed = stored.substring_char(k, n);
    let expected = gen_hash_with_salt(salt, secret);
    let expected_hex = expected.as_str().substring_char(k, expected.as_str().unicode_len());
    let same = constant_time_eq(claimed.as_bytes(), expected_hex.as_bytes());
    proof {
        let hex = hex_text(sha256(salted_input(salt@, secret@)));
        lemma_separator_follows_salt(salt@, secret@, at as int);
        assert(salt@ =~= stored@.take(at as int));
        assert(claimed@ =~= stored@.skip(k as int));
        assert(expected_hex@ =~= hex);
        encode_utf8_decode_utf8(claimed@);
        encode_utf8_decode_utf8(expected_hex@);
        assert(same == (claimed@ == hex));
        assert forall|j: int| separator_at(stored@, j) implies j == at by {
            if j < at {
                assert(stored@[at as int] == '$');
            } else if j > at {
                assert(stored@[j] == '$');
            }
        }
    }
    same
}

} // verus!
