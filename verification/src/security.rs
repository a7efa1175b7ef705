//! The owner's password and the login tokens derived from it.
use vstd::prelude::*;
use vstd::utf8::encode_utf8;
use sha2::{Digest, Sha256};
use crate::text::{chars_of, decimal, push_decimal, push_str, seq_eq_chars, string_of};

verus! {

/// The password that grants full access.
pub const OWNER_PASSWORD: &'static str = "Annrice222$blad";

/// The salt mixed into every password hash.
pub const PASSWORD_SALT: &'static str = "ARIA_SOUL_KEY_V1";

/// Whether `input` is the owner's password.
pub fn verify_password(input: &str) -> (ok: bool)
    ensures
        ok == (input@ == OWNER_PASSWORD@),
{
    let v = chars_of(input);
    seq_eq_chars(&v, OWNER_PASSWORD)
}

/// The SHA-256 digest of `data`.
pub uninterp spec fn sha256(data: Seq<u8>) -> Seq<u8>;

/// Calls `sha2::Sha256::digest` (the `Digest` trait of the digest crate) and
/// copies the 32-byte output array into a vector. Claimed: the digest is a
/// function of the input bytes alone, named `sha256`, and is 32 bytes long
/// (`Sha256`'s output size is 32).
#[verifier::external_body]
fn sha256_digest(data: &[u8]) -> (d: Vec<u8>)
    ensures
        d@ == sha256(data@),
        d@.len() == 32,
{
    Sha256::digest(data).to_vec()
}

/// The lowercase hexadecimal digit for `n < 16`.
pub open spec fn hex_digit(n: nat) -> char {
    if n < 10 {
        (48 + n) as char
    } else {
        (87 + n) as char
    }
}

/// Two lowercase hexadecimal digits per byte, high nibble first (what the
/// `{:x}` formatting of a digest writes).
pub open spec fn lower_hex(b: Seq<u8>) -> Seq<char>
    decreases b.len(),
{
    if b.len() == 0 {
        Seq::empty()
    } else {
        lower_hex(b.drop_last()) + seq![
            hex_digit((b.last() / 16) as nat),
            hex_digit((b.last() % 16) as nat),
        ]
    }
}

fn hex_char(n: u8) -> (c: char)
    requires
        n < 16,
    ensures
        c == hex_digit(n as nat),
{
    if n < 10 {
        (48u8 + n) as char
    } else {
        (87u8 + n) as char
    }
}

fn to_lower_hex(b: &Vec<u8>) -> (out: Vec<char>)
    ensures
        out@ == lower_hex(b@),
{
    let mut out: Vec<char> = Vec::new();
    let mut i: usize = 0;
    proof {
        assert(b@.take(0) =~= Seq::<u8>::empty());
    }
    while i < b.len()
        invariant
            i <= b.len(),
            out@ == lower_hex(b@.take(i as int)),
        decreases b.len() - i,
    {
        let x = b[i];
        out.push(hex_char(x / 16));
        out.push(hex_char(x % 16));
        proof {
            let t = b@.take(i + 1);
            assert(t.drop_last() =~= b@.take(i as int));
            assert(t.last() == x);
        }
        i = i + 1;
    }
    proof {
        assert(b@.take(b.len() as int) =~= b@);
    }
    out
}

/// The hash of a password: SHA-256 of its UTF-8 bytes followed by the salt,
/// written as lowercase hexadecimal.
pub open spec fn password_hash(input: Seq<char>) -> Seq<char> {
    lower_hex(sha256(encode_utf8(input) + encode_utf8(PASSWORD_SALT@)))
}

/// Hashes `input` with the kernel's salt into 64 hexadecimal digits.
pub fn hash_password(input: &str) -> (h: String)
    ensures
        h@ == password_hash(input@),
        h@.len() == 64,
{
    let mut data: Vec<u8> = vstd::slice::slice_to_vec(input.as_bytes());
    let mut salt: Vec<u8> = vstd::slice::slice_to_vec(PASSWORD_SALT.as_bytes());
    data.append(&mut salt);
    let d = sha256_digest(data.as_slice());
    let hex = to_lower_hex(&d);
    proof {
        lemma_lower_hex_len(d@);
    }
    string_of(&hex)
}

proof fn lemma_lower_hex_len(b: Seq<u8>)
    ensures
        lower_hex(b).len() == 2 * b.len(),
    decreases b.len(),
{
    if b.len() > 0 {
        lemma_lower_hex_len(b.drop_last());
    }
}

/// What a login attempt gets.
#[derive(Debug, Clone)]
pub enum LoginOutcome {
    /// The password was right; the token is the hash of the password, a
    /// colon and the time of login.
    Granted { token: String },
    Refused,
}

/// The text a login token is derived from.
pub open spec fn token_source(password: Seq<char>, now: nat) -> Seq<char> {
    password + ":"@ + decimal(now)
}

/// A login attempt with `password` at time `now` (seconds).
pub fn login(password: &str, now: u64) -> (r: LoginOutcome)
    ensures
        password@ == OWNER_PASSWORD@ ==> (r matches LoginOutcome::Granted { token } && token@
            == password_hash(token_source(password@, now as nat))),
        password@ != OWNER_PASSWORD@ ==> r is Refused,
{
    if verify_password(password) {
        let mut src: Vec<char> = Vec::new();
        push_str(&mut src, password);
        push_str(&mut src, ":");
        push_decimal(&mut src, now);
        let s = string_of(&src);
        LoginOutcome::Granted { token: hash_password(s.as_str()) }
    } else {
        LoginOutcome::Refused
    }
}

} // verus!
