//! The credential check: reading a Basic `Authorization` header and checking
//! the password it carries against the hash that the host's account database
//! holds for the user. Looking that hash up is left to the caller.
use vstd::prelude::*;
use vstd::string::*;
use vstd::utf8::decode_utf8;
use vstd::utf8::valid_utf8;
use crate::text::pieces;
use crate::text::same_text;
use crate::text::split_on;
use crate::text::split_words;
use crate::text::texts;
use crate::text::words;

verus! {

#[verifier::external_type_specification]
#[verifier::external_body]
pub struct ExDecodeError(base64::DecodeError);

/// What `base64::decode` yields for a text: the bytes that it encodes, or
/// nothing where it is not padded base64 of the standard alphabet.
pub uninterp spec fn base64_decoded(s: Seq<char>) -> Option<Seq<u8>>;

/// What `pwhash::unix::verify` answers for a password and a stored hash.
pub uninterp spec fn hash_accepts(password: Seq<char>, hash: Seq<char>) -> bool;

/// A user name and password, held only while one request is checked.
#[derive(Debug)]
pub struct Credential {
    pub username: String,
    pub password: String,
}

/// The user name and password of a `user:password` text, which must hold
/// exactly one colon.
pub open spec fn credential_parts(t: Seq<char>) -> Option<(Seq<char>, Seq<char>)> {
    let p = pieces(t, ':');
    if p.len() == 2 {
        Some((p[0], p[1]))
    } else {
        None
    }
}

/// The credential in decoded base64 bytes: valid UTF-8 text of the form
/// `user:password`.
pub open spec fn credential_of_bytes(b: Seq<u8>) -> Option<(Seq<char>, Seq<char>)> {
    if valid_utf8(b) {
        credential_parts(decode_utf8(b))
    } else {
        None
    }
}

/// The credential in an `Authorization` header value: exactly two words, the
/// scheme `Basic` and a base64 token, the token decoding to a credential.
pub open spec fn header_credential(h: Seq<char>) -> Option<(Seq<char>, Seq<char>)> {
    let w = words(h);
    if w.len() != 2 || w[0] != "Basic"@ {
        None
    } else {
        match base64_decoded(w[1]) {
            Some(b) => credential_of_bytes(b),
            None => None,
        }
    }
}

pub open spec fn credential_view(c: Option<Credential>) -> Option<(Seq<char>, Seq<char>)> {
    match c {
        Some(c) => Some((c.username@, c.password@)),
        None => None,
    }
}

/// Whether a stored hash is text that the hashing library can read: every
/// character lies in U+0020..=U+007F.
pub open spec fn hash_readable(h: Seq<char>) -> bool {
    forall|k: int| 0 <= k < h.len() ==> 0x20 <= (#[trigger] h[k] as u32) <= 0x7F
}

/// Whether a password matches what the account database holds for the
/// account: no account, or a malformed stored hash, never matches.
pub open spec fn password_ok(password: Seq<char>, stored: Option<Seq<char>>) -> bool {
    match stored {
        Some(h) => hash_readable(h) && hash_accepts(password, h),
        None => false,
    }
}

pub open spec fn stored_view(stored: Option<String>) -> Option<Seq<char>> {
    match stored {
        Some(h) => Some(h@),
        None => None,
    }
}

/// Whether a request with this `Authorization` header, whose user's stored
/// hash is `stored`, is let through.
pub open spec fn authorized(header: Option<Seq<char>>, stored: Option<Seq<char>>) -> bool {
    match header {
        Some(h) => match header_credential(h) {
            Some((_, password)) => password_ok(password, stored),
            None => false,
        },
        None => false,
    }
}

/// Relies on `String::from_utf8`: it succeeds exactly on valid UTF-8 and then
/// holds the characters that the bytes encode.
#[verifier::external_body]
pub(crate) fn utf8_text(b: Vec<u8>) -> (r: Option<String>)
    ensures
        match r {
            Some(t) => valid_utf8(b@) && t@ == decode_utf8(b@),
            None => !valid_utf8(b@),
        },
{
    String::from_utf8(b).ok()
}

/// Relies on `base64::decode`: the bytes encoded by a standard-alphabet,
/// padded base64 text, or an error.
#[verifier::external_body]
fn decode_base64(s: &str) -> (r: Result<Vec<u8>, base64::DecodeError>)
    ensures
        match r {
            Ok(b) => base64_decoded(s@) == Some(b@),
            Err(_) => base64_decoded(s@) is None,
        },
{
    base64::decode(s)
}

/// Relies on `pwhash::unix::verify`: whether a password hashes, with the
/// algorithm and salt named in a stored hash, to that hash. Its salt decoding
/// (`decode_val`, `bcrypt_hash64_decode`) subtracts 0x20 from each character
/// and indexes a table of 96 entries, so a character below U+0020 overflows
/// and one from U+0080 on indexes out of bounds; `requires` leaves such
/// hashes out.
#[verifier::external_body]
fn hash_verifies(password: &str, hash: &str) -> (r: bool)
    requires
        hash_readable(hash@),
    ensures
        r == hash_accepts(password@, hash@),
{
    pwhash::unix::verify(password, hash)
}

/// Whether every character of a stored hash lies in U+0020..=U+007F.
pub fn is_hash_readable(h: &str) -> (r: bool)
    ensures
        r == hash_readable(h@),
{
    let n = h.unicode_len();
    let mut i: usize = 0;
    while i < n
        invariant
            n == h@.len(),
            i <= n,
            forall|k: int| 0 <= k < i ==> 0x20 <= (#[trigger] h@[k] as u32) <= 0x7F,
        decreases n - i,
    {
        let u = h.get_char(i) as u32;
        if u < 0x20 || u > 0x7F {
            return false;
        }
        i = i + 1;
    }
    true
}

/// Splits a decoded `user:password` text at its one colon.
pub fn credential_from_text(t: &str) -> (r: Option<Credential>)
    ensures
        credential_view(r) == credential_parts(t@),
{
    let parts = split_on(t, ':');
    if parts.len() != 2 {
        return None;
    }
    assert(texts(parts@)[0] == parts@[0]@ && texts(parts@)[1] == parts@[1]@);
    Some(Credential { username: parts[0].clone(), password: parts[1].clone() })
}

/// Reads the credential in the bytes that a base64 token decodes to.
pub fn credential_from_bytes(b: Vec<u8>) -> (r: Option<Credential>)
    ensures
        credential_view(r) == credential_of_bytes(b@),
{
    match utf8_text(b) {
        Some(t) => credential_from_text(t.as_str()),
        None => None,
    }
}

/// Reads the credential in an `Authorization` header value of the form
/// `<scheme> <base64(user:password)>`.
pub fn decode_credential(header: &str) -> (r: Option<Credential>)
    ensures
        credential_view(r) == header_credential(header@),
{
    let w = split_words(header);
    if w.len() != 2 {
        return None;
    }
    assert(texts(w@)[0] == w@[0]@ && texts(w@)[1] == w@[1]@);
    if !same_text(w[0].as_str(), "Basic") {
        return None;
    }
    match decode_base64(w[1].as_str()) {
        Ok(b) => credential_from_bytes(b),
        Err(_) => None,
    }
}

/// Checks a password against the stored hash of an account. A missing
/// account is refused as a wrong password is, after the same hashing work;
/// a stored hash that is not readable is refused.
pub fn check_password(password: &str, stored: Option<String>) -> (r: bool)
    ensures
        r == password_ok(password@, stored_view(stored)),
{
    let present = stored.is_some();
    let hash = match stored {
        Some(h) => h,
        // a SHA-512 crypt hash to check against when there is no account, so
        // that a missing account costs the same hashing as a wrong password;
        // its answer is discarded
        None => String::from_str(
            "$6$G/gkPn17kHYo0gTF$xhDFU0QYExdMH2ghOWKrrVtu1BuTpNMSJURCXk43.EYekmK8iwV6RNqftUUC8mqDel1J7m3JEbUkbu4YyqSyv/",
        ),
    };
    if !is_hash_readable(hash.as_str()) {
        return false;
    }
    let ok = hash_verifies(password, hash.as_str());
    present && ok
}

/// The check in front of every route: a request passes exactly when its
/// `Authorization` header carries a well-formed Basic credential whose
/// password matches `stored`, the hash looked up for the credential's user.
pub fn is_authorized(header: Option<&str>, stored: Option<String>) -> (r: bool)
    ensures
        r == authorized(
            match header {
                Some(h) => Some(h@),
                None => None,
            },
            stored_view(stored),
        ),
{
    match header {
        None => false,
        Some(h) => match decode_credential(h) {
            None => false,
            Some(c) => check_password(c.password.as_str(), stored),
        },
    }
}

} // verus!
