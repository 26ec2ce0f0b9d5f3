//! Local accounts: salted SHA-256 password hashes in hex, and the tokens a
//! login hands out.
use vstd::prelude::*;
use sha2::Digest;

verus! {

/// What SHA-256 makes of a byte string.
pub uninterp spec fn sha256_of(data: Seq<u8>) -> Seq<u8>;

/// `sha2::Sha256::digest`: the SHA-256 digest of the bytes, 32 bytes long.
#[verifier::external_body]
fn sha256_digest(data: &[u8]) -> (r: Vec<u8>)
    ensures
        r@ == sha256_of(data@),
        r@.len() == 32,
{
    sha2::Sha256::digest(data).to_vec()
}

pub open spec fn hex_upto(bs: Seq<u8>, n: int) -> Seq<char>
    decreases n,
{
    if n <= 0 {
        Seq::empty()
    } else {
        hex_upto(bs, n - 1) + seq![crate::text::hex_char((bs[n - 1] / 16) as int), crate::text::hex_char((bs[n - 1] % 16) as int)]
    }
}

/// Lower-case hexadecimal of bytes, two digits each, high nibble first.
pub open spec fn hex_of(bs: Seq<u8>) -> Seq<char> {
    hex_upto(bs, bs.len() as int)
}

/// `hex::encode`: the bytes in lower-case hexadecimal, two digits each, high
/// nibble first.
#[verifier::external_body]
fn hex_encode(bytes: &[u8]) -> (r: String)
    ensures
        r@ == hex_of(bytes@),
{
    hex::encode(bytes)
}

pub open spec fn is_lower_hex(c: char) -> bool {
    ('0' <= c && c <= '9') || ('a' <= c && c <= 'f')
}

/// A version-4 UUID in its hyphenated lower-case text form.
pub open spec fn is_uuid_text(s: Seq<char>) -> bool {
    &&& s.len() == 36
    &&& forall|i: int| 0 <= i < 36 ==> if i == 8 || i == 13 || i == 18 || i == 23 {
        s[i] == '-'
    } else {
        is_lower_hex(#[trigger] s[i])
    }
    &&& s[14] == '4'
}

/// `uuid::Uuid::new_v4().to_string()`: a random version-4 UUID, hyphenated
/// and in lower case. Which one is left open: it comes from the system's
/// random source.
#[verifier::external_body]
pub(crate) fn new_uuid() -> (r: String)
    ensures
        is_uuid_text(r@),
{
    uuid::Uuid::new_v4().to_string()
}

/// The hash stored for a password: the hex SHA-256 of the salt's UTF-8 bytes
/// followed by the password's.
pub open spec fn spec_password_hash(password: Seq<char>, salt: Seq<char>) -> Seq<char> {
    hex_of(sha256_of(vstd::utf8::encode_utf8(salt) + vstd::utf8::encode_utf8(password)))
}

fn push_bytes(out: &mut Vec<u8>, s: &str)
    ensures
        final(out)@ == old(out)@ + vstd::utf8::encode_utf8(s@),
{
    let b = s.as_bytes();
    let ghost o = out@;
    let mut i: usize = 0;
    while i < b.len()
        invariant
            i <= b@.len(),
            b@ == vstd::utf8::encode_utf8(s@),
            out@ == o + b@.take(i as int),
        decreases b@.len() - i,
    {
        out.push(b[i]);
        assert(b@.take(i + 1) =~= b@.take(i as int).push(b@[i as int]));
        assert(o + b@.take(i + 1) =~= (o + b@.take(i as int)).push(b@[i as int]));
        i += 1;
    }
    assert(b@.take(i as int) =~= b@);
}

/// `hash_password`: the salted SHA-256 of a password, in hex.
pub fn hash_password(password: &str, salt: &str) -> (r: String)
    ensures
        r@ == spec_password_hash(password@, salt@),
{
    let mut data: Vec<u8> = Vec::new();
    push_bytes(&mut data, salt);
    push_bytes(&mut data, password);
    assert(data@ =~= vstd::utf8::encode_utf8(salt@) + vstd::utf8::encode_utf8(password@));
    let digest = sha256_digest(&data);
    hex_encode(&digest)
}

/// The password is the one a stored hash was made from with that salt.
pub fn password_matches(password: &str, salt: &str, stored_hash: &str) -> (r: bool)
    ensures
        r == (spec_password_hash(password@, salt@) == stored_hash@),
{
    let h = hash_password(password, salt);
    crate::text::str_eq(h.as_str(), stored_hash)
}

/// What a new account is stored with, and the tokens it is handed.
pub struct NewUser {
    pub salt: String,
    pub password_hash: String,
    pub token: String,
    pub refresh_token: String,
}

/// A new account made for a password: a UUID salt, the password's hash with
/// it, and a UUID token pair.
pub open spec fn registered_with(u: NewUser, password: Seq<char>) -> bool {
    &&& is_uuid_text(u.salt@)
    &&& u.password_hash@ == spec_password_hash(password, u.salt@)
    &&& is_uuid_text(u.token@)
    &&& is_uuid_text(u.refresh_token@)
}

/// A login with this password is accepted against a stored hash and salt.
pub open spec fn login_accepted(password: Seq<char>, hash: Seq<char>, salt: Seq<char>) -> bool {
    spec_password_hash(password, salt) == hash
}

/// `auth_register`'s decision: a taken user name is refused; otherwise the
/// account gets a random salt, the password's hash with it, and two random
/// tokens.
pub fn register_user(password: &str, username_taken: bool) -> (r: Result<NewUser, String>)
    ensures
        username_taken ==> (r matches Err(m) && m@ == "\u{7528}\u{6237}\u{540d}\u{5df2}\u{88ab}\u{6ce8}\u{518c}"@),
        !username_taken ==> (r matches Ok(u) && registered_with(u, password@)),
{
    if username_taken {
        return Err("\u{7528}\u{6237}\u{540d}\u{5df2}\u{88ab}\u{6ce8}\u{518c}".to_string());
    }
    let salt = new_uuid();
    let password_hash = hash_password(password, salt.as_str());
    let token = new_uuid();
    let refresh_token = new_uuid();
    Ok(NewUser { salt, password_hash, token, refresh_token })
}

/// `auth_login`'s decision: with the stored hash and salt of the user (none
/// when there is no such user), a matching password gets a fresh token pair;
/// anything else the one refusal message.
pub fn login_user(password: &str, stored: Option<(String, String)>) -> (r: Result<(String, String), String>)
    ensures
        match stored {
            Some((hash, salt)) if login_accepted(password@, hash@, salt@) =>
                r matches Ok(t) && is_uuid_text(t.0@) && is_uuid_text(t.1@),
            _ => r matches Err(m) && m@ == "\u{7528}\u{6237}\u{540d}\u{6216}\u{5bc6}\u{7801}\u{9519}\u{8bef}"@,
        },
{
    match stored {
        Some((hash, salt)) => {
            if password_matches(password, salt.as_str(), hash.as_str()) {
                let token = new_uuid();
                let refresh = new_uuid();
                Ok((token, refresh))
            } else {
                Err("\u{7528}\u{6237}\u{540d}\u{6216}\u{5bc6}\u{7801}\u{9519}\u{8bef}".to_string())
            }
        },
        None => Err("\u{7528}\u{6237}\u{540d}\u{6216}\u{5bc6}\u{7801}\u{9519}\u{8bef}".to_string()),
    }
}

/// Whoever registered with a password logs in with it: the account that
/// registration makes for a password is accepted by a login with that password
/// against the account's stored hash and salt, whatever salt was drawn.
pub proof fn law_registered_password_logs_in(u: NewUser, password: Seq<char>)
    requires
        registered_with(u, password),
    ensures
        login_accepted(password, u.password_hash@, u.salt@),
{
}

} // verus!
