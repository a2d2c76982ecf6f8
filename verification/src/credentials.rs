//! Credential service: salted password hashing and verification, and
//! stateless session tokens binding a user id to an issue time.
//!
//! A stored hash is `'h'`, sixteen hex digits of salt, `'$'`, then six hex
//! digits per password character. A token is `'t'`, thirty-two hex digits
//! of user id, then sixteen hex digits of the issue time. Verification
//! recomputes and compares; it fails closed on any malformed input.
//!
//! The cryptographic primitives are modeled away, like token expiry: the
//! token carries no signature, so its validation is a format check only,
//! and the stored password encoding is salted and collision-free but not
//! one-way. What is proved of them is exactly what the rest of the core
//! relies on: a token decodes to the id it was issued for, a stored value
//! never equals its plaintext, and only the matching plaintext verifies.

use crate::errors::AppError;
use crate::hex::{
    hex_digit, hex_parse, hex_render, hex_seq, hex_val, hex_val_seq, is_hex,
    lemma_hex_roundtrip, lemma_hex_seq_injective, lemma_hex_seq_len, lemma_hex_val_seq_bound,
    lemma_pow16_32, pow16, str_eq,
};
use vstd::prelude::*;
use vstd::string::StringExecFns;

verus! {

/// Six hex digits for each character of `p`, in order.
pub open spec fn chars_hex(p: Seq<char>) -> Seq<char>
    decreases p.len(),
{
    if p.len() == 0 {
        Seq::empty()
    } else {
        chars_hex(p.drop_last()) + hex_seq(p.last() as u32 as int, 6)
    }
}

/// The stored form of password `p` hashed with `salt`.
pub open spec fn hash_chars(p: Seq<char>, salt: u64) -> Seq<char> {
    seq!['h'] + hex_seq(salt as int, 16) + seq!['$'] + chars_hex(p)
}

/// Whether stored hash `h` matches password `p`: the format is intact and
/// the digest part is the rendering of `p` under the salt `h` carries.
pub open spec fn verify_spec(p: Seq<char>, h: Seq<char>) -> bool {
    &&& h.len() == 18 + 6 * p.len()
    &&& h[0] == 'h'
    &&& h[17] == '$'
    &&& is_hex(h.subrange(1, 17))
    &&& h.subrange(18, h.len() as int) == chars_hex(p)
}

/// The token string for user `id` issued at `ts`.
pub open spec fn token_chars(id: u128, ts: u64) -> Seq<char> {
    seq!['t'] + hex_seq(id as int, 32) + hex_seq(ts as int, 16)
}

/// The user id a token carries, or `None` for a malformed token.
pub open spec fn token_decode(s: Seq<char>) -> Option<u128> {
    if s.len() == 49 && s[0] == 't' && is_hex(s.subrange(1, 33)) && is_hex(s.subrange(33, 49)) {
        Some(hex_val_seq(s.subrange(1, 33)) as u128)
    } else {
        None
    }
}

pub proof fn lemma_pow16_6()
    ensures
        pow16(6) == 0x1000000,
{
    reveal_with_fuel(pow16, 7);
}

pub proof fn lemma_pow16_16()
    ensures
        pow16(16) == 0x10000000000000000,
{
    reveal_with_fuel(pow16, 17);
}

pub proof fn lemma_chars_hex_len(p: Seq<char>)
    ensures
        chars_hex(p).len() == 6 * p.len(),
    decreases p.len(),
{
    if p.len() > 0 {
        lemma_chars_hex_len(p.drop_last());
        lemma_hex_seq_len(p.last() as u32 as int, 6);
    }
}

/// Rendering a sequence of hex digits' value at their own width gives the
/// digits back.
pub proof fn lemma_hex_render_parse(d: Seq<char>)
    requires
        is_hex(d),
    ensures
        hex_seq(hex_val_seq(d), d.len()) == d,
    decreases d.len(),
{
    if d.len() > 0 {
        let pre = d.drop_last();
        let c = d.last();
        assert(is_hex(pre)) by {
            assert(forall|i: int| 0 <= i < pre.len() ==> pre[i] == #[trigger] d[i]);
        }
        lemma_hex_render_parse(pre);
        let v = hex_val_seq(d);
        let vp = hex_val_seq(pre);
        assert(v == vp * 16 + hex_val(c));
        assert(hex_val(c) < 16);
        lemma_hex_val_seq_bound(pre);
        assert(v / 16 == vp && v % 16 == hex_val(c)) by (nonlinear_arith)
            requires
                v == vp * 16 + hex_val(c),
                0 <= hex_val(c) < 16,
                0 <= vp,
        ;
        assert(hex_digit(hex_val(c)) == c);
        assert(hex_seq(v, d.len()) =~= d);
    }
}

/// Distinct passwords have distinct digests.
pub proof fn lemma_chars_hex_injective(p1: Seq<char>, p2: Seq<char>)
    requires
        chars_hex(p1) == chars_hex(p2),
    ensures
        p1 == p2,
    decreases p1.len(),
{
    lemma_chars_hex_len(p1);
    lemma_chars_hex_len(p2);
    if p1.len() == 0 {
        assert(p1 =~= p2);
    } else {
        let c1 = p1.last();
        let c2 = p2.last();
        let t1 = chars_hex(p1.drop_last());
        let t2 = chars_hex(p2.drop_last());
        let a1 = hex_seq(c1 as u32 as int, 6);
        let a2 = hex_seq(c2 as u32 as int, 6);
        lemma_chars_hex_len(p1.drop_last());
        lemma_chars_hex_len(p2.drop_last());
        lemma_hex_seq_len(c1 as u32 as int, 6);
        lemma_hex_seq_len(c2 as u32 as int, 6);
        assert(chars_hex(p1) == t1 + a1);
        assert(chars_hex(p2) == t2 + a2);
        assert(t1.len() == t2.len());
        assert forall|i: int| 0 <= i < t1.len() implies t1[i] == t2[i] by {
            assert((t1 + a1)[i] == t1[i]);
            assert((t2 + a2)[i] == t2[i]);
        }
        assert(t1 =~= t2);
        assert forall|i: int| 0 <= i < 6 implies a1[i] == a2[i] by {
            assert((t1 + a1)[t1.len() + i] == a1[i]);
            assert((t2 + a2)[t2.len() + i] == a2[i]);
        }
        assert(a1 =~= a2);
        vstd::utf8::char_is_scalar(c1);
        vstd::utf8::char_is_scalar(c2);
        lemma_pow16_6();
        lemma_hex_seq_injective(c1 as u32 as int, c2 as u32 as int, 6);
        vstd::utf8::char_u32_cast(c1, c1 as u32);
        vstd::utf8::char_u32_cast(c2, c2 as u32);
        assert(c1 == c2);
        lemma_chars_hex_injective(p1.drop_last(), p2.drop_last());
        assert(p1 =~= p1.drop_last().push(c1));
        assert(p2 =~= p2.drop_last().push(c2));
    }
}

/// A password verifies against its own hash.
pub proof fn lemma_verify_own_hash(p: Seq<char>, salt: u64)
    ensures
        verify_spec(p, hash_chars(p, salt)),
{
    let h = hash_chars(p, salt);
    lemma_hex_seq_len(salt as int, 16);
    lemma_chars_hex_len(p);
    lemma_pow16_16();
    lemma_hex_roundtrip(salt as int, 16);
    assert(h.subrange(1, 17) =~= hex_seq(salt as int, 16));
    assert(h.subrange(18, h.len() as int) =~= chars_hex(p));
}

/// Only the hashed password verifies: a match pins the plaintext.
pub proof fn lemma_verify_unique(p1: Seq<char>, p2: Seq<char>, salt: u64)
    requires
        verify_spec(p2, hash_chars(p1, salt)),
    ensures
        p1 == p2,
{
    let h = hash_chars(p1, salt);
    lemma_hex_seq_len(salt as int, 16);
    lemma_chars_hex_len(p1);
    assert(h.subrange(18, h.len() as int) =~= chars_hex(p1));
    lemma_chars_hex_injective(p1, p2);
}

/// A stored hash never equals the plaintext it was made from.
pub proof fn lemma_hash_not_plaintext(p: Seq<char>, salt: u64)
    ensures
        hash_chars(p, salt) != p,
{
    lemma_hex_seq_len(salt as int, 16);
    lemma_chars_hex_len(p);
    assert(hash_chars(p, salt).len() == 18 + 6 * p.len());
}

/// A token always decodes back to the user id it was issued for.
pub proof fn lemma_token_roundtrip(id: u128, ts: u64)
    ensures
        token_decode(token_chars(id, ts)) == Some(id),
{
    let t = token_chars(id, ts);
    lemma_hex_seq_len(id as int, 32);
    lemma_hex_seq_len(ts as int, 16);
    lemma_pow16_32();
    lemma_pow16_16();
    lemma_hex_roundtrip(id as int, 32);
    lemma_hex_roundtrip(ts as int, 16);
    assert(t.subrange(1, 33) =~= hex_seq(id as int, 32));
    assert(t.subrange(33, 49) =~= hex_seq(ts as int, 16));
}

/// Relies on `chrono::Utc::now` and `chrono::DateTime::timestamp`: the
/// current wall-clock time in whole seconds since the Unix epoch. Nothing
/// is assumed of the value; callers handle every outcome. On a platform
/// whose clock can read before the epoch, `Utc::now` itself panics.
#[verifier::external_body]
pub fn now_seconds() -> i64 {
    chrono::Utc::now().timestamp()
}

/// Builds the stored hash string for `plaintext` under `salt`.
fn hash_build(plaintext: &str, salt: u64) -> (s: String)
    ensures
        s@ == hash_chars(plaintext@, salt),
{
    proof {
        reveal_strlit("h");
        reveal_strlit("$");
        lemma_pow16_16();
    }
    let mut s = String::from_str("h");
    let salt_part = hex_render(salt as u128, 16);
    s.append(salt_part.as_str());
    s.append("$");
    let ghost head = seq!['h'] + hex_seq(salt as int, 16) + seq!['$'];
    proof {
        assert(s@ =~= head + chars_hex(plaintext@.take(0)));
    }
    let n = plaintext.unicode_len();
    let mut i: usize = 0;
    while i < n
        invariant
            i <= n,
            n as nat == plaintext@.len(),
            head == seq!['h'] + hex_seq(salt as int, 16) + seq!['$'],
            s@ == head + chars_hex(plaintext@.take(i as int)),
        decreases n - i,
    {
        let c = plaintext.get_char(i);
        proof {
            vstd::utf8::char_is_scalar(c);
            lemma_pow16_6();
        }
        let part = hex_render(c as u32 as u128, 6);
        s.append(part.as_str());
        proof {
            let pre = plaintext@.take(i as int);
            let nxt = plaintext@.take(i as int + 1);
            assert(nxt.drop_last() =~= pre);
            assert(nxt.last() == c);
            assert(s@ =~= head + chars_hex(nxt));
        }
        i = i + 1;
    }
    proof {
        assert(plaintext@.take(n as int) =~= plaintext@);
        assert(s@ =~= hash_chars(plaintext@, salt));
    }
    s
}

/// Hashes a password under the given salt. Rejects an empty password with
/// `CredentialError`, per policy; any other input hashes deterministically.
pub fn hash_password(plaintext: &str, salt: u64) -> (r: Result<String, AppError>)
    ensures
        match r {
            Ok(h) => plaintext@.len() > 0 && h@ == hash_chars(plaintext@, salt),
            Err(e) => plaintext@.len() == 0 && e == AppError::CredentialError,
        },
{
    if plaintext.unicode_len() == 0 {
        Err(AppError::CredentialError)
    } else {
        Ok(hash_build(plaintext, salt))
    }
}

/// Checks a plaintext password against a stored hash; `false` on any
/// mismatch or malformed hash, never an error.
pub fn verify(plaintext: &str, hash: &str) -> (r: bool)
    ensures
        r == verify_spec(plaintext@, hash@),
{
    let lh = hash.unicode_len();
    if lh < 18 {
        return false;
    }
    let salt128 = match hex_parse(hash, 1, 16) {
        Some(v) => v,
        None => {
            proof {
                assert(!verify_spec(plaintext@, hash@));
            }
            return false;
        },
    };
    proof {
        lemma_hex_val_seq_bound(hash@.subrange(1, 17));
        lemma_pow16_16();
    }
    let salt = salt128 as u64;
    let expected = hash_build(plaintext, salt);
    let r = str_eq(expected.as_str(), hash);
    proof {
        let p = plaintext@;
        let h = hash@;
        if r {
            lemma_verify_own_hash(p, salt);
        }
        if verify_spec(p, h) {
            lemma_hex_render_parse(h.subrange(1, 17));
            lemma_hex_seq_len(salt as int, 16);
            lemma_chars_hex_len(p);
            assert(h =~= hash_chars(p, salt));
        }
    }
    r
}

/// Issues the token for `user_id` at `issued_at_seconds`; total, since the
/// encoding needs no external signing key.
pub fn issue_token(user_id: u128, issued_at_seconds: u64) -> (t: String)
    ensures
        t@ == token_chars(user_id, issued_at_seconds),
{
    proof {
        reveal_strlit("t");
        lemma_pow16_32();
        lemma_pow16_16();
    }
    let mut t = String::from_str("t");
    let id_part = hex_render(user_id, 32);
    t.append(id_part.as_str());
    let ts_part = hex_render(issued_at_seconds as u128, 16);
    t.append(ts_part.as_str());
    proof {
        assert(t@ =~= token_chars(user_id, issued_at_seconds));
    }
    t
}

/// Recovers the user id a token carries; `TokenInvalid` exactly on a
/// malformed token. No expiry is enforced: tokens are valid indefinitely,
/// a documented policy choice.
pub fn verify_token(token: &str) -> (r: Result<u128, AppError>)
    ensures
        match token_decode(token@) {
            Some(id) => r == Ok::<u128, AppError>(id),
            None => r == Err::<u128, AppError>(AppError::TokenInvalid),
        },
{
    let n = token.unicode_len();
    if n != 49 {
        return Err(AppError::TokenInvalid);
    }
    let c0 = token.get_char(0);
    if c0 != 't' {
        return Err(AppError::TokenInvalid);
    }
    let id128 = match hex_parse(token, 1, 32) {
        Some(v) => v,
        None => {
            return Err(AppError::TokenInvalid);
        },
    };
    match hex_parse(token, 33, 16) {
        Some(_) => (),
        None => {
            return Err(AppError::TokenInvalid);
        },
    }
    proof {
        lemma_hex_val_seq_bound(token@.subrange(1, 33));
        lemma_pow16_32();
    }
    Ok(id128)
}

} // verus!
