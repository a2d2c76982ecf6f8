//! Fixed-width, big-endian hexadecimal rendering and parsing of machine
//! integers, with a proved round trip. Session tokens and stored password
//! hashes are built from this encoding.

use vstd::prelude::*;

verus! {

/// The hex digit character for a nibble value; a value outside 0..16 maps
/// to a character that is not a hex digit.
pub open spec fn hex_digit(n: int) -> char {
    if n == 0 {
        '0'
    } else if n == 1 {
        '1'
    } else if n == 2 {
        '2'
    } else if n == 3 {
        '3'
    } else if n == 4 {
        '4'
    } else if n == 5 {
        '5'
    } else if n == 6 {
        '6'
    } else if n == 7 {
        '7'
    } else if n == 8 {
        '8'
    } else if n == 9 {
        '9'
    } else if n == 10 {
        'a'
    } else if n == 11 {
        'b'
    } else if n == 12 {
        'c'
    } else if n == 13 {
        'd'
    } else if n == 14 {
        'e'
    } else if n == 15 {
        'f'
    } else {
        '?'
    }
}

/// The nibble value of a hex digit character; 16 marks a non-digit.
pub open spec fn hex_val(c: char) -> int {
    if c == '0' {
        0
    } else if c == '1' {
        1
    } else if c == '2' {
        2
    } else if c == '3' {
        3
    } else if c == '4' {
        4
    } else if c == '5' {
        5
    } else if c == '6' {
        6
    } else if c == '7' {
        7
    } else if c == '8' {
        8
    } else if c == '9' {
        9
    } else if c == 'a' {
        10
    } else if c == 'b' {
        11
    } else if c == 'c' {
        12
    } else if c == 'd' {
        13
    } else if c == 'e' {
        14
    } else if c == 'f' {
        15
    } else {
        16
    }
}

/// Sixteen to the power `w`.
pub open spec fn pow16(w: nat) -> int
    decreases w,
{
    if w == 0 {
        1
    } else {
        16 * pow16((w - 1) as nat)
    }
}

/// Big-endian rendering of `x` as exactly `w` hex digit characters
/// (the value is taken modulo `pow16(w)`).
pub open spec fn hex_seq(x: int, w: nat) -> Seq<char>
    decreases w,
{
    if w == 0 {
        Seq::empty()
    } else {
        hex_seq(x / 16, (w - 1) as nat).push(hex_digit(x % 16))
    }
}

/// Every character of `s` is a hex digit.
pub open spec fn is_hex(s: Seq<char>) -> bool {
    forall|i: int| 0 <= i < s.len() ==> hex_val(#[trigger] s[i]) < 16
}

/// The value a big-endian sequence of hex digits denotes.
pub open spec fn hex_val_seq(s: Seq<char>) -> int
    decreases s.len(),
{
    if s.len() == 0 {
        0
    } else {
        hex_val_seq(s.drop_last()) * 16 + hex_val(s.last())
    }
}

pub proof fn lemma_pow16_pos(w: nat)
    ensures
        pow16(w) >= 1,
    decreases w,
{
    if w > 0 {
        lemma_pow16_pos((w - 1) as nat);
    }
}

pub proof fn lemma_pow16_mono(a: nat, b: nat)
    requires
        a <= b,
    ensures
        pow16(a) <= pow16(b),
    decreases b,
{
    if a < b {
        lemma_pow16_mono(a, (b - 1) as nat);
        lemma_pow16_pos((b - 1) as nat);
    }
}

/// `pow16(32)` is exactly 2^128, the number of `u128` values.
pub proof fn lemma_pow16_32()
    ensures
        pow16(32) == 0x100000000000000000000000000000000,
{
    reveal_with_fuel(pow16, 33);
}

/// Dividing a value below `16 * p` by sixteen leaves it below `p`.
pub proof fn lemma_div16_bound(x: int, p: int)
    requires
        0 <= x,
        1 <= p,
        x < 16 * p,
    ensures
        0 <= x / 16 < p,
{
    assert(0 <= x / 16 < p) by (nonlinear_arith)
        requires
            0 <= x,
            1 <= p,
            x < 16 * p,
    ;
}

pub proof fn lemma_hex_seq_len(x: int, w: nat)
    ensures
        hex_seq(x, w).len() == w,
    decreases w,
{
    if w > 0 {
        lemma_hex_seq_len(x / 16, (w - 1) as nat);
    }
}

/// Rendering a value in range and reading the digits back yields the value.
pub proof fn lemma_hex_roundtrip(x: int, w: nat)
    requires
        0 <= x < pow16(w),
    ensures
        is_hex(hex_seq(x, w)),
        hex_val_seq(hex_seq(x, w)) == x,
    decreases w,
{
    if w == 0 {
        assert(hex_seq(x, w) =~= Seq::<char>::empty());
    } else {
        let q = x / 16;
        let r = x % 16;
        assert(x == 16 * q + r && 0 <= r < 16) by (nonlinear_arith)
            requires
                0 <= x,
                q == x / 16,
                r == x % 16,
        ;
        lemma_pow16_pos((w - 1) as nat);
        lemma_div16_bound(x, pow16((w - 1) as nat));
        lemma_hex_roundtrip(q, (w - 1) as nat);
        let tail = hex_seq(q, (w - 1) as nat);
        let whole = tail.push(hex_digit(r));
        assert(whole.drop_last() =~= tail);
        assert(whole.last() == hex_digit(r));
        assert(hex_val(hex_digit(r)) == r);
        assert(hex_val_seq(whole) == hex_val_seq(tail) * 16 + r);
        lemma_hex_seq_len(q, (w - 1) as nat);
        assert forall|i: int| 0 <= i < whole.len() implies hex_val(#[trigger] whole[i]) < 16 by {
            if i < whole.len() - 1 {
                assert(whole[i] == tail[i]);
            }
        }
    }
}

/// A sequence of `w` hex digits denotes a value below `pow16(w)`.
pub proof fn lemma_hex_val_seq_bound(s: Seq<char>)
    requires
        is_hex(s),
    ensures
        0 <= hex_val_seq(s) < pow16(s.len()),
    decreases s.len(),
{
    if s.len() > 0 {
        assert(is_hex(s.drop_last())) by {
            assert(forall|i: int|
                0 <= i < s.drop_last().len() ==> s.drop_last()[i] == #[trigger] s[i]);
        }
        lemma_hex_val_seq_bound(s.drop_last());
        assert(hex_val(s.last()) < 16);
        lemma_pow16_pos((s.len() - 1) as nat);
    }
}

/// Two equal fixed-width renderings come from the same value.
pub proof fn lemma_hex_seq_injective(x: int, y: int, w: nat)
    requires
        0 <= x < pow16(w),
        0 <= y < pow16(w),
        hex_seq(x, w) == hex_seq(y, w),
    ensures
        x == y,
{
    lemma_hex_roundtrip(x, w);
    lemma_hex_roundtrip(y, w);
}

/// The single-character string for one nibble.
fn hex_digit_str(n: u8) -> (r: &'static str)
    requires
        n < 16,
    ensures
        r@ =~= seq![hex_digit(n as int)],
{
    match n {
        0 => {
            proof { reveal_strlit("0"); }
            "0"
        },
        1 => {
            proof { reveal_strlit("1"); }
            "1"
        },
        2 => {
            proof { reveal_strlit("2"); }
            "2"
        },
        3 => {
            proof { reveal_strlit("3"); }
            "3"
        },
        4 => {
            proof { reveal_strlit("4"); }
            "4"
        },
        5 => {
            proof { reveal_strlit("5"); }
            "5"
        },
        6 => {
            proof { reveal_strlit("6"); }
            "6"
        },
        7 => {
            proof { reveal_strlit("7"); }
            "7"
        },
        8 => {
            proof { reveal_strlit("8"); }
            "8"
        },
        9 => {
            proof { reveal_strlit("9"); }
            "9"
        },
        10 => {
            proof { reveal_strlit("a"); }
            "a"
        },
        11 => {
            proof { reveal_strlit("b"); }
            "b"
        },
        12 => {
            proof { reveal_strlit("c"); }
            "c"
        },
        13 => {
            proof { reveal_strlit("d"); }
            "d"
        },
        14 => {
            proof { reveal_strlit("e"); }
            "e"
        },
        _ => {
            proof { reveal_strlit("f"); }
            "f"
        },
    }
}

/// The nibble value of a character; 16 for a non-digit.
fn hex_char_val(c: char) -> (r: u8)
    ensures
        r as int == hex_val(c),
{
    match c {
        '0' => 0,
        '1' => 1,
        '2' => 2,
        '3' => 3,
        '4' => 4,
        '5' => 5,
        '6' => 6,
        '7' => 7,
        '8' => 8,
        '9' => 9,
        'a' => 10,
        'b' => 11,
        'c' => 12,
        'd' => 13,
        'e' => 14,
        'f' => 15,
        _ => 16,
    }
}

/// Renders `x` as exactly `w` big-endian hex digits.
pub fn hex_render(x: u128, w: usize) -> (s: String)
    requires
        (x as int) < pow16(w as nat),
    ensures
        s@ == hex_seq(x as int, w as nat),
    decreases w,
{
    if w == 0 {
        let s = String::new();
        proof {
            assert(s@ =~= hex_seq(x as int, 0));
        }
        s
    } else {
        let q = x / 16;
        let r = (x % 16) as u8;
        proof {
            lemma_pow16_pos((w - 1) as nat);
            lemma_div16_bound(x as int, pow16((w - 1) as nat));
        }
        let mut s = hex_render(q, w - 1);
        let d = hex_digit_str(r);
        s.append(d);
        proof {
            assert(s@ =~= hex_seq(x as int, w as nat));
        }
        s
    }
}

/// Reads `w` characters of `s` starting at `from` as big-endian hex digits;
/// `None` exactly when one of them is not a hex digit.
pub fn hex_parse(s: &str, from: usize, w: usize) -> (r: Option<u128>)
    requires
        from + w <= s@.len(),
        from + w <= usize::MAX,
        w <= 32,
    ensures
        match r {
            Some(v) => is_hex(s@.subrange(from as int, (from + w) as int)) && v as int
                == hex_val_seq(s@.subrange(from as int, (from + w) as int)),
            None => !is_hex(s@.subrange(from as int, (from + w) as int)),
        },
{
    let ghost sub = s@.subrange(from as int, (from + w) as int);
    let mut acc: u128 = 0;
    let mut i: usize = 0;
    proof {
        assert(sub.take(0) =~= Seq::<char>::empty());
    }
    while i < w
        invariant
            i <= w,
            w <= 32,
            from + w <= s@.len(),
            from + w <= usize::MAX,
            sub == s@.subrange(from as int, (from + w) as int),
            is_hex(sub.take(i as int)),
            acc as int == hex_val_seq(sub.take(i as int)),
        decreases w - i,
    {
        let c = s.get_char(from + i);
        let d = hex_char_val(c);
        if d >= 16 {
            proof {
                assert(sub[i as int] == c);
            }
            return None;
        }
        proof {
            let pre = sub.take(i as int);
            let nxt = sub.take(i as int + 1);
            assert(nxt.drop_last() =~= pre);
            assert(nxt.last() == c);
            lemma_hex_val_seq_bound(pre);
            lemma_pow16_mono(i as nat, 31);
            lemma_pow16_32();
            assert(forall|j: int| 0 <= j < nxt.len() ==> hex_val(#[trigger] nxt[j]) < 16);
        }
        acc = acc * 16 + (d as u128);
        i = i + 1;
    }
    proof {
        assert(sub.take(w as int) =~= sub);
    }
    Some(acc)
}

/// Compares two string slices character by character.
pub fn str_eq(a: &str, b: &str) -> (r: bool)
    ensures
        r == (a@ == b@),
{
    let la = a.unicode_len();
    let lb = b.unicode_len();
    if la != lb {
        proof {
            assert(a@ != b@);
        }
        return false;
    }
    let mut i: usize = 0;
    while i < la
        invariant
            i <= la,
            la as nat == a@.len(),
            la as nat == b@.len(),
            forall|j: int| 0 <= j < i ==> a@[j] == b@[j],
        decreases la - i,
    {
        if a.get_char(i) != b.get_char(i) {
            proof {
                assert(a@[i as int] != b@[i as int]);
            }
            return false;
        }
        i = i + 1;
    }
    proof {
        assert(a@ =~= b@);
    }
    true
}

} // verus!
