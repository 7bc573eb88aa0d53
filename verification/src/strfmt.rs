//! Verified text formatting: lowercase hex rendering of integers and byte
//! strings, decimal rendering of counters, and a lexicographic order on
//! strings used to sort opcode name lists.

use vstd::prelude::*;
use vstd::string::StringExecFns;

verus! {

/// The lowercase hex digit for a value below 16; digits below 10 double as
/// decimal digits.
pub open spec fn spec_hex_digit(n: u8) -> char
    recommends
        n < 16,
{
    if n == 0 {
        '0'
    } else if n == 1 {
        '1'
    } else if n == 2 {
        '2'
    } else if n == 3 {
        '3'
    } else if n == 4 {
        '4'
    } else if n == 5 {
        '5'
    } else if n == 6 {
        '6'
    } else if n == 7 {
        '7'
    } else if n == 8 {
        '8'
    } else if n == 9 {
        '9'
    } else if n == 10 {
        'a'
    } else if n == 11 {
        'b'
    } else if n == 12 {
        'c'
    } else if n == 13 {
        'd'
    } else if n == 14 {
        'e'
    } else {
        'f'
    }
}

/// One-character string slice for a digit value below 16.
fn hex_digit_str(n: u8) -> (r: &'static str)
    requires
        n < 16,
    ensures
        r@ == seq![spec_hex_digit(n)],
{
    proof {
        reveal_strlit("0");
        reveal_strlit("1");
        reveal_strlit("2");
        reveal_strlit("3");
        reveal_strlit("4");
        reveal_strlit("5");
        reveal_strlit("6");
        reveal_strlit("7");
        reveal_strlit("8");
        reveal_strlit("9");
        reveal_strlit("a");
        reveal_strlit("b");
        reveal_strlit("c");
        reveal_strlit("d");
        reveal_strlit("e");
        reveal_strlit("f");
    }
    match n {
        0 => "0",
        1 => "1",
        2 => "2",
        3 => "3",
        4 => "4",
        5 => "5",
        6 => "6",
        7 => "7",
        8 => "8",
        9 => "9",
        10 => "a",
        11 => "b",
        12 => "c",
        13 => "d",
        14 => "e",
        _ => "f",
    }
}

/// Nibble `i` of a 32-bit value, counted from the most significant end.
pub open spec fn spec_nibble8(v: u32, i: int) -> u8
    recommends
        0 <= i < 8,
{
    ((v >> ((28 - 4 * i) as u32)) & 0xf) as u8
}

/// The eight lowercase hex digits of a 32-bit value, most significant first,
/// with leading zeros kept.
pub open spec fn spec_hex8(v: u32) -> Seq<char> {
    Seq::new(8, |i: int| spec_hex_digit(spec_nibble8(v, i)))
}

/// Render a 32-bit value as exactly eight lowercase hex digits.
pub fn hex8(v: u32) -> (r: String)
    ensures
        r@ == spec_hex8(v),
{
    let mut s = String::new();
    for i in 0..8usize
        invariant
            s@ =~= spec_hex8(v).take(i as int),
    {
        let sh: u32 = 28 - 4 * (i as u32);
        let masked: u32 = (v >> sh) & 0xf;
        assert((v >> sh) & 0xf < 16) by (bit_vector);
        let nib: u8 = masked as u8;
        proof {
            assert(sh == (28 - 4 * (i as int)) as u32);
            assert(nib == spec_nibble8(v, i as int));
            assert(spec_hex8(v)[i as int] == spec_hex_digit(nib));
            assert(spec_hex8(v).take(i as int + 1) =~= spec_hex8(v).take(i as int) + seq![
                spec_hex_digit(nib),
            ]);
        }
        s.append(hex_digit_str(nib));
    }
    proof {
        assert(spec_hex8(v).take(8) =~= spec_hex8(v));
    }
    s
}

/// The decimal rendering of a natural number, without leading zeros.
pub open spec fn spec_decimal(n: nat) -> Seq<char>
    decreases n,
{
    if n < 10 {
        seq![spec_hex_digit(n as u8)]
    } else {
        spec_decimal(n / 10) + seq![spec_hex_digit((n % 10) as u8)]
    }
}

/// Render a counter in decimal.
pub fn decimal_string(n: usize) -> (r: String)
    ensures
        r@ == spec_decimal(n as nat),
    decreases n,
{
    if n < 10 {
        String::from_str(hex_digit_str(n as u8))
    } else {
        assert(n / 10 < n) by (nonlinear_arith)
            requires
                n >= 10,
        ;
        let mut s = decimal_string(n / 10);
        s.append(hex_digit_str((n % 10) as u8));
        assert(s@ =~= spec_decimal(n as nat));
        s
    }
}

/// Lexicographic order on character sequences: the empty sequence comes
/// first, otherwise the first differing character decides.
pub open spec fn lex_le(a: Seq<char>, b: Seq<char>) -> bool
    decreases a.len(),
{
    if a.len() == 0 {
        true
    } else if b.len() == 0 {
        false
    } else if a[0] != b[0] {
        a[0] < b[0]
    } else {
        lex_le(a.drop_first(), b.drop_first())
    }
}

/// `lex_le` is total: any two sequences compare one way or the other.
pub proof fn lemma_lex_le_total(a: Seq<char>, b: Seq<char>)
    ensures
        lex_le(a, b) || lex_le(b, a),
    decreases a.len(),
{
    if a.len() == 0 || b.len() == 0 {
    } else if a[0] != b[0] {
    } else {
        lemma_lex_le_total(a.drop_first(), b.drop_first());
    }
}

/// `lex_le` is transitive.
pub proof fn lemma_lex_le_trans(a: Seq<char>, b: Seq<char>, c: Seq<char>)
    requires
        lex_le(a, b),
        lex_le(b, c),
    ensures
        lex_le(a, c),
    decreases a.len(),
{
    if a.len() == 0 || b.len() == 0 || c.len() == 0 {
    } else if a[0] == b[0] && b[0] == c[0] {
        lemma_lex_le_trans(a.drop_first(), b.drop_first(), c.drop_first());
    }
}

/// Compare two strings in the order of [`lex_le`].
pub fn str_lex_le(a: &str, b: &str) -> (r: bool)
    ensures
        r == lex_le(a@, b@),
{
    let alen = a.unicode_len();
    let blen = b.unicode_len();
    let mut i: usize = 0;
    proof {
        assert(a@.skip(0) =~= a@);
        assert(b@.skip(0) =~= b@);
    }
    loop
        invariant
            i <= alen,
            i <= blen,
            alen == a@.len(),
            blen == b@.len(),
            lex_le(a@, b@) == lex_le(a@.skip(i as int), b@.skip(i as int)),
        decreases alen - i,
    {
        if i >= alen {
            assert(a@.skip(i as int).len() == 0);
            return true;
        }
        if i >= blen {
            assert(b@.skip(i as int).len() == 0);
            assert(a@.skip(i as int).len() > 0);
            return false;
        }
        let ca = a.get_char(i);
        let cb = b.get_char(i);
        proof {
            assert(a@.skip(i as int)[0] == a@[i as int]);
            assert(b@.skip(i as int)[0] == b@[i as int]);
        }
        if ca != cb {
            return ca < cb;
        }
        proof {
            assert(a@.skip(i as int).drop_first() =~= a@.skip(i as int + 1));
            assert(b@.skip(i as int).drop_first() =~= b@.skip(i as int + 1));
        }
        i = i + 1;
    }
}

} // verus!
