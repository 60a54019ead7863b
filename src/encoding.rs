//! Fixed byte layouts: 16-byte little-endian integers and decimal text.
use vstd::prelude::*;
use vstd::string::is_ascii;
use vstd::utf8::is_ascii_chars;

verus! {

/// `256^k`.
pub open spec fn pow256(k: nat) -> nat
    decreases k,
{
    if k == 0 {
        1
    } else {
        256 * pow256((k - 1) as nat)
    }
}

/// The `k` low-order bytes of `n`, least significant first.
pub open spec fn le_bytes(n: nat, k: nat) -> Seq<u8>
    decreases k,
{
    if k == 0 {
        Seq::empty()
    } else {
        seq![(n % 256) as u8] + le_bytes(n / 256, (k - 1) as nat)
    }
}

/// The number that the bytes `s` spell, least significant first.
pub open spec fn le_value(s: Seq<u8>) -> nat
    decreases s.len(),
{
    if s.len() == 0 {
        0
    } else {
        s[0] as nat + 256 * le_value(s.drop_first())
    }
}

/// The 16-byte little-endian form of a `u128`.
pub open spec fn u128_le(n: u128) -> Seq<u8> {
    le_bytes(n as nat, 16)
}

pub proof fn lemma_pow256_16()
    ensures
        pow256(16) == u128::MAX + 1,
{
    reveal_with_fuel(pow256, 17);
}

pub proof fn lemma_le_bytes_len(n: nat, k: nat)
    ensures
        le_bytes(n, k).len() == k,
    decreases k,
{
    if k > 0 {
        lemma_le_bytes_len(n / 256, (k - 1) as nat);
    }
}

pub proof fn lemma_le_value_bound(s: Seq<u8>)
    ensures
        le_value(s) < pow256(s.len()),
    decreases s.len(),
{
    if s.len() > 0 {
        let t = s.drop_first();
        lemma_le_value_bound(t);
        let v = le_value(t);
        let p = pow256(t.len());
        let b = s[0] as nat;
        assert(b + 256 * v < 256 * p) by (nonlinear_arith)
            requires
                v < p,
                b < 256,
        ;
    }
}

/// Reading back the `k` bytes written for `n` gives `n`, where `n` fits.
pub proof fn lemma_le_round_trip(n: nat, k: nat)
    requires
        n < pow256(k),
    ensures
        le_value(le_bytes(n, k)) == n,
    decreases k,
{
    if k > 0 {
        let m = n / 256;
        let p = pow256((k - 1) as nat);
        assert(m < p) by (nonlinear_arith)
            requires
                n < 256 * p,
                m == n / 256,
        ;
        lemma_le_round_trip(m, (k - 1) as nat);
        let s = le_bytes(n, k);
        assert(s.drop_first() =~= le_bytes(m, (k - 1) as nat));
        assert(n == n % 256 + 256 * m);
    }
}

/// Writing back the number that bytes spell gives the same bytes.
pub proof fn lemma_le_bytes_of_value(s: Seq<u8>)
    ensures
        le_bytes(le_value(s), s.len()) == s,
    decreases s.len(),
{
    if s.len() > 0 {
        let t = s.drop_first();
        let w = le_value(t);
        let v = le_value(s);
        lemma_le_bytes_of_value(t);
        vstd::arithmetic::div_mod::lemma_fundamental_div_mod_converse(
            v as int,
            256,
            w as int,
            s[0] as int,
        );
        assert(le_bytes(v, s.len()) =~= s);
    }
}

/// Reading back the 16 bytes written for a `u128` gives it.
pub proof fn lemma_u128_le_round_trip(n: u128)
    ensures
        u128_le(n).len() == 16,
        le_value(u128_le(n)) == n as nat,
{
    lemma_pow256_16();
    lemma_le_bytes_len(n as nat, 16);
    lemma_le_round_trip(n as nat, 16);
}

/// Appends the 16-byte little-endian form of `n`.
pub fn push_u128_le(out: &mut Vec<u8>, n: u128)
    ensures
        final(out)@ == old(out)@ + u128_le(n),
{
    let ghost start = out@;
    let mut x: u128 = n;
    let mut i: usize = 0;
    while i < 16
        invariant
            i <= 16,
            out@ + le_bytes(x as nat, (16 - i) as nat) == start + u128_le(n),
        decreases 16 - i,
    {
        let ghost rest = le_bytes((x / 256) as nat, (16 - i - 1) as nat);
        assert(le_bytes(x as nat, (16 - i) as nat) == seq![(x % 256) as u8] + rest);
        assert(out@.push((x % 256) as u8) + rest =~= out@ + (seq![(x % 256) as u8] + rest));
        out.push((x % 256) as u8);
        x = x / 256;
        i = i + 1;
    }
    assert(out@ + le_bytes(x as nat, 0) =~= out@);
}

/// The 16-byte little-endian form of `n`.
pub fn u128_to_le_bytes(n: u128) -> (r: Vec<u8>)
    ensures
        r@ == u128_le(n),
{
    let mut out: Vec<u8> = Vec::new();
    push_u128_le(&mut out, n);
    assert(out@ =~= u128_le(n));
    out
}

/// The `u128` spelled by the 16 bytes of `b` from `start`, least significant
/// first.
pub fn u128_from_le_bytes(b: &[u8], start: usize) -> (r: u128)
    requires
        start + 16 <= b@.len(),
    ensures
        r as nat == le_value(b@.subrange(start as int, start + 16)),
{
    let len: usize = b.len();
    let mut acc: u128 = 0;
    let mut i: usize = 16;
    while i > 0
        invariant
            i <= 16,
            start + 16 <= b@.len(),
            b@.len() == len,
            acc as nat == le_value(b@.subrange(start + i, start + 16)),
        decreases i,
    {
        let ghost tail = b@.subrange(start + i, start + 16);
        let ghost s = b@.subrange(start + i - 1, start + 16);
        proof {
            assert(s.drop_first() =~= tail);
            lemma_le_value_bound(tail);
            lemma_pow256_16();
            let p = pow256(tail.len());
            assert(pow256(16) >= 256 * p) by {
                reveal_with_fuel(pow256, 17);
            }
            let v = acc as nat;
            let c = b@[start + i - 1] as nat;
            assert(v * 256 + c < 256 * p) by (nonlinear_arith)
                requires
                    v < p,
                    c < 256,
            ;
        }
        acc = acc * 256 + b[start + i - 1] as u128;
        i = i - 1;
    }
    acc
}

/// The character of the decimal digit `d`.
pub open spec fn digit_char(d: nat) -> char {
    ((d + 48) as u8) as char
}

/// The decimal numeral of `n`, without leading zeros.
pub open spec fn decimal(n: nat) -> Seq<char>
    decreases n,
{
    if n < 10 {
        seq![digit_char(n)]
    } else {
        decimal(n / 10) + seq![digit_char(n % 10)]
    }
}

/// The bytes of an ASCII text, one per character.
pub open spec fn ascii_bytes(s: Seq<char>) -> Seq<u8> {
    Seq::new(s.len(), |i: int| s[i] as u8)
}

pub proof fn lemma_decimal_is_ascii(n: nat)
    ensures
        is_ascii_chars(decimal(n)),
    decreases n,
{
    if n >= 10 {
        lemma_decimal_is_ascii(n / 10);
        let s = decimal(n);
        let a = decimal(n / 10);
        assert forall|i: int| 0 <= i < s.len() implies '\0' <= #[trigger] s[i] <= '\u{7f}' by {
            if i < a.len() {
                assert(s[i] == a[i]);
            }
        }
    }
}

fn digit_str(d: u8) -> (r: &'static str)
    requires
        d < 10,
    ensures
        r@ == seq![digit_char(d as nat)],
{
    if d == 0 {
        proof { reveal_strlit("0"); }
        "0"
    } else if d == 1 {
        proof { reveal_strlit("1"); }
        "1"
    } else if d == 2 {
        proof { reveal_strlit("2"); }
        "2"
    } else if d == 3 {
        proof { reveal_strlit("3"); }
        "3"
    } else if d == 4 {
        proof { reveal_strlit("4"); }
        "4"
    } else if d == 5 {
        proof { reveal_strlit("5"); }
        "5"
    } else if d == 6 {
        proof { reveal_strlit("6"); }
        "6"
    } else if d == 7 {
        proof { reveal_strlit("7"); }
        "7"
    } else if d == 8 {
        proof { reveal_strlit("8"); }
        "8"
    } else {
        proof { reveal_strlit("9"); }
        "9"
    }
}

/// Appends the decimal numeral of `n`.
pub fn append_decimal(s: &mut String, n: u128)
    ensures
        final(s)@ == old(s)@ + decimal(n as nat),
    decreases n,
{
    if n >= 10 {
        append_decimal(s, n / 10);
    }
    s.append(digit_str((n % 10) as u8));
    assert(s@ =~= old(s)@ + decimal(n as nat));
}

/// The bytes of an ASCII string.
pub fn ascii_to_bytes(s: &str) -> (r: Vec<u8>)
    requires
        is_ascii(s),
    ensures
        r@ == ascii_bytes(s@),
{
    let b = s.as_bytes();
    let len: usize = b.len();
    assert(b@ =~= ascii_bytes(s@));
    let mut out: Vec<u8> = Vec::new();
    let mut i: usize = 0;
    while i < len
        invariant
            i <= len,
            len == b@.len(),
            b@ == ascii_bytes(s@),
            out@ == b@.subrange(0, i as int),
        decreases len - i,
    {
        out.push(b[i]);
        i = i + 1;
        assert(out@ =~= b@.subrange(0, i as int));
    }
    assert(out@ =~= b@);
    out
}

/// The bytes of an ASCII string.
pub fn string_to_bytes(s: &String) -> (r: Vec<u8>)
    requires
        is_ascii_chars(s@),
    ensures
        r@ == ascii_bytes(s@),
{
    let t = s.as_str();
    ascii_to_bytes(t)
}

} // verus!
