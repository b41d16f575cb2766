//! The Base58 codec. A byte sequence of any length is read as a big-endian
//! arbitrary-precision unsigned integer and rendered with the 58-symbol
//! alphabet `123456789ABCDEFGHJKLMNPQRSTUVWXYZabcdefghijkmnopqrstuvwxyz`;
//! one `'1'` is prepended for every leading zero byte of the input, which
//! preserves length information that the numeric value alone would drop.

use vstd::prelude::*;
use vstd::arithmetic::div_mod::{
    lemma_fundamental_div_mod, lemma_fundamental_div_mod_converse_div,
    lemma_fundamental_div_mod_converse_mod,
};

verus! {

/// The value of a byte sequence read as a big-endian base-256 integer.
pub open spec fn be_val(s: Seq<u8>) -> nat
    decreases s.len(),
{
    if s.len() == 0 {
        0
    } else {
        be_val(s.drop_last()) * 256 + s.last() as nat
    }
}

/// How many zero bytes the sequence starts with.
pub open spec fn leading_zeros(s: Seq<u8>) -> nat
    decreases s.len(),
{
    if s.len() == 0 || s[0] != 0 {
        0
    } else {
        1 + leading_zeros(s.drop_first())
    }
}

/// The base-58 digits of `n`, least significant first; zero has no digits.
pub open spec fn le_digits(n: nat) -> Seq<u8>
    decreases n,
{
    if n == 0 {
        Seq::empty()
    } else {
        seq![(n % 58) as u8] + le_digits(n / 58)
    }
}

/// The alphabet symbol, as an ASCII byte, for the digit `d`.
pub open spec fn b58_sym(d: u8) -> u8
    recommends
        d < 58,
{
    if d < 9 {
        (49 + d) as u8  // '1' to '9'
    } else if d < 17 {
        (56 + d) as u8  // 'A' to 'H'
    } else if d < 22 {
        (57 + d) as u8  // 'J' to 'N'
    } else if d < 33 {
        (58 + d) as u8  // 'P' to 'Z'
    } else if d < 44 {
        (64 + d) as u8  // 'a' to 'k'
    } else {
        (65 + d) as u8  // 'm' to 'z'
    }
}

/// The encoding as ASCII bytes: one `'1'` per leading zero byte, then the
/// base-58 digits of the value, most significant symbol first.
pub open spec fn encode58_bytes(s: Seq<u8>) -> Seq<u8> {
    Seq::new(leading_zeros(s), |i: int| 49u8)
        + le_digits(be_val(s)).reverse().map_values(|d: u8| b58_sym(d))
}

/// The encoding as text.
pub open spec fn encode58(s: Seq<u8>) -> Seq<char> {
    encode58_bytes(s).map_values(|b: u8| b as char)
}

/// `c` is one of the 58 alphabet symbols.
pub open spec fn is_b58_char(c: char) -> bool {
    (49 <= c as u32 && c as u32 <= 57) || (65 <= c as u32 && c as u32 <= 72)
        || (74 <= c as u32 && c as u32 <= 78) || (80 <= c as u32 && c as u32 <= 90)
        || (97 <= c as u32 && c as u32 <= 107) || (109 <= c as u32 && c as u32 <= 122)
}

proof fn lemma_be_val_push(s: Seq<u8>, b: u8)
    ensures
        be_val(s.push(b)) == be_val(s) * 256 + b,
{
    assert(s.push(b).drop_last() =~= s);
    assert(s.push(b).last() == b);
}

proof fn lemma_be_val_pos(s: Seq<u8>)
    requires
        s.len() > 0,
        s[0] != 0,
    ensures
        be_val(s) > 0,
    decreases s.len(),
{
    if s.len() == 1 {
        assert(s.last() == s[0]);
    } else {
        assert(s.drop_last()[0] == s[0]);
        lemma_be_val_pos(s.drop_last());
    }
}

proof fn lemma_be_val_drop_first_zero(s: Seq<u8>)
    requires
        s.len() > 0,
        s[0] == 0,
    ensures
        be_val(s) == be_val(s.drop_first()),
    decreases s.len(),
{
    if s.len() == 1 {
        assert(s.drop_first() =~= Seq::<u8>::empty());
        assert(s.drop_last() =~= Seq::<u8>::empty());
        assert(s.last() == s[0]);
        assert(be_val(s) == be_val(s.drop_last()) * 256 + s.last() as nat);
    } else {
        let t = s.drop_last();
        assert(t[0] == 0);
        lemma_be_val_drop_first_zero(t);
        assert(t.drop_first() =~= s.drop_first().drop_last());
        assert(s.drop_first().last() == s.last());
        assert(s.drop_first().len() > 0);
        assert(be_val(s.drop_first())
            == be_val(s.drop_first().drop_last()) * 256 + s.drop_first().last() as nat);
        assert(be_val(s.drop_first()) == be_val(t.drop_first()) * 256 + s.last() as nat);
        assert(be_val(s.drop_first()) == be_val(t) * 256 + s.last() as nat);
    }
}

proof fn lemma_be_val_skip_zeros(s: Seq<u8>, z: nat)
    requires
        z <= s.len(),
        forall|i: int| 0 <= i < z ==> s[i] == 0,
    ensures
        be_val(s.skip(z as int)) == be_val(s),
    decreases z,
{
    if z > 0 {
        lemma_be_val_drop_first_zero(s);
        let t = s.drop_first();
        assert(forall|i: int| 0 <= i < z - 1 ==> t[i] == s[i + 1] && t[i] == 0);
        lemma_be_val_skip_zeros(t, (z - 1) as nat);
        assert(t.skip(z - 1) =~= s.skip(z as int));
    } else {
        assert(s.skip(0) =~= s);
    }
}

proof fn lemma_leading_zeros_is(s: Seq<u8>, z: nat)
    requires
        z <= s.len(),
        forall|i: int| 0 <= i < z ==> s[i] == 0,
        z == s.len() || s[z as int] != 0,
    ensures
        leading_zeros(s) == z,
    decreases z,
{
    if z > 0 {
        assert(s[0] == 0);
        let t = s.drop_first();
        assert(forall|i: int| 0 <= i < z - 1 ==> t[i] == s[i + 1] && t[i] == 0);
        assert(z - 1 == t.len() || t[z - 1] == s[z as int]);
        lemma_leading_zeros_is(t, (z - 1) as nat);
    }
}

proof fn lemma_le_digits_bound(n: nat)
    ensures
        forall|i: int| 0 <= i < le_digits(n).len() ==> le_digits(n)[i] < 58,
    decreases n,
{
    if n > 0 {
        lemma_le_digits_bound(n / 58);
        assert(forall|i: int|
            1 <= i < le_digits(n).len() ==> le_digits(n)[i] == le_digits(n / 58)[i - 1]);
    }
}

/// One step of long division by 58 of a big-endian base-256 number: the
/// quotient, without leading zero bytes, and the remainder.
fn divmod58(bytes: &Vec<u8>) -> (r: (Vec<u8>, u8))
    ensures
        be_val(bytes@) == be_val(r.0@) * 58 + r.1,
        r.1 < 58,
        r.0@.len() == 0 || r.0@[0] != 0,
        r.0@.len() <= bytes@.len(),
{
    let mut q: Vec<u8> = Vec::new();
    let mut rem: u32 = 0;
    let n: usize = bytes.len();
    let mut i: usize = 0;
    while i < n
        invariant
            n == bytes@.len(),
            i <= n,
            rem < 58,
            be_val(bytes@.take(i as int)) == be_val(q@) * 58 + rem,
            q@.len() == 0 || q@[0] != 0,
            q@.len() <= i,
        decreases n - i,
    {
        let b: u8 = bytes[i];
        let acc: u32 = rem * 256 + (b as u32);
        let d: u32 = acc / 58;
        let newrem: u32 = acc % 58;
        proof {
            lemma_fundamental_div_mod(acc as int, 58);
            assert(acc < 14848);
            assert(d < 256);
            assert(bytes@.take(i as int).push(b) =~= bytes@.take(i + 1));
            lemma_be_val_push(bytes@.take(i as int), b);
        }
        if q.len() > 0 {
            proof {
                lemma_be_val_push(q@, d as u8);
            }
            q.push(d as u8);
        } else if d > 0 {
            proof {
                lemma_be_val_push(q@, d as u8);
            }
            q.push(d as u8);
        }
        rem = newrem;
        i = i + 1;
    }
    proof {
        assert(bytes@.take(n as int) =~= bytes@);
    }
    (q, rem as u8)
}

/// The encoding of `input` as a vector of ASCII alphabet bytes.
fn encode_symbols(input: &[u8]) -> (r: Vec<u8>)
    ensures
        r@ == encode58_bytes(input@),
{
    let n: usize = input.len();
    let mut z: usize = 0;
    while z < n && input[z] == 0
        invariant
            n == input@.len(),
            z <= n,
            forall|i: int| 0 <= i < z ==> input@[i] == 0,
        decreases n - z,
    {
        z = z + 1;
    }
    proof {
        lemma_leading_zeros_is(input@, z as nat);
        lemma_be_val_skip_zeros(input@, z as nat);
    }
    // the stripped tail, whose first byte (if any) is nonzero
    let mut work: Vec<u8> = Vec::new();
    let mut i: usize = z;
    while i < n
        invariant
            n == input@.len(),
            z <= i <= n,
            work@ == input@.subrange(z as int, i as int),
        decreases n - i,
    {
        let b: u8 = input[i];
        proof {
            assert(input@.subrange(z as int, i as int).push(b)
                =~= input@.subrange(z as int, i + 1));
        }
        work.push(b);
        i = i + 1;
    }
    proof {
        assert(work@ == input@.skip(z as int));
        assert(work@.len() > 0 ==> work@[0] == input@[z as int]);
    }
    let ghost v0: nat = be_val(input@);
    // digits of the value, least significant first
    let mut digs: Vec<u8> = Vec::new();
    while work.len() > 0
        invariant
            le_digits(v0) == digs@ + le_digits(be_val(work@)),
            work@.len() == 0 || work@[0] != 0,
            forall|k: int| 0 <= k < digs@.len() ==> digs@[k] < 58,
        decreases be_val(work@),
    {
        proof {
            lemma_be_val_pos(work@);
        }
        let ghost b_old: nat = be_val(work@);
        let qr = divmod58(&work);
        let rem: u8 = qr.1;
        proof {
            lemma_fundamental_div_mod_converse_div(
                b_old as int, 58, be_val(qr.0@) as int, rem as int);
            lemma_fundamental_div_mod_converse_mod(
                b_old as int, 58, be_val(qr.0@) as int, rem as int);
            assert(le_digits(b_old) == seq![rem] + le_digits(be_val(qr.0@)));
            assert(digs@.push(rem) + le_digits(be_val(qr.0@))
                =~= digs@ + le_digits(b_old));
            assert(be_val(qr.0@) < b_old);
        }
        digs.push(rem);
        work = qr.0;
    }
    proof {
        assert(digs@ + le_digits(be_val(work@)) =~= digs@);
        assert(digs@ == le_digits(v0));
    }
    // assemble: one '1' per leading zero byte, then the digits reversed
    let mut out: Vec<u8> = Vec::new();
    let mut j: usize = 0;
    while j < z
        invariant
            j <= z,
            out@ =~= Seq::new(j as nat, |i: int| 49u8),
        decreases z - j,
    {
        out.push(49u8);
        j = j + 1;
        proof {
            assert(out@ =~= Seq::new(j as nat, |i: int| 49u8));
        }
    }
    let ghost ones: Seq<u8> = Seq::new(z as nat, |i: int| 49u8);
    let ghost rsyms: Seq<u8> = le_digits(v0).reverse().map_values(|d: u8| b58_sym(d));
    let dn: usize = digs.len();
    let mut k: usize = dn;
    while k > 0
        invariant
            k <= dn,
            dn == digs@.len(),
            digs@ == le_digits(v0),
            forall|t: int| 0 <= t < digs@.len() ==> digs@[t] < 58,
            ones == Seq::new(z as nat, |i: int| 49u8),
            rsyms == le_digits(v0).reverse().map_values(|d: u8| b58_sym(d)),
            out@ =~= ones + rsyms.take(dn - k),
        decreases k,
    {
        k = k - 1;
        let d: u8 = digs[k];
        let s: u8 = b58_symbol(d);
        proof {
            assert(rsyms[dn - k - 1] == b58_sym(digs@[k as int]));
        }
        out.push(s);
        proof {
            assert(out@ =~= ones + rsyms.take(dn - k));
        }
    }
    proof {
        assert(rsyms.take(dn as int) =~= rsyms);
        assert(out@ =~= encode58_bytes(input@));
    }
    out
}

/// The alphabet symbol for digit `d`.
fn b58_symbol(d: u8) -> (r: u8)
    requires
        d < 58,
    ensures
        r == b58_sym(d),
{
    if d < 9 {
        49 + d
    } else if d < 17 {
        56 + d
    } else if d < 22 {
        57 + d
    } else if d < 33 {
        58 + d
    } else if d < 44 {
        64 + d
    } else {
        65 + d
    }
}

proof fn lemma_encode_bytes_ascii(s: Seq<u8>)
    ensures
        forall|i: int|
            0 <= i < encode58_bytes(s).len() ==> #[trigger] encode58_bytes(s)[i] < 128,
{
    lemma_le_digits_bound(be_val(s));
    let e = encode58_bytes(s);
    let lz = leading_zeros(s) as int;
    let rsyms = le_digits(be_val(s)).reverse().map_values(|d: u8| b58_sym(d));
    assert forall|i: int| 0 <= i < e.len() implies #[trigger] e[i] < 128 by {
        if i < lz {
            assert(e[i] == 49);
        } else {
            assert(e[i] == rsyms[i - lz]);
            let d = le_digits(be_val(s)).reverse()[i - lz];
            assert(d == le_digits(be_val(s))[le_digits(be_val(s)).len() - 1 - (i - lz)]);
            assert(d < 58);
            assert(e[i] == b58_sym(d));
        }
    }
}

/// Every symbol of an encoding is one of the 58 alphabet characters.
pub proof fn lemma_encode58_alphabet(s: Seq<u8>)
    ensures
        forall|i: int| 0 <= i < encode58(s).len() ==> is_b58_char(#[trigger] encode58(s)[i]),
{
    lemma_le_digits_bound(be_val(s));
    let e = encode58_bytes(s);
    let lz = leading_zeros(s) as int;
    let rsyms = le_digits(be_val(s)).reverse().map_values(|d: u8| b58_sym(d));
    assert forall|i: int| 0 <= i < encode58(s).len() implies
        is_b58_char(#[trigger] encode58(s)[i]) by {
        assert(encode58(s)[i] == e[i] as char);
        if i < lz {
            assert(e[i] == 49);
        } else {
            assert(e[i] == rsyms[i - lz]);
            let d = le_digits(be_val(s)).reverse()[i - lz];
            assert(d == le_digits(be_val(s))[le_digits(be_val(s)).len() - 1 - (i - lz)]);
            assert(d < 58);
            assert(e[i] == b58_sym(d));
        }
    }
}

/// Relies on `alloc::string::String::from_utf8`: bytes below 0x80 are valid
/// UTF-8 and decode one-for-one to the characters with the same code points.
#[verifier::external_body]
fn ascii_to_string(bytes: Vec<u8>) -> (r: String)
    requires
        forall|i: int| 0 <= i < bytes@.len() ==> bytes@[i] < 128,
    ensures
        r@ == bytes@.map_values(|b: u8| b as char),
{
    String::from_utf8(bytes).unwrap_or_default()
}

/// Encode a byte sequence to Base58 text. The empty input yields the empty
/// string; the result is the same for every call on the same input and uses
/// only the 58 alphabet symbols.
pub fn to_base58(input: &[u8]) -> (r: String)
    ensures
        r@ == encode58(input@),
        forall|i: int| 0 <= i < r@.len() ==> is_b58_char(#[trigger] r@[i]),
{
    let syms = encode_symbols(input);
    proof {
        lemma_encode_bytes_ascii(input@);
        lemma_encode58_alphabet(input@);
        assert(syms@.map_values(|b: u8| b as char) =~= encode58(input@));
    }
    ascii_to_string(syms)
}

} // verus!

