//! Text utilities: decimal rendering and conversions between `String` and `Vec<char>`.
use vstd::prelude::*;
use vstd::std_specs::iter::IteratorSpec;

verus! {

/// The decimal digit character for `d < 10`.
pub open spec fn digit_char(d: nat) -> char {
    if d == 0 { '0' }
    else if d == 1 { '1' }
    else if d == 2 { '2' }
    else if d == 3 { '3' }
    else if d == 4 { '4' }
    else if d == 5 { '5' }
    else if d == 6 { '6' }
    else if d == 7 { '7' }
    else if d == 8 { '8' }
    else { '9' }
}

/// The decimal text of a natural number, without leading zeros.
pub open spec fn decimal(n: nat) -> Seq<char>
    decreases n,
{
    if n < 10 {
        seq![digit_char(n)]
    } else {
        decimal(n / 10).push(digit_char(n % 10))
    }
}

/// The decimal text of an integer, with a leading `-` when negative.
pub open spec fn int_decimal(i: int) -> Seq<char> {
    if i < 0 {
        seq!['-'] + decimal((-i) as nat)
    } else {
        decimal(i as nat)
    }
}

/// The one-character text of a decimal digit.
fn digit_str(d: u128) -> (r: &'static str)
    requires
        d < 10,
    ensures
        r@ == seq![digit_char(d as nat)],
{
    proof {
        reveal_strlit("0"); reveal_strlit("1"); reveal_strlit("2"); reveal_strlit("3"); reveal_strlit("4");
        reveal_strlit("5"); reveal_strlit("6"); reveal_strlit("7"); reveal_strlit("8"); reveal_strlit("9");
    }
    let r = if d == 0 { "0" } else if d == 1 { "1" } else if d == 2 { "2" } else if d == 3 { "3" }
        else if d == 4 { "4" } else if d == 5 { "5" } else if d == 6 { "6" } else if d == 7 { "7" }
        else if d == 8 { "8" } else { "9" };
    assert(r@ =~= seq![digit_char(d as nat)]);
    r
}

/// The decimal text of `n`.
pub fn u128_text(n: u128) -> (r: String)
    ensures
        r@ == decimal(n as nat),
    decreases n,
{
    if n < 10 {
        digit_str(n).to_owned()
    } else {
        let mut s = u128_text(n / 10);
        s.append(digit_str(n % 10));
        s
    }
}

/// The decimal text of `n`, with a leading `-` when negative.
pub fn i128_text(n: i128) -> (r: String)
    ensures
        r@ == int_decimal(n as int),
{
    if n < 0 {
        let m: u128 = (-(n + 1)) as u128 + 1;
        let mut s = "-".to_owned();
        s.append(u128_text(m).as_str());
        proof { reveal_strlit("-"); }
        assert(s@ =~= int_decimal(n as int));
        s
    } else {
        u128_text(n as u128)
    }
}

/// The characters of a string, in order.
pub fn chars_of(s: &str) -> (r: Vec<char>)
    ensures
        r@ == s@,
{
    broadcast use vstd::string::axiom_spec_iter, vstd::string::next_postcondition;
    let mut it = s.chars();
    let mut r: Vec<char> = Vec::new();
    loop
        invariant
            it.obeys_prophetic_iter_laws(),
            r@ + it.remaining() == s@,
        decreases s@.len() - r@.len(),
    {
        let ghost before = it.remaining();
        match it.next() {
            Some(c) => {
                assert(before.len() > 0);
                r.push(c);
                assert(r@ + it.remaining() =~= s@) by {
                    assert(before =~= seq![c] + before.drop_first());
                }
            },
            None => {
                assert(r@ =~= s@);
                return r;
            },
        }
    }
}

/// Relies on collecting chars into a `String` (`FromIterator<char>`): the same characters.
#[verifier::external_body]
pub(crate) fn string_of(v: &[char]) -> (r: String)
    ensures
        r@ == v@,
{
    v.iter().collect()
}

/// Appends the decimal text of `n` to `out`.
pub fn push_u64(out: &mut String, n: u64)
    ensures
        final(out)@ == old(out)@ + decimal(n as nat),
{
    let t = u128_text(n as u128);
    out.append(t.as_str());
}

} // verus!

verus! {

/// The number of bytes UTF-8 takes to encode `c`.
pub open spec fn utf8_width(c: char) -> nat {
    if (c as u32) < 0x80 { 1 } else if (c as u32) < 0x800 { 2 } else if (c as u32) < 0x10000 { 3 } else { 4 }
}

/// The number of bytes of the UTF-8 encoding of `s`.
pub open spec fn utf8_len(s: Seq<char>) -> nat
    decreases s.len(),
{
    if s.len() == 0 { 0 } else { utf8_len(s.drop_last()) + utf8_width(s.last()) }
}

/// The number of bytes of the UTF-8 encoding of `s`.
pub fn utf8_byte_len(s: &str) -> (r: u128)
    ensures
        r == utf8_len(s@),
        r < u128::MAX,
{
    let cs = chars_of(s);
    let mut total: u128 = 0;
    let mut i: usize = 0;
    while i < cs.len()
        invariant
            i <= cs@.len(),
            cs@ == s@,
            total == utf8_len(cs@.take(i as int)),
            total <= 4 * i,
        decreases cs@.len() - i,
    {
        let c = cs[i];
        let w: u128 = if (c as u32) < 0x80 { 1 } else if (c as u32) < 0x800 { 2 } else if (c as u32) < 0x10000 { 3 } else { 4 };
        assert(cs@.take(i + 1).drop_last() =~= cs@.take(i as int));
        total = total + w;
        i += 1;
    }
    assert(cs@.take(i as int) =~= cs@);
    assert(total < u128::MAX) by (nonlinear_arith)
        requires total <= 4 * i, i <= usize::MAX;
    total
}

} // verus!
