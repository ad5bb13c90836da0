//! Fixed-width lowercase hexadecimal text.

use vstd::prelude::*;
use vstd::string::*;

verus! {

/// The lowercase hexadecimal digit that stands for `d`, for `0 <= d < 16`.
pub open spec fn hex_char(d: int) -> char {
    if d == 0 { '0' } else if d == 1 { '1' } else if d == 2 { '2' } else if d == 3 { '3' }
    else if d == 4 { '4' } else if d == 5 { '5' } else if d == 6 { '6' } else if d == 7 { '7' }
    else if d == 8 { '8' } else if d == 9 { '9' } else if d == 10 { 'a' } else if d == 11 { 'b' }
    else if d == 12 { 'c' } else if d == 13 { 'd' } else if d == 14 { 'e' } else { 'f' }
}

/// The value of a lowercase hexadecimal digit; `None` for any other character.
pub open spec fn hex_value(c: char) -> Option<int> {
    if c == '0' { Some(0int) } else if c == '1' { Some(1int) } else if c == '2' { Some(2int) }
    else if c == '3' { Some(3int) } else if c == '4' { Some(4int) } else if c == '5' { Some(5int) }
    else if c == '6' { Some(6int) } else if c == '7' { Some(7int) } else if c == '8' { Some(8int) }
    else if c == '9' { Some(9int) } else if c == 'a' { Some(10int) } else if c == 'b' { Some(11int) }
    else if c == 'c' { Some(12int) } else if c == 'd' { Some(13int) } else if c == 'e' { Some(14int) }
    else if c == 'f' { Some(15int) } else { None }
}

/// `v` written with exactly `width` hexadecimal digits, most significant first.
/// Digits above the width are cut off.
pub open spec fn hex_text(v: nat, width: nat) -> Seq<char>
    decreases width,
{
    if width == 0 {
        Seq::empty()
    } else {
        hex_text(v / 16, (width - 1) as nat).push(hex_char((v % 16) as int))
    }
}

/// The number that a text of hexadecimal digits stands for; `None` where some
/// character is no lowercase hexadecimal digit.
pub open spec fn hex_number(s: Seq<char>) -> Option<nat>
    decreases s.len(),
{
    if s.len() == 0 {
        Some(0nat)
    } else {
        match (hex_number(s.drop_last()), hex_value(s.last())) {
            (Some(h), Some(d)) => Some((h * 16 + d) as nat),
            _ => None,
        }
    }
}

/// Sixteen to the power `w`.
pub open spec fn pow16(w: nat) -> nat
    decreases w,
{
    if w == 0 { 1 } else { 16 * pow16((w - 1) as nat) }
}

/// Sixteen to the powers 2, 16 and 32: one more than the largest `u8`, `u64`
/// and `u128`.
pub proof fn lemma_pow16_values()
    ensures
        pow16(2) == 0x100,
        pow16(16) == 0x1_0000_0000_0000_0000,
        pow16(32) == 0x1_0000_0000_0000_0000_0000_0000_0000_0000,
{
    reveal_with_fuel(pow16, 9);
    assert(pow16(8) == 0x1_0000_0000);
    assert(pow16(16) == 0x1_0000_0000 * pow16(8));
    assert(pow16(24) == 0x1_0000_0000 * pow16(16));
    assert(pow16(32) == 0x1_0000_0000 * pow16(24));
}

/// A number written in `width` digits has `width` characters.
pub proof fn lemma_hex_text_len(v: nat, width: nat)
    ensures
        hex_text(v, width).len() == width,
    decreases width,
{
    if width > 0 {
        lemma_hex_text_len(v / 16, (width - 1) as nat);
    }
}

/// Reading back what was written gives the number, where it fits the width.
pub proof fn lemma_hex_round_trip(v: nat, width: nat)
    requires
        v < pow16(width),
    ensures
        hex_number(hex_text(v, width)) == Some(v),
    decreases width,
{
    if width > 0 {
        let t = hex_text(v, width);
        lemma_hex_round_trip(v / 16, (width - 1) as nat);
        assert(t.drop_last() =~= hex_text(v / 16, (width - 1) as nat));
        assert(t.last() == hex_char((v % 16) as int));
    }
}

/// A text of `n` digits stands for a number below sixteen to the `n`, and a
/// text stands for a number exactly where each of its characters is a digit.
pub proof fn lemma_hex_number_bound(s: Seq<char>)
    ensures
        hex_number(s) is Some ==> hex_number(s).unwrap() < pow16(s.len()),
        hex_number(s) is Some <==> (forall|i: int| 0 <= i < s.len() ==> hex_value(#[trigger] s[i]) is Some),
    decreases s.len(),
{
    if s.len() > 0 {
        lemma_hex_number_bound(s.drop_last());
        if hex_number(s) is Some {
            assert forall|i: int| 0 <= i < s.len() implies hex_value(#[trigger] s[i]) is Some by {
                if i < s.len() - 1 {
                    assert(s.drop_last()[i] == s[i]);
                }
            }
        }
        if forall|i: int| 0 <= i < s.len() ==> hex_value(#[trigger] s[i]) is Some {
            assert forall|i: int| 0 <= i < s.drop_last().len() implies hex_value(#[trigger] s.drop_last()[i]) is Some by {
                assert(s.drop_last()[i] == s[i]);
            }
            assert(hex_value(s[s.len() - 1]) is Some);
        }
    }
}

/// The one-character text of a hexadecimal digit.
fn digit_text(d: u8) -> (t: &'static str)
    requires
        d < 16,
    ensures
        t@ == seq![hex_char(d as int)],
{
    proof {
        reveal_strlit("0"); reveal_strlit("1"); reveal_strlit("2"); reveal_strlit("3");
        reveal_strlit("4"); reveal_strlit("5"); reveal_strlit("6"); reveal_strlit("7");
        reveal_strlit("8"); reveal_strlit("9"); reveal_strlit("a"); reveal_strlit("b");
        reveal_strlit("c"); reveal_strlit("d"); reveal_strlit("e"); reveal_strlit("f");
    }
    let t = if d == 0 { "0" } else if d == 1 { "1" } else if d == 2 { "2" } else if d == 3 { "3" }
        else if d == 4 { "4" } else if d == 5 { "5" } else if d == 6 { "6" } else if d == 7 { "7" }
        else if d == 8 { "8" } else if d == 9 { "9" } else if d == 10 { "a" } else if d == 11 { "b" }
        else if d == 12 { "c" } else if d == 13 { "d" } else if d == 14 { "e" } else { "f" };
    assert(t@ =~= seq![hex_char(d as int)]);
    t
}

/// The value of a hexadecimal digit, as `hex_value` gives it.
pub fn digit_value(c: char) -> (d: Option<u8>)
    ensures
        match d {
            Some(x) => hex_value(c) == Some(x as int) && x < 16,
            None => hex_value(c) is None,
        },
{
    if c == '0' { Some(0u8) } else if c == '1' { Some(1u8) } else if c == '2' { Some(2u8) }
    else if c == '3' { Some(3u8) } else if c == '4' { Some(4u8) } else if c == '5' { Some(5u8) }
    else if c == '6' { Some(6u8) } else if c == '7' { Some(7u8) } else if c == '8' { Some(8u8) }
    else if c == '9' { Some(9u8) } else if c == 'a' { Some(10u8) } else if c == 'b' { Some(11u8) }
    else if c == 'c' { Some(12u8) } else if c == 'd' { Some(13u8) } else if c == 'e' { Some(14u8) }
    else if c == 'f' { Some(15u8) } else { None }
}

/// Appends `v` to `out` as exactly `width` hexadecimal digits.
pub fn push_hex(out: &mut String, v: u128, width: u8)
    ensures
        final(out)@ == old(out)@ + hex_text(v as nat, width as nat),
    decreases width,
{
    if width > 0 {
        push_hex(out, v / 16, width - 1);
        let d: u8 = (v % 16) as u8;
        out.append(digit_text(d));
        assert(final(out)@ =~= old(out)@ + hex_text(v as nat, width as nat));
    } else {
        assert(final(out)@ =~= old(out)@ + hex_text(v as nat, width as nat));
    }
}

/// Reads the `len` characters of `s` from `start` on as a hexadecimal number.
pub fn read_hex(s: &str, start: usize, len: usize) -> (r: Option<u128>)
    requires
        start + len <= s@.len(),
        start + len <= usize::MAX,
        len <= 32,
    ensures
        match r {
            Some(v) => hex_number(s@.subrange(start as int, start + len)) == Some(v as nat),
            None => hex_number(s@.subrange(start as int, start + len)) is None,
        },
{
    let ghost whole = s@.subrange(start as int, start + len);
    let mut acc: u128 = 0;
    let mut i: usize = 0;
    proof {
        lemma_pow16_values();
    }
    while i < len
        invariant
            i <= len <= 32,
            start + len <= s@.len(),
            start + len <= usize::MAX,
            whole == s@.subrange(start as int, start + len),
            hex_number(s@.subrange(start as int, start + i)) == Some(acc as nat),
        decreases len - i,
    {
        let c = s.get_char(start + i);
        let ghost before = s@.subrange(start as int, start + i);
        let ghost after = s@.subrange(start as int, start + i + 1);
        proof {
            assert(after.drop_last() =~= before);
            assert(after.last() == c);
            assert(whole[i as int] == c);
            lemma_hex_number_bound(before);
            lemma_hex_number_bound(whole);
            lemma_pow16_mono(i as nat, 31);
            lemma_pow16_values();
            assert(before.len() == i);
            assert(pow16(32) == 16 * pow16(31)) by {
                reveal_with_fuel(pow16, 2);
            }
        }
        match digit_value(c) {
            Some(d) => {
                acc = acc * 16 + (d as u128);
            },
            None => {
                return None;
            },
        }
        i = i + 1;
    }
    assert(s@.subrange(start as int, start + i) =~= whole);
    Some(acc)
}

/// The powers of sixteen rise with the exponent.
pub proof fn lemma_pow16_mono(a: nat, b: nat)
    requires
        a <= b,
    ensures
        pow16(a) <= pow16(b),
    decreases b,
{
    if a < b {
        lemma_pow16_mono(a, (b - 1) as nat);
    }
}

/// Every character of a written number is a hexadecimal digit.
pub proof fn lemma_hex_text_digits(v: nat, width: nat)
    ensures
        forall|i: int| 0 <= i < width ==> hex_value(#[trigger] hex_text(v, width)[i]) is Some,
    decreases width,
{
    if width > 0 {
        lemma_hex_text_digits(v / 16, (width - 1) as nat);
        lemma_hex_text_len(v / 16, (width - 1) as nat);
        assert forall|i: int| 0 <= i < width implies hex_value(#[trigger] hex_text(v, width)[i]) is Some by {
            if i < width - 1 {
                assert(hex_text(v, width)[i] == hex_text(v / 16, (width - 1) as nat)[i]);
            }
        }
    }
}

} // verus!
