//! Text in UTF-16.

use vstd::prelude::*;
use vstd::string::*;

use crate::text::{chars_of, push_char};

verus! {

/// The code units of one character.
pub open spec fn char_units(c: char) -> Seq<u16> {
    let scalar = c as u32;
    if scalar < 0x10000 {
        seq![scalar as u16]
    } else {
        seq![
            (0xd800 + (scalar - 0x10000) / 0x400) as u16,
            (0xdc00 + (scalar - 0x10000) % 0x400) as u16,
        ]
    }
}

/// The code units of a text.
pub open spec fn utf16(text: Seq<char>) -> Seq<u16>
    decreases text.len(),
{
    if text.len() == 0 {
        Seq::empty()
    } else {
        utf16(text.drop_last()) + char_units(text.last())
    }
}

/// The first unit of a pair.
pub open spec fn is_high(unit: u16) -> bool {
    0xd800 <= unit < 0xdc00
}

/// The second unit of a pair.
pub open spec fn is_low(unit: u16) -> bool {
    0xdc00 <= unit < 0xe000
}

/// The character that a pair of units stands for.
pub open spec fn paired(high: u16, low: u16) -> char {
    (0x10000 + (high - 0xd800) * 0x400 + (low - 0xdc00)) as char
}

/// The text of some code units, where they are UTF-16.
pub open spec fn from_utf16(units: Seq<u16>) -> Option<Seq<char>>
    decreases units.len(),
{
    if units.len() == 0 {
        Some(Seq::empty())
    } else if !is_high(units[0]) && !is_low(units[0]) {
        match from_utf16(units.skip(1)) {
            Some(rest) => Some(seq![units[0] as char] + rest),
            None => None,
        }
    } else if is_high(units[0]) && units.len() > 1 && is_low(units[1]) {
        match from_utf16(units.skip(2)) {
            Some(rest) => Some(seq![paired(units[0], units[1])] + rest),
            None => None,
        }
    } else {
        None
    }
}

pub proof fn lemma_utf16_concat(a: Seq<char>, b: Seq<char>)
    ensures
        utf16(a + b) == utf16(a) + utf16(b),
    decreases b.len(),
{
    if b.len() == 0 {
        assert(a + b =~= a);
        assert(utf16(a) + utf16(b) =~= utf16(a));
    } else {
        lemma_utf16_concat(a, b.drop_last());
        assert((a + b).drop_last() =~= a + b.drop_last());
        assert(utf16(a + b) =~= utf16(a) + utf16(b));
    }
}

proof fn lemma_units_of_one(c: char)
    ensures
        utf16(seq![c]) == char_units(c),
{
    assert(seq![c].drop_last().len() == 0);
    assert(utf16(seq![c].drop_last()) =~= Seq::empty());
    assert(utf16(seq![c]) =~= char_units(c));
}

proof fn lemma_pairs(scalar: u32)
    requires
        0x10000 <= scalar <= 0x10ffff,
    ensures
        is_high((0xd800 + (scalar - 0x10000) / 0x400) as u16),
        is_low((0xdc00 + (scalar - 0x10000) % 0x400) as u16),
        0x10000 + ((0xd800 + (scalar - 0x10000) / 0x400) as u16 - 0xd800) * 0x400 + ((0xdc00 + (
        scalar - 0x10000) % 0x400) as u16 - 0xdc00) == scalar,
{
    let v: int = scalar - 0x10000;
    assert(0 <= v < 0x100000);
    assert(v == (v / 0x400) * 0x400 + v % 0x400) by (nonlinear_arith);
}

/// Reading text that was written in UTF-16 gives it back.
pub proof fn law_utf16_round_trip(text: Seq<char>)
    ensures
        from_utf16(utf16(text)) == Some(text),
    decreases text.len(),
{
    if text.len() == 0 {
        assert(text =~= Seq::empty());
    } else {
        let c = text[0];
        let rest = text.drop_first();
        law_utf16_round_trip(rest);
        assert(text =~= seq![c] + rest);
        lemma_utf16_concat(seq![c], rest);
        lemma_units_of_one(c);
        vstd::utf8::char_is_scalar(c);
        vstd::utf8::char_u32_cast(c, c as u32);
        let units = utf16(text);
        let scalar = c as u32;
        if scalar < 0x10000 {
            assert(units[0] == scalar);
            assert(units.skip(1) =~= utf16(rest));
        } else {
            lemma_pairs(scalar);
            assert(units[0] == char_units(c)[0]);
            assert(units[1] == char_units(c)[1]);
            assert(units.skip(2) =~= utf16(rest));
        }
    }
}

/// The units of a text hold a zero only where the text does.
pub proof fn lemma_no_zero_units(text: Seq<char>)
    requires
        !text.contains('\0'),
    ensures
        forall|i: int| 0 <= i < utf16(text).len() ==> #[trigger] utf16(text)[i] != 0,
    decreases text.len(),
{
    if text.len() > 0 {
        let rest = text.drop_last();
        assert forall|i: int| 0 <= i < rest.len() implies rest[i] != '\0' by {
            assert(text.contains(text[i]));
        }
        lemma_no_zero_units(rest);
        let c = text.last();
        assert(text.contains(c));
        vstd::utf8::char_is_scalar(c);
        vstd::utf8::char_u32_cast(c, c as u32);
        if c as u32 >= 0x10000 {
            lemma_pairs(c as u32);
        }
        assert forall|i: int| 0 <= i < utf16(text).len() implies #[trigger] utf16(text)[i]
            != 0 by {
            if i < utf16(rest).len() {
                assert(utf16(text)[i] == utf16(rest)[i]);
            } else {
                assert(utf16(text)[i] == char_units(c)[i - utf16(rest).len()]);
            }
        }
    }
}

/// Appends the code units of a text.
pub fn push_utf16(units: &mut Vec<u16>, text: &str)
    ensures
        final(units)@ == old(units)@ + utf16(text@),
{
    let chars: Vec<char> = chars_of(text);
    let mut i: usize = 0;
    assert(utf16(text@.take(0)) =~= Seq::empty());
    assert(old(units)@ + utf16(text@.take(0)) =~= old(units)@);
    while i < chars.len()
        invariant
            i <= chars.len(),
            chars@ == text@,
            units@ == old(units)@ + utf16(text@.take(i as int)),
        decreases chars.len() - i,
    {
        let ghost before = units@;
        let c: char = chars[i];
        let scalar: u32 = c as u32;
        if scalar < 0x10000 {
            units.push(scalar as u16);
        } else {
            units.push((0xd800 + (scalar - 0x10000) / 0x400) as u16);
            units.push((0xdc00 + (scalar - 0x10000) % 0x400) as u16);
        }
        i += 1;
        assert(units@ =~= before + char_units(c));
        assert(text@.take(i as int).drop_last() =~= text@.take(i - 1));
        assert(units@ =~= old(units)@ + utf16(text@.take(i as int)));
    }
    assert(text@.take(i as int) =~= text@);
}

/// The character with this number, by `char::from_u32`: one exists exactly for the numbers up to
/// `0x10ffff` that are no surrogates.
#[verifier::external_body]
pub(crate) fn scalar_char(scalar: u32) -> (c: Option<char>)
    ensures
        match c {
            Some(c) => c as u32 == scalar,
            None => 0xd800 <= scalar <= 0xdfff || scalar > 0x10ffff,
        },
{
    char::from_u32(scalar)
}

/// Reads code units as text.
pub fn text_of_units(units: &[u16]) -> (text: Option<String>)
    ensures
        match text {
            Some(text) => from_utf16(units@) == Some(text@),
            None => from_utf16(units@) is None,
        },
{
    let mut text: String = String::new();
    let mut i: usize = 0;
    assert(units@.skip(0) =~= units@);
    while i < units.len()
        invariant
            i <= units.len(),
            from_utf16(units@) == (match from_utf16(units@.skip(i as int)) {
                Some(rest) => Some(text@ + rest),
                None => None,
            }),
        decreases units.len() - i,
    {
        let ghost before = text@;
        let ghost rest = units@.skip(i as int);
        let first: u16 = units[i];
        assert(rest[0] == first);
        if first < 0xd800 || first >= 0xe000 {
            let c: char = match scalar_char(first as u32) {
                Some(c) => c,
                None => {
                    return None;
                },
            };
            push_char(&mut text, c);
            i += 1;
            proof {
                vstd::utf8::char_u32_cast(c, first as u32);
                assert(rest.skip(1) =~= units@.skip(i as int));
                if let Some(tail) = from_utf16(units@.skip(i as int)) {
                    assert(before + (seq![c] + tail) =~= text@ + tail);
                }
            }
        } else if first < 0xdc00 && units.len() - i > 1 && 0xdc00 <= units[i + 1] && units[i + 1]
            < 0xe000 {
            let second: u16 = units[i + 1];
            assert(rest[1] == second);
            let scalar: u32 = 0x10000 + (first as u32 - 0xd800) * 0x400 + (second as u32 - 0xdc00);
            let c: char = match scalar_char(scalar) {
                Some(c) => c,
                None => {
                    return None;
                },
            };
            push_char(&mut text, c);
            i += 2;
            proof {
                vstd::utf8::char_u32_cast(c, scalar);
                assert(rest.skip(2) =~= units@.skip(i as int));
                if let Some(tail) = from_utf16(units@.skip(i as int)) {
                    assert(before + (seq![c] + tail) =~= text@ + tail);
                }
            }
        } else {
            if i + 1 < units.len() {
                assert(rest[1] == units@[i + 1]);
            }
            return None;
        }
    }
    assert(text@ + Seq::empty() =~= text@);
    Some(text)
}

/// The character that stands for what cannot be read.
pub const REPLACEMENT: char = '\u{fffd}';

/// The text of some code units, with the replacement character for each surrogate that has no
/// partner.
pub open spec fn from_utf16_lossy(units: Seq<u16>) -> Seq<char>
    decreases units.len(),
{
    if units.len() == 0 {
        Seq::empty()
    } else if !is_high(units[0]) && !is_low(units[0]) {
        seq![units[0] as char] + from_utf16_lossy(units.skip(1))
    } else if is_high(units[0]) && units.len() > 1 && is_low(units[1]) {
        seq![paired(units[0], units[1])] + from_utf16_lossy(units.skip(2))
    } else {
        seq![REPLACEMENT] + from_utf16_lossy(units.skip(1))
    }
}

/// What is UTF-16 reads the same whether or not what is not would be replaced.
pub proof fn law_utf16_is_not_replaced(units: Seq<u16>)
    ensures
        from_utf16(units) matches Some(text) ==> from_utf16_lossy(units) == text,
    decreases units.len(),
{
    if units.len() > 0 {
        law_utf16_is_not_replaced(units.skip(1));
        if units.len() > 1 {
            law_utf16_is_not_replaced(units.skip(2));
        }
    }
}

/// Reads code units as text, with the replacement character for what cannot be read.
pub fn lossy_text_of_units(units: &[u16]) -> (text: String)
    ensures
        text@ == from_utf16_lossy(units@),
{
    let mut text: String = String::new();
    let mut i: usize = 0;
    assert(units@.skip(0) =~= units@);
    assert(text@ + from_utf16_lossy(units@) =~= from_utf16_lossy(units@));
    while i < units.len()
        invariant
            i <= units.len(),
            from_utf16_lossy(units@) == text@ + from_utf16_lossy(units@.skip(i as int)),
        decreases units.len() - i,
    {
        let ghost before = text@;
        let ghost rest = units@.skip(i as int);
        let first: u16 = units[i];
        assert(rest[0] == first);
        let mut scalar: u32 = 0xfffd;
        let mut width: usize = 1;
        if first < 0xd800 || first >= 0xe000 {
            scalar = first as u32;
        } else if first < 0xdc00 && units.len() - i > 1 && 0xdc00 <= units[i + 1] && units[i + 1]
            < 0xe000 {
            let second: u16 = units[i + 1];
            assert(rest[1] == second);
            scalar = 0x10000 + (first as u32 - 0xd800) * 0x400 + (second as u32 - 0xdc00);
            width = 2;
        } else if i + 1 < units.len() {
            assert(rest[1] == units@[i + 1]);
        }
        let c: char = match scalar_char(scalar) {
            Some(c) => c,
            None => REPLACEMENT,
        };
        push_char(&mut text, c);
        proof {
            vstd::utf8::char_u32_cast(c, scalar);
            vstd::utf8::char_u32_cast(REPLACEMENT, 0xfffd);
            assert(rest.skip(width as int) =~= units@.skip(i + width));
            assert(from_utf16_lossy(rest) == seq![c] + from_utf16_lossy(rest.skip(width as int)));
            assert(before + (seq![c] + from_utf16_lossy(rest.skip(width as int))) =~= text@
                + from_utf16_lossy(units@.skip(i + width)));
        }
        i += width;
    }
    assert(text@ + Seq::empty() =~= text@);
    text
}

} // verus!
