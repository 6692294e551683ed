use vstd::prelude::*;

verus! {

/// Whether a code unit opens a surrogate pair.
pub open spec fn is_high_surrogate(u: u16) -> bool {
    0xD800 <= u < 0xDC00
}

/// Whether a code unit closes a surrogate pair.
pub open spec fn is_low_surrogate(u: u16) -> bool {
    0xDC00 <= u < 0xE000
}

/// The character a surrogate pair stands for.
pub open spec fn pair_char(high: u16, low: u16) -> char {
    (0x10000 + (high - 0xD800) * 0x400 + (low - 0xDC00)) as char
}

/// The text that UTF-16 code units decode to: a high surrogate followed by a low one is one
/// character, any other surrogate becomes U+FFFD, and every other unit is its own character.
pub open spec fn utf16_lossy(units: Seq<u16>) -> Seq<char>
    decreases units.len(),
{
    if units.len() == 0 {
        Seq::empty()
    } else if units.len() >= 2 && is_high_surrogate(units[0]) && is_low_surrogate(units[1]) {
        seq![pair_char(units[0], units[1])] + utf16_lossy(units.skip(2))
    } else if is_high_surrogate(units[0]) || is_low_surrogate(units[0]) {
        seq!['\u{FFFD}'] + utf16_lossy(units.skip(1))
    } else {
        seq![units[0] as char] + utf16_lossy(units.skip(1))
    }
}

/// The UTF-16 code units of a character: itself below U+10000, else a surrogate pair.
pub open spec fn char_units(c: char) -> Seq<u16> {
    let v = c as int;
    if v < 0x10000 {
        seq![v as u16]
    } else {
        seq![(0xD800 + (v - 0x10000) / 0x400) as u16, (0xDC00 + (v - 0x10000) % 0x400) as u16]
    }
}

/// The UTF-16 encoding of a text.
pub open spec fn utf16_encode(text: Seq<char>) -> Seq<u16>
    decreases text.len(),
{
    if text.len() == 0 {
        Seq::empty()
    } else {
        char_units(text[0]) + utf16_encode(text.drop_first())
    }
}

/// A character's value is a Unicode scalar value: at most U+10FFFF and no surrogate.
proof fn lemma_char_is_scalar(c: char)
    ensures
        0 <= c as int <= 0x10FFFF,
        (c as int) < 0xD800 || (c as int) >= 0xE000,
{
}

/// Decoding the UTF-16 encoding of a text gives the text back.
pub proof fn law_utf16_round_trip(text: Seq<char>)
    ensures
        utf16_lossy(utf16_encode(text)) == text,
    decreases text.len(),
{
    if text.len() > 0 {
        let c = text[0];
        let v = c as int;
        lemma_char_is_scalar(c);
        let rest = utf16_encode(text.drop_first());
        let units = utf16_encode(text);
        law_utf16_round_trip(text.drop_first());
        assert(units == char_units(c) + rest);
        if v < 0x10000 {
            assert(units[0] == v as u16);
            assert(0 <= v < 0x10000);
            assert((v as u16) as int == v);
            assert(v < 0xD800 || v >= 0xE000);
            assert(units.skip(1) =~= rest);
            assert(!is_high_surrogate(units[0]) && !is_low_surrogate(units[0]));
            assert(units[0] as char == c);
        } else {
            let x = v - 0x10000;
            assert(0 <= x < 0x100000);
            vstd::arithmetic::div_mod::lemma_fundamental_div_mod(x, 0x400);
            assert(0 <= x % 0x400 < 0x400) by (nonlinear_arith)
                requires
                    0 <= x,
            ;
            assert(0 <= x / 0x400 < 0x400) by (nonlinear_arith)
                requires
                    0 <= x < 0x100000,
            ;
            let high = (0xD800 + x / 0x400) as u16;
            let low = (0xDC00 + x % 0x400) as u16;
            assert(units[0] == high);
            assert(units[1] == low);
            assert(units.skip(2) =~= rest);
            assert(pair_char(high, low) == c);
        }
        assert(utf16_lossy(units) =~= text);
    }
}

/// Calls `String::from_utf16_lossy`, which decodes UTF-16 and puts U+FFFD in place of each
/// unpaired surrogate; the contract claims that its text is `utf16_lossy` of the code units.
#[verifier::external_body]
pub(crate) fn decode_utf16_lossy(units: &[u16]) -> (s: String)
    ensures
        s@ == utf16_lossy(units@),
{
    String::from_utf16_lossy(units)
}

} // verus!
