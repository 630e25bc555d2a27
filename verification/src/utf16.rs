//! UTF-16 as the guest keeps its strings: the encoding of host text, and the
//! decoding of guest text in which every unpaired surrogate becomes U+FFFD.
use vstd::prelude::*;

verus! {

/// What replaces a code unit that cannot be decoded.
pub const REPLACEMENT: char = '\u{FFFD}';

/// `char::from_u32`: the character with that code, where the code is a Unicode
/// scalar value.
pub assume_specification[ char::from_u32 ](code: u32) -> (c: Option<char>)
    ensures
        c == if code <= 0xD7FF || 0xE000 <= code <= 0x10_FFFF {
            Some(code as char)
        } else {
            None
        },
;

/// `String::push`: the character is added at the end.
pub assume_specification[ String::push ](text: &mut String, c: char)
    ensures
        final(text)@ == old(text)@.push(c),
;

/// A code unit that opens a surrogate pair.
pub open spec fn is_high_surrogate(unit: u16) -> bool {
    0xD800 <= unit <= 0xDBFF
}

/// A code unit that closes a surrogate pair.
pub open spec fn is_low_surrogate(unit: u16) -> bool {
    0xDC00 <= unit <= 0xDFFF
}

/// The code units of one character: itself below U+10000, a surrogate pair above.
pub open spec fn encode_char(c: char) -> Seq<u16> {
    let code = c as u32 as int;
    if code < 0x1_0000 {
        seq![code as u16]
    } else {
        seq![
            (0xD800 + (code - 0x1_0000) / 0x400) as u16,
            (0xDC00 + (code - 0x1_0000) % 0x400) as u16,
        ]
    }
}

/// The code units of a text: those of its characters, in order.
pub open spec fn encode(text: Seq<char>) -> Seq<u16>
    decreases text.len(),
{
    if text.len() == 0 {
        Seq::empty()
    } else {
        encode(text.drop_last()) + encode_char(text.last())
    }
}

/// The character that a surrogate pair stands for.
pub open spec fn paired(high: u16, low: u16) -> char {
    (0x1_0000 + (high - 0xD800) * 0x400 + (low - 0xDC00)) as char
}

/// The text that code units stand for. A unit outside the surrogate range is a
/// character; a high surrogate with a low one behind it is a pair; any other
/// surrogate is replaced, and decoding goes on with the unit after it.
pub open spec fn decode_lossy(units: Seq<u16>) -> Seq<char>
    decreases units.len(),
{
    if units.len() == 0 {
        Seq::empty()
    } else if !is_high_surrogate(units[0]) && !is_low_surrogate(units[0]) {
        seq![units[0] as char] + decode_lossy(units.skip(1))
    } else if is_high_surrogate(units[0]) && units.len() >= 2 && is_low_surrogate(units[1]) {
        seq![paired(units[0], units[1])] + decode_lossy(units.skip(2))
    } else {
        seq![REPLACEMENT] + decode_lossy(units.skip(1))
    }
}

/// Code units in which every surrogate stands in a pair: a high one with a
/// low one right behind it.
pub open spec fn well_formed(units: Seq<u16>) -> bool
    decreases units.len(),
{
    if units.len() == 0 {
        true
    } else if !is_high_surrogate(units[0]) && !is_low_surrogate(units[0]) {
        well_formed(units.skip(1))
    } else {
        &&& is_high_surrogate(units[0])
        &&& units.len() >= 2
        &&& is_low_surrogate(units[1])
        &&& well_formed(units.skip(2))
    }
}

/// Encoding goes character by character, so it distributes over concatenation.
pub proof fn lemma_encode_concat(front: Seq<char>, back: Seq<char>)
    ensures
        encode(front + back) == encode(front) + encode(back),
    decreases back.len(),
{
    if back.len() == 0 {
        assert(front + back =~= front);
        assert(encode(front) + encode(back) =~= encode(front));
    } else {
        lemma_encode_concat(front, back.drop_last());
        assert((front + back).drop_last() =~= front + back.drop_last());
        assert((front + back).last() == back.last());
        assert(encode(front) + encode(back.drop_last()) + encode_char(back.last()) =~= encode(
            front,
        ) + (encode(back.drop_last()) + encode_char(back.last())));
    }
}

/// The code units of a single character are those of the text that holds it.
proof fn lemma_encode_single(c: char)
    ensures
        encode(seq![c]) == encode_char(c),
{
    let text = seq![c];
    assert(text.drop_last() =~= Seq::<char>::empty());
    assert(encode(text.drop_last()) =~= Seq::<u16>::empty());
    assert(text.last() == c);
    assert(encode(text) =~= encode_char(c));
}

/// Decoding the code units of one character, with anything behind them, gives
/// that character and then what the rest decodes to.
pub proof fn lemma_decode_first(c: char, rest: Seq<u16>)
    ensures
        decode_lossy(encode_char(c) + rest) == seq![c] + decode_lossy(rest),
{
    let code = c as u32 as int;
    let units = encode_char(c) + rest;
    if code < 0x1_0000 {
        assert(units[0] == code as u16);
        assert(units.skip(1) =~= rest);
        assert(units[0] as char == c);
    } else {
        let high = units[0];
        let low = units[1];
        assert(high == 0xD800 + (code - 0x1_0000) / 0x400);
        assert(low == 0xDC00 + (code - 0x1_0000) % 0x400);
        assert(units.skip(2) =~= rest);
        assert(0x1_0000 + (high - 0xD800) * 0x400 + (low - 0xDC00) == code);
        assert(paired(high, low) == c);
    }
}

/// Encoding loses nothing: the code units of a text decode to that text.
pub proof fn lemma_decode_encode(text: Seq<char>)
    ensures
        decode_lossy(encode(text)) == text,
    decreases text.len(),
{
    if text.len() == 0 {
        assert(decode_lossy(encode(text)) =~= text);
    } else {
        let head = seq![text[0]];
        let tail = text.drop_first();
        assert(text =~= head + tail);
        lemma_encode_concat(head, tail);
        lemma_encode_single(text[0]);
        lemma_decode_first(text[0], encode(tail));
        lemma_decode_encode(tail);
    }
}

/// Decoding loses nothing of well-formed code units: they are the code units
/// of the text that they decode to.
pub proof fn lemma_encode_decode(units: Seq<u16>)
    requires
        well_formed(units),
    ensures
        encode(decode_lossy(units)) == units,
    decreases units.len(),
{
    if units.len() == 0 {
        assert(encode(decode_lossy(units)) =~= units);
    } else if !is_high_surrogate(units[0]) && !is_low_surrogate(units[0]) {
        let c = units[0] as char;
        let rest = units.skip(1);
        lemma_encode_decode(rest);
        lemma_encode_single(c);
        lemma_encode_concat(seq![c], decode_lossy(rest));
        assert(encode_char(c) =~= seq![units[0]]);
        assert(seq![units[0]] + rest =~= units);
    } else {
        let c = paired(units[0], units[1]);
        let rest = units.skip(2);
        let code = 0x1_0000 + (units[0] - 0xD800) * 0x400 + (units[1] - 0xDC00);
        assert(0x1_0000 <= code <= 0x10_FFFF);
        assert(c as u32 as int == code);
        assert((code - 0x1_0000) / 0x400 == units[0] - 0xD800);
        assert((code - 0x1_0000) % 0x400 == units[1] - 0xDC00);
        lemma_encode_decode(rest);
        lemma_encode_single(c);
        lemma_encode_concat(seq![c], decode_lossy(rest));
        assert(encode_char(c) =~= seq![units[0], units[1]]);
        assert(seq![units[0], units[1]] + rest =~= units);
    }
}

/// The code units of one character, before well-formed code units, are well
/// formed.
proof fn lemma_well_formed_first(c: char, rest: Seq<u16>)
    requires
        well_formed(rest),
    ensures
        well_formed(encode_char(c) + rest),
{
    let code = c as u32 as int;
    let units = encode_char(c) + rest;
    if code < 0x1_0000 {
        assert(units[0] == code as u16);
        assert(units.skip(1) =~= rest);
    } else {
        assert(units[0] == 0xD800 + (code - 0x1_0000) / 0x400);
        assert(units[1] == 0xDC00 + (code - 0x1_0000) % 0x400);
        assert(units.skip(2) =~= rest);
    }
}

/// What a text encodes to is well formed.
pub proof fn lemma_encode_well_formed(text: Seq<char>)
    ensures
        well_formed(encode(text)),
    decreases text.len(),
{
    if text.len() > 0 {
        let head = seq![text[0]];
        let tail = text.drop_first();
        assert(text =~= head + tail);
        lemma_encode_concat(head, tail);
        lemma_encode_single(text[0]);
        lemma_encode_well_formed(tail);
        lemma_well_formed_first(text[0], encode(tail));
    }
}

/// The UTF-16 code units of a text.
pub fn encode_utf16(value: &str) -> (units: Vec<u16>)
    ensures
        units@ == encode(value@),
{
    let mut units: Vec<u16> = Vec::new();
    for c in it: value.chars()
        invariant
            it.seq() == value@,
            units@ == encode(value@.take(it.index() as int)),
    {
        proof {
            let done = value@.take(it.index() as int);
            let next = value@.take(it.index() + 1);
            assert(next.drop_last() =~= done);
            assert(next.last() == c);
        }
        let code: u32 = c as u32;
        if code < 0x1_0000 {
            units.push(code as u16);
        } else {
            let rest: u32 = code - 0x1_0000;
            units.push((0xD800 + rest / 0x400) as u16);
            units.push((0xDC00 + rest % 0x400) as u16);
        }
        assert(units@ =~= encode(value@.take(it.index() as int)) + encode_char(c));
    }
    assert(value@.take(value@.len() as int) =~= value@);
    units
}

/// The text that code units stand for, with U+FFFD for each unpaired surrogate.
pub fn decode_utf16_lossy(units: &Vec<u16>) -> (text: String)
    ensures
        text@ == decode_lossy(units@),
{
    let mut text = String::new();
    let mut at: usize = 0;
    assert(text@ + decode_lossy(units@.skip(0)) =~= decode_lossy(units@)) by {
        assert(units@.skip(0) =~= units@);
    }
    while at < units.len()
        invariant
            at <= units.len(),
            decode_lossy(units@) == text@ + decode_lossy(units@.skip(at as int)),
        decreases units.len() - at,
    {
        let ghost rest = units@.skip(at as int);
        let ghost before = text@;
        let unit: u16 = units[at];
        assert(rest[0] == unit);
        if unit < 0xD800 || unit > 0xDFFF {
            match char::from_u32(unit as u32) {
                Some(c) => text.push(c),
                None => text.push(REPLACEMENT),
            }
            at = at + 1;
            assert(rest.skip(1) =~= units@.skip(at as int));
        } else if unit <= 0xDBFF && at + 1 < units.len() && 0xDC00 <= units[at + 1] && units[at
            + 1] <= 0xDFFF {
            let low: u16 = units[at + 1];
            assert(rest[1] == low);
            let code: u32 = 0x1_0000 + (unit as u32 - 0xD800) * 0x400 + (low as u32 - 0xDC00);
            match char::from_u32(code) {
                Some(c) => text.push(c),
                None => text.push(REPLACEMENT),
            }
            at = at + 2;
            assert(rest.skip(2) =~= units@.skip(at as int));
        } else {
            text.push(REPLACEMENT);
            at = at + 1;
            assert(rest.skip(1) =~= units@.skip(at as int));
        }
        assert(text@ + decode_lossy(units@.skip(at as int)) =~= before + decode_lossy(rest));
    }
    assert(text@ + decode_lossy(units@.skip(at as int)) =~= text@);
    text
}

} // verus!
