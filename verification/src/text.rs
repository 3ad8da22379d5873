//! Text in the forms that Windows version resources store it: UTF-16
//! code units, written little-endian and closed by a NUL unit.
use vstd::prelude::*;

verus! {

/// The UTF-16 code units of one Unicode scalar value: one unit below
/// U+10000, a surrogate pair above it.
pub open spec fn utf16_of_char(c: char) -> Seq<u16> {
    let v = c as u32;
    if v < 0x10000 {
        seq![v as u16]
    } else {
        seq![(0xD800 + (v - 0x10000) / 0x400) as u16, (0xDC00 + (v - 0x10000) % 0x400) as u16]
    }
}

/// The UTF-16 encoding of a character sequence.
pub open spec fn utf16_units(s: Seq<char>) -> Seq<u16>
    decreases s.len(),
{
    if s.len() == 0 {
        seq![]
    } else {
        utf16_units(s.drop_last()) + utf16_of_char(s.last())
    }
}

/// A 16-bit value as two bytes, least significant first.
pub open spec fn u16_le(x: u16) -> Seq<u8> {
    seq![(x % 256) as u8, (x / 256) as u8]
}

/// A 32-bit value as four bytes, least significant first.
pub open spec fn u32_le(x: u32) -> Seq<u8> {
    seq![(x % 256) as u8, ((x / 256) % 256) as u8, ((x / 65536) % 256) as u8, (x / 16777216) as u8]
}

/// A sequence of 16-bit units, each written little-endian.
pub open spec fn units_le_bytes(units: Seq<u16>) -> Seq<u8>
    decreases units.len(),
{
    if units.len() == 0 {
        seq![]
    } else {
        units_le_bytes(units.drop_last()) + u16_le(units.last())
    }
}

/// Text as UTF-16 little-endian, followed by a terminating NUL unit.
pub open spec fn encode_text(s: Seq<char>) -> Seq<u8> {
    units_le_bytes(utf16_units(s).push(0u16))
}

/// The little-endian bytes of a 16-bit value, read back.
pub open spec fn read_u16_le(bytes: Seq<u8>, at: int) -> int {
    bytes[at] + 256 * bytes[at + 1]
}

/// The little-endian bytes of a 32-bit value, read back.
pub open spec fn read_u32_le(bytes: Seq<u8>, at: int) -> int {
    bytes[at] + 256 * bytes[at + 1] + 65536 * bytes[at + 2] + 16777216 * bytes[at + 3]
}

pub proof fn lemma_utf16_units_len(s: Seq<char>)
    ensures
        s.len() <= utf16_units(s).len() <= 2 * s.len(),
    decreases s.len(),
{
    if s.len() > 0 {
        lemma_utf16_units_len(s.drop_last());
    }
}

pub proof fn lemma_utf16_units_push(s: Seq<char>, c: char)
    ensures
        utf16_units(s.push(c)) == utf16_units(s) + utf16_of_char(c),
{
    assert(s.push(c).drop_last() == s);
}

pub proof fn lemma_units_le_bytes_len(units: Seq<u16>)
    ensures
        units_le_bytes(units).len() == 2 * units.len(),
    decreases units.len(),
{
    if units.len() > 0 {
        lemma_units_le_bytes_len(units.drop_last());
    }
}

pub proof fn lemma_units_le_bytes_append(a: Seq<u16>, b: Seq<u16>)
    ensures
        units_le_bytes(a + b) == units_le_bytes(a) + units_le_bytes(b),
    decreases b.len(),
{
    if b.len() == 0 {
        assert(a + b == a);
    } else {
        lemma_units_le_bytes_append(a, b.drop_last());
        assert((a + b).drop_last() == a + b.drop_last());
    }
}

pub proof fn lemma_encode_text_len(s: Seq<char>)
    ensures
        encode_text(s).len() == 2 * utf16_units(s).len() + 2,
        2 * s.len() + 2 <= encode_text(s).len() <= 4 * s.len() + 2,
{
    lemma_units_le_bytes_len(utf16_units(s).push(0u16));
    lemma_utf16_units_len(s);
}

/// Text of the Basic Multilingual Plane has one UTF-16 unit per character,
/// the character's code point.
pub proof fn lemma_utf16_units_bmp(s: Seq<char>)
    requires
        forall|i: int| 0 <= i < s.len() ==> (#[trigger] s[i] as u32) < 0x10000,
    ensures
        utf16_units(s).len() == s.len(),
        forall|i: int| 0 <= i < s.len() ==> #[trigger] utf16_units(s)[i] == s[i] as u32,
    decreases s.len(),
{
    if s.len() > 0 {
        let init = s.drop_last();
        assert forall|i: int| 0 <= i < init.len() implies (#[trigger] init[i] as u32) < 0x10000 by {
            assert(init[i] == s[i]);
        }
        lemma_utf16_units_bmp(init);
        assert((s[s.len() - 1] as u32) < 0x10000);
        assert(utf16_units(s) == utf16_units(init) + utf16_of_char(s.last()));
        assert(utf16_of_char(s.last()) == seq![(s.last() as u32) as u16]);
        assert forall|i: int| 0 <= i < s.len() implies #[trigger] utf16_units(s)[i] == s[i] as u32 by {
            if i < s.len() - 1 {
                assert(init[i] == s[i]);
                assert(utf16_units(s)[i] == utf16_units(init)[i]);
            } else {
                assert(s[i] == s.last());
                assert(utf16_units(s)[i] == utf16_of_char(s.last())[0]);
            }
        }
    }
}

/// Each unit takes two bytes, low byte first.
pub proof fn lemma_units_le_bytes_index(units: Seq<u16>)
    ensures
        units_le_bytes(units).len() == 2 * units.len(),
        forall|i: int|
            0 <= i < units.len() ==> units_le_bytes(units)[2 * i] == #[trigger] units[i] % 256
                && units_le_bytes(units)[2 * i + 1] == units[i] / 256,
    decreases units.len(),
{
    lemma_units_le_bytes_len(units);
    if units.len() > 0 {
        let init = units.drop_last();
        lemma_units_le_bytes_index(init);
        assert forall|i: int|
            0 <= i < units.len() implies units_le_bytes(units)[2 * i] == #[trigger] units[i] % 256
            && units_le_bytes(units)[2 * i + 1] == units[i] / 256 by {
            if i < units.len() - 1 {
                assert(init[i] == units[i]);
            }
        }
    }
}

/// Text of the Basic Multilingual Plane is stored as two bytes per
/// character, the code point's low byte first, followed by two zero bytes.
pub proof fn lemma_encode_text_bmp(s: Seq<char>)
    requires
        forall|i: int| 0 <= i < s.len() ==> (#[trigger] s[i] as u32) < 0x10000,
    ensures
        encode_text(s).len() == 2 * s.len() + 2,
        forall|i: int|
            0 <= i < s.len() ==> encode_text(s)[2 * i] == (#[trigger] s[i] as u32) % 256
                && encode_text(s)[2 * i + 1] == (s[i] as u32) / 256,
        encode_text(s)[2 * s.len() as int] == 0,
        encode_text(s)[2 * s.len() as int + 1] == 0,
{
    lemma_utf16_units_bmp(s);
    let units = utf16_units(s).push(0u16);
    lemma_units_le_bytes_index(units);
    assert(units[s.len() as int] == 0);
    assert forall|i: int|
        0 <= i < s.len() implies encode_text(s)[2 * i] == (#[trigger] s[i] as u32) % 256
        && encode_text(s)[2 * i + 1] == (s[i] as u32) / 256 by {
        assert(units[i] == utf16_units(s)[i]);
    }
}

/// The characters of a string slice, in order.
pub fn chars_of(text: &str) -> (chars: Vec<char>)
    ensures
        chars@ == text@,
{
    let mut chars: Vec<char> = Vec::new();
    for c in it: text.chars()
        invariant
            chars@ == it.seq().take(it.index() as int),
    {
        chars.push(c);
    }
    chars
}

/// Appends a 16-bit value, least significant byte first.
pub fn push_u16_le(buffer: &mut Vec<u8>, x: u16)
    ensures
        final(buffer)@ == old(buffer)@ + u16_le(x),
{
    buffer.push((x % 256) as u8);
    buffer.push((x / 256) as u8);
}

/// Appends a 32-bit value, least significant byte first.
pub fn push_u32_le(buffer: &mut Vec<u8>, x: u32)
    ensures
        final(buffer)@ == old(buffer)@ + u32_le(x),
{
    buffer.push((x % 256) as u8);
    buffer.push(((x / 256) % 256) as u8);
    buffer.push(((x / 65536) % 256) as u8);
    buffer.push((x / 16777216) as u8);
}

/// Appends the UTF-16 units of one character, each little-endian.
fn push_char_utf16_le(buffer: &mut Vec<u8>, c: char)
    ensures
        final(buffer)@ == old(buffer)@ + units_le_bytes(utf16_of_char(c)),
{
    let v: u32 = c as u32;
    if v < 0x10000 {
        push_u16_le(buffer, v as u16);
        proof {
            reveal_with_fuel(units_le_bytes, 2);
            assert(utf16_of_char(c).drop_last().len() == 0);
        }
    } else {
        let w: u32 = v - 0x10000;
        let high: u16 = (0xD800 + w / 0x400) as u16;
        let low: u16 = (0xDC00 + w % 0x400) as u16;
        push_u16_le(buffer, high);
        push_u16_le(buffer, low);
        proof {
            let u = utf16_of_char(c);
            assert(u.drop_last() == seq![high]);
            assert(u.drop_last().drop_last().len() == 0);
            reveal_with_fuel(units_le_bytes, 3);
        }
    }
}

/// Encodes text as UTF-16 little-endian followed by a NUL unit, the form
/// in which version resources store keys and string values.
pub fn encode_null_terminated_utf16_little_endian(text: &str) -> (encoded: Vec<u8>)
    ensures
        encoded@ == encode_text(text@),
{
    let chars = chars_of(text);
    let mut encoded: Vec<u8> = Vec::new();
    let mut i: usize = 0;
    while i < chars.len()
        invariant
            i <= chars.len(),
            chars@ == text@,
            encoded@ == units_le_bytes(utf16_units(chars@.take(i as int))),
        decreases chars.len() - i,
    {
        let ghost before = encoded@;
        push_char_utf16_le(&mut encoded, chars[i]);
        proof {
            assert(chars@.take(i + 1) == chars@.take(i as int).push(chars@[i as int]));
            lemma_utf16_units_push(chars@.take(i as int), chars@[i as int]);
            lemma_units_le_bytes_append(
                utf16_units(chars@.take(i as int)),
                utf16_of_char(chars@[i as int]),
            );
        }
        i = i + 1;
    }
    push_u16_le(&mut encoded, 0);
    proof {
        assert(chars@.take(chars@.len() as int) == chars@);
        let u = utf16_units(text@);
        lemma_units_le_bytes_append(u, seq![0u16]);
        assert(u + seq![0u16] == u.push(0u16));
        reveal_with_fuel(units_le_bytes, 2);
        assert(seq![0u16].drop_last().len() == 0);
    }
    encoded
}

} // verus!
