//! UTF-16 text as Windows passes it around: encoding, decoding, and
//! null-terminated buffers.

use vstd::prelude::*;
use crate::text::chars_of;

verus! {

/// Whether `code` is a Unicode scalar value.
pub open spec fn is_scalar(code: u32) -> bool {
    code <= 0xD7FF || 0xE000 <= code <= 0x10FFFF
}

/// `char::from_u32` gives the character with that code for a Unicode scalar
/// value, and `None` for any other number.
pub assume_specification[ char::from_u32 ](code: u32) -> (c: Option<char>)
    ensures
        c == (if is_scalar(code) {
            Some(code as char)
        } else {
            None
        }),
;

/// The UTF-16 code units of one character: one unit, or a surrogate pair.
pub open spec fn utf16_units(c: char) -> Seq<u16> {
    let code = c as int;
    if code < 0x10000 {
        seq![code as u16]
    } else {
        seq![
            (0xD800 + (code - 0x10000) / 0x400) as u16,
            (0xDC00 + (code - 0x10000) % 0x400) as u16,
        ]
    }
}

/// The UTF-16 code units of a text.
pub open spec fn utf16(text: Seq<char>) -> Seq<u16>
    decreases text.len(),
{
    if text.len() == 0 {
        Seq::empty()
    } else {
        utf16_units(text[0]) + utf16(text.drop_first())
    }
}

/// Whether `unit` is the first half of a surrogate pair.
pub open spec fn high_surrogate(unit: u16) -> bool {
    0xD800 <= unit <= 0xDBFF
}

/// Whether `unit` is the second half of a surrogate pair.
pub open spec fn low_surrogate(unit: u16) -> bool {
    0xDC00 <= unit <= 0xDFFF
}

/// The character that a surrogate pair stands for.
pub open spec fn pair_char(high: u16, low: u16) -> char {
    (0x10000 + (high - 0xD800) * 0x400 + (low - 0xDC00)) as char
}

/// The text that UTF-16 code units stand for, with U+FFFD in the place of each
/// surrogate that is not part of a pair.
pub open spec fn utf16_lossy(units: Seq<u16>) -> Seq<char>
    decreases units.len(),
{
    if units.len() == 0 {
        Seq::empty()
    } else if units.len() >= 2 && high_surrogate(units[0]) && low_surrogate(units[1]) {
        seq![pair_char(units[0], units[1])] + utf16_lossy(units.skip(2))
    } else if high_surrogate(units[0]) || low_surrogate(units[0]) {
        seq!['\u{FFFD}'] + utf16_lossy(units.skip(1))
    } else {
        seq![units[0] as char] + utf16_lossy(units.skip(1))
    }
}

/// Appends the UTF-16 code units of one character.
fn push_units(out: &mut Vec<u16>, c: char)
    ensures
        final(out)@ == old(out)@ + utf16_units(c),
{
    let code: u32 = c as u32;
    if code < 0x10000 {
        out.push(code as u16);
    } else {
        out.push((0xD800 + (code - 0x10000) / 0x400) as u16);
        out.push((0xDC00 + (code - 0x10000) % 0x400) as u16);
    }
}

/// Encodes a text as UTF-16.
pub fn encode_utf16(s: &str) -> (units: Vec<u16>)
    ensures
        units@ == utf16(s@),
{
    let chars: Vec<char> = chars_of(s);
    let mut units: Vec<u16> = Vec::new();
    let mut i: usize = 0;
    assert(s@.skip(0) == s@);
    while i < chars.len()
        invariant
            i <= chars.len(),
            chars@ == s@,
            utf16(s@) == units@ + utf16(s@.skip(i as int)),
        decreases chars.len() - i,
    {
        push_units(&mut units, chars[i]);
        assert(s@.skip(i as int).drop_first() == s@.skip(i + 1));
        i = i + 1;
    }
    units
}

/// Encodes a text as null-terminated UTF-16.
pub fn to_wide(s: &str) -> (wide: Vec<u16>)
    ensures
        wide@ == utf16(s@).push(0),
{
    let mut wide: Vec<u16> = encode_utf16(s);
    wide.push(0);
    wide
}

/// What a buffer holds once `text` was copied into it: as many of the code
/// units as fit before the last place, a terminator behind them, and the old
/// contents behind that.
pub open spec fn filled(text: Seq<char>, old_buf: Seq<u16>) -> Seq<u16> {
    let units = utf16(text);
    let n = if units.len() < old_buf.len() {
        units.len() as int
    } else {
        old_buf.len() - 1
    };
    units.take(n).push(0) + old_buf.skip(n + 1)
}

/// Copies a text into a buffer of fixed size, cutting it off if it is too
/// long. The buffer is always null-terminated.
pub fn fill_wide<const N: usize>(s: &str, buf: &mut [u16; N])
    requires
        N > 0,
    ensures
        final(buf)@ == filled(s@, old(buf)@),
{
    let units: Vec<u16> = encode_utf16(s);
    let ghost before = buf@;
    let n: usize = if units.len() < N {
        units.len()
    } else {
        N - 1
    };
    let mut i: usize = 0;
    while i < n
        invariant
            i <= n < N,
            n <= units.len(),
            before.len() == N,
            buf@ == units@.take(i as int) + before.skip(i as int),
        decreases n - i,
    {
        buf[i] = units[i];
        assert(buf@ =~= units@.take(i + 1) + before.skip(i + 1));
        i = i + 1;
    }
    buf[n] = 0;
    assert(buf@ =~= units@.take(n as int).push(0) + before.skip(n + 1));
}

/// Decodes UTF-16, with U+FFFD in the place of each surrogate that is not part
/// of a pair.
pub fn from_utf16_lossy(units: &[u16]) -> (text: String)
    ensures
        text@ == utf16_lossy(units@),
{
    let mut text: String = String::new();
    let mut i: usize = 0;
    assert(units@.skip(0) == units@);
    while i < units.len()
        invariant
            i <= units.len(),
            utf16_lossy(units@) == text@ + utf16_lossy(units@.skip(i as int)),
        decreases units.len() - i,
    {
        let unit: u16 = units[i];
        let ghost rest = units@.skip(i as int);
        assert(rest.skip(1) == units@.skip(i + 1));
        if 0xD800 <= unit && unit <= 0xDFFF {
            if unit <= 0xDBFF && i + 1 < units.len() && 0xDC00 <= units[i + 1] && units[i + 1]
                <= 0xDFFF {
                assert(rest.skip(2) == units@.skip(i + 2));
                let code: u32 = 0x10000 + (unit as u32 - 0xD800) * 0x400 + (units[i + 1] as u32
                    - 0xDC00);
                if let Some(c) = char::from_u32(code) {
                    text.push(c);
                }
                i = i + 2;
            } else {
                text.push('\u{FFFD}');
                i = i + 1;
            }
        } else {
            if let Some(c) = char::from_u32(unit as u32) {
                text.push(c);
            }
            i = i + 1;
        }
    }
    text
}

/// The bytes of code units, low byte first.
pub open spec fn unit_bytes(units: Seq<u16>) -> Seq<u8> {
    Seq::new(
        2 * units.len(),
        |i: int|
            if i % 2 == 0 {
                (units[i / 2] % 256) as u8
            } else {
                (units[i / 2] / 256) as u8
            },
    )
}

/// Writes code units as bytes, low byte first.
pub fn wide_bytes(units: &[u16]) -> (bytes: Vec<u8>)
    ensures
        bytes@ == unit_bytes(units@),
{
    let mut bytes: Vec<u8> = Vec::new();
    let mut i: usize = 0;
    while i < units.len()
        invariant
            i <= units.len(),
            bytes@ == unit_bytes(units@.take(i as int)),
        decreases units.len() - i,
    {
        bytes.push((units[i] % 256) as u8);
        bytes.push((units[i] / 256) as u8);
        assert(bytes@ =~= unit_bytes(units@.take(i + 1)));
        i = i + 1;
    }
    assert(units@.take(i as int) == units@);
    bytes
}

/// The number of code units before the first null, or all of them.
pub open spec fn nul_index(units: Seq<u16>) -> nat
    decreases units.len(),
{
    if units.len() == 0 || units[0] == 0 {
        0
    } else {
        1 + nul_index(units.drop_first())
    }
}

/// The text in a null-terminated buffer: what its code units before the first
/// null stand for.
pub open spec fn text_before_nul(units: Seq<u16>) -> Seq<char> {
    utf16_lossy(units.take(nul_index(units) as int))
}

/// Nothing before the first null is null, and what stands there is null or the
/// end.
pub proof fn lemma_nul_index(units: Seq<u16>, n: int)
    requires
        0 <= n <= units.len(),
        forall|k: int| 0 <= k < n ==> units[k] != 0,
        n == units.len() || units[n] == 0,
    ensures
        nul_index(units) == n,
    decreases units.len(),
{
    if n > 0 {
        let rest = units.drop_first();
        assert forall|k: int| 0 <= k < n - 1 implies rest[k] != 0 by {
            assert(rest[k] == units[k + 1]);
        }
        lemma_nul_index(rest, n - 1);
    }
}

/// The number of code units before the first null, or all of them.
pub fn find_nul(units: &[u16]) -> (n: usize)
    ensures
        n == nul_index(units@),
        n <= units@.len(),
{
    let mut n: usize = 0;
    while n < units.len() && units[n] != 0
        invariant
            n <= units.len(),
            forall|k: int| 0 <= k < n ==> units@[k] != 0,
        ensures
            n <= units.len(),
            forall|k: int| 0 <= k < n ==> units@[k] != 0,
            n == units.len() || units@[n as int] == 0,
        decreases units.len() - n,
    {
        n = n + 1;
    }
    proof {
        lemma_nul_index(units@, n as int);
    }
    n
}

/// Reads the text in a null-terminated buffer.
pub fn read_text(units: &[u16]) -> (text: String)
    ensures
        text@ == text_before_nul(units@),
{
    let n: usize = find_nul(units);
    from_utf16_lossy(vstd::slice::slice_subrange(units, 0, n))
}

/// The code units of one character decode to that character.
proof fn lemma_units_decode(c: char, rest: Seq<u16>)
    ensures
        utf16_lossy(utf16_units(c) + rest) == seq![c] + utf16_lossy(rest),
{
    let all = utf16_units(c) + rest;
    if (c as int) < 0x10000 {
        assert(all.skip(1) == rest);
    } else {
        let code = c as int - 0x10000;
        assert(0 <= code < 0x100000);
        assert(code / 0x400 * 0x400 + code % 0x400 == code);
        assert(all.skip(2) == rest);
        assert(pair_char(all[0], all[1]) == c);
    }
}

/// Decoding what was encoded gives back the text.
pub proof fn law_utf16_round_trip(text: Seq<char>)
    ensures
        utf16_lossy(utf16(text)) == text,
    decreases text.len(),
{
    if text.len() > 0 {
        law_utf16_round_trip(text.drop_first());
        lemma_units_decode(text[0], utf16(text.drop_first()));
        assert(seq![text[0]] + text.drop_first() == text);
    }
}

/// Encoding what was decoded gives back the code units, as long as nothing had
/// to be replaced.
pub proof fn law_utf16_decodes_exactly(units: Seq<u16>)
    requires
        !utf16_lossy(units).contains('\u{FFFD}'),
    ensures
        utf16(utf16_lossy(units)) == units,
    decreases units.len(),
{
    if units.len() > 0 {
        let text = utf16_lossy(units);
        let pair = units.len() >= 2 && high_surrogate(units[0]) && low_surrogate(units[1]);
        let rest = units.skip(
            if pair {
                2
            } else {
                1
            },
        );
        assert(text.drop_first() == utf16_lossy(rest));
        assert(!utf16_lossy(rest).contains('\u{FFFD}')) by {
            assert forall|k: int| 0 <= k < utf16_lossy(rest).len() implies utf16_lossy(rest)[k]
                != '\u{FFFD}' by {
                assert(text[k + 1] == utf16_lossy(rest)[k]);
                assert(text.contains(text[k + 1]));
            }
        }
        law_utf16_decodes_exactly(rest);
        assert(text.contains(text[0]));
        if pair {
            let high = units[0] - 0xD800;
            let low = units[1] - 0xDC00;
            assert((high * 0x400 + low) / 0x400 == high);
            assert((high * 0x400 + low) % 0x400 == low);
            assert(utf16_units(text[0]) == seq![units[0], units[1]]);
        } else {
            assert(utf16_units(text[0]) == seq![units[0]]);
        }
        assert(utf16_units(text[0]) + rest == units);
    }
}

/// No code unit of a character other than the null character is null.
proof fn lemma_char_not_nul(c: char)
    requires
        c != '\0',
    ensures
        forall|k: int| 0 <= k < utf16_units(c).len() ==> utf16_units(c)[k] != 0,
{
}

/// Only the null character has a null code unit.
proof fn lemma_units_not_nul(text: Seq<char>)
    requires
        forall|i: int| 0 <= i < text.len() ==> text[i] != '\0',
    ensures
        forall|k: int| 0 <= k < utf16(text).len() ==> utf16(text)[k] != 0,
    decreases text.len(),
{
    if text.len() > 0 {
        let rest = text.drop_first();
        assert forall|i: int| 0 <= i < rest.len() implies rest[i] != '\0' by {
            assert(rest[i] == text[i + 1]);
        }
        lemma_units_not_nul(rest);
        let first = utf16_units(text[0]);
        lemma_char_not_nul(text[0]);
        assert forall|k: int| 0 <= k < utf16(text).len() implies utf16(text)[k] != 0 by {
            if k < first.len() {
                assert(utf16(text)[k] == first[k]);
            } else {
                assert(utf16(text)[k] == utf16(rest)[k - first.len()]);
            }
        }
    }
}

/// Whoever reads a text from `to_wide` up to its terminator reads the whole
/// text, as long as the text itself has no null character.
pub proof fn law_to_wide_reads_back(text: Seq<char>)
    requires
        forall|i: int| 0 <= i < text.len() ==> text[i] != '\0',
    ensures
        ({
            let wide = utf16(text).push(0);
            &&& nul_index(wide) == utf16(text).len()
            &&& text_before_nul(wide) == text
        }),
{
    let units = utf16(text);
    let wide = units.push(0);
    lemma_units_not_nul(text);
    assert forall|k: int| 0 <= k < units.len() implies wide[k] != 0 by {
        assert(wide[k] == units[k]);
    }
    lemma_nul_index(wide, units.len() as int);
    assert(wide.take(units.len() as int) == units);
    law_utf16_round_trip(text);
}

/// A filled buffer keeps its size and holds a terminator; a text that fits is
/// read back whole.
pub proof fn law_fill_wide_terminated(text: Seq<char>, old_buf: Seq<u16>)
    requires
        old_buf.len() > 0,
    ensures
        filled(text, old_buf).len() == old_buf.len(),
        nul_index(filled(text, old_buf)) < old_buf.len(),
        utf16(text).len() < old_buf.len() && (forall|i: int|
            0 <= i < text.len() ==> text[i] != '\0') ==> text_before_nul(filled(text, old_buf))
            == text,
{
    let units = utf16(text);
    let buf = filled(text, old_buf);
    let n = if units.len() < old_buf.len() {
        units.len() as int
    } else {
        old_buf.len() - 1
    };
    assert(buf[n] == 0);
    lemma_nul_at_most(buf, n);
    if units.len() < old_buf.len() && (forall|i: int| 0 <= i < text.len() ==> text[i] != '\0') {
        lemma_units_not_nul(text);
        assert forall|k: int| 0 <= k < n implies buf[k] != 0 by {
            assert(buf[k] == units[k]);
        }
        lemma_nul_index(buf, n);
        assert(buf.take(n) == units);
        law_utf16_round_trip(text);
    }
}

/// The first null stands at or before any null.
proof fn lemma_nul_at_most(units: Seq<u16>, n: int)
    requires
        0 <= n < units.len(),
        units[n] == 0,
    ensures
        nul_index(units) <= n,
    decreases units.len(),
{
    if n > 0 && units[0] != 0 {
        assert(units.drop_first()[n - 1] == 0);
        lemma_nul_at_most(units.drop_first(), n - 1);
    }
}

/// A text with one more character at its start has the code units of that
/// character before its own: the number of the character, or a pair of
/// surrogates that hold the twenty bits by which it exceeds sixteen bits.
pub proof fn law_utf16_of_characters(c: char, rest: Seq<char>)
    ensures
        utf16(Seq::empty()).len() == 0,
        (c as int) < 0x10000 ==> utf16(seq![c] + rest) == seq![c as u16] + utf16(rest),
        (c as int) >= 0x10000 ==> ({
            let units = utf16(seq![c] + rest);
            &&& units.len() == 2 + utf16(rest).len()
            &&& units.skip(2) == utf16(rest)
            &&& 0xD800 <= units[0] < 0xDC00
            &&& 0xDC00 <= units[1] < 0xE000
            &&& (units[0] - 0xD800) * 1024 + (units[1] - 0xDC00) + 0x10000 == c as int
        }),
{
    let text = seq![c] + rest;
    assert(text.drop_first() == rest);
    assert(text[0] == c);
    if (c as int) >= 0x10000 {
        let code = c as int - 0x10000;
        let high = (0xD800 + code / 0x400) as u16;
        let low = (0xDC00 + code % 0x400) as u16;
        assert(0 <= code < 0x100000);
        assert(utf16_units(c) == seq![high, low]);
        assert(utf16(text).skip(2) == utf16(rest));
        assert((high - 0xD800) * 1024 + (low - 0xDC00) + 0x10000 == c as int);
    }
}

/// Decoding goes unit by unit: a unit that is no surrogate is the character of
/// that number, a pair of surrogates is the character whose bits they hold, and
/// a surrogate without its other half is replaced, with the rest read on behind
/// it.
pub proof fn law_utf16_decodes_by_units(first: u16, rest: Seq<u16>)
    ensures
        utf16_lossy(Seq::empty()).len() == 0,
        first < 0xD800 || first >= 0xE000 ==> utf16_lossy(seq![first] + rest) == seq![
            first as char,
        ] + utf16_lossy(rest),
        0xD800 <= first < 0xDC00 && rest.len() > 0 && 0xDC00 <= rest[0] < 0xE000 ==> utf16_lossy(
            seq![first] + rest,
        ) == seq![((first - 0xD800) * 1024 + (rest[0] - 0xDC00) + 0x10000) as char] + utf16_lossy(
            rest.drop_first(),
        ),
        0xD800 <= first < 0xDC00 && !(rest.len() > 0 && 0xDC00 <= rest[0] < 0xE000)
            ==> utf16_lossy(seq![first] + rest) == seq!['\u{FFFD}'] + utf16_lossy(rest),
        0xDC00 <= first < 0xE000 ==> utf16_lossy(seq![first] + rest) == seq!['\u{FFFD}']
            + utf16_lossy(rest),
{
    let units = seq![first] + rest;
    assert(units.skip(1) == rest);
    assert(units[0] == first);
    if rest.len() > 0 {
        assert(units[1] == rest[0]);
        assert(units.skip(2) == rest.drop_first());
    }
}

/// One more code unit adds two bytes at the end, of which the second counts 256
/// times as much as the first.
pub proof fn law_unit_bytes_make_up_units(units: Seq<u16>, unit: u16)
    ensures
        unit_bytes(Seq::empty()).len() == 0,
        unit_bytes(units.push(unit)).len() == unit_bytes(units).len() + 2,
        unit_bytes(units.push(unit)).take(unit_bytes(units).len() as int) == unit_bytes(units),
        unit_bytes(units.push(unit)).last() * 256 + unit_bytes(units.push(unit)).drop_last().last()
            == unit,
{
    let more = unit_bytes(units.push(unit));
    let n = units.len() as int;
    assert(more.take(unit_bytes(units).len() as int) =~= unit_bytes(units)) by {
        assert forall|i: int| 0 <= i < 2 * n implies more[i] == unit_bytes(units)[i] by {
            assert(i / 2 < n);
            assert(units.push(unit)[i / 2] == units[i / 2]);
        }
    }
    assert((2 * n) / 2 == n && (2 * n) % 2 == 0);
    assert((2 * n + 1) / 2 == n && (2 * n + 1) % 2 == 1);
    assert(more[2 * n] == (unit % 256) as u8);
    assert(more[2 * n + 1] == (unit / 256) as u8);
}

/// No null stands before the place found, and the place found holds a null or is
/// the end.
pub proof fn law_nul_is_the_first(units: Seq<u16>)
    ensures
        nul_index(units) <= units.len(),
        forall|k: int| 0 <= k < nul_index(units) ==> units[k] != 0,
        nul_index(units) < units.len() ==> units[nul_index(units) as int] == 0,
    decreases units.len(),
{
    if units.len() > 0 && units[0] != 0 {
        let rest = units.drop_first();
        law_nul_is_the_first(rest);
        assert forall|k: int| 0 <= k < nul_index(units) implies units[k] != 0 by {
            if k > 0 {
                assert(units[k] == rest[k - 1]);
            }
        }
        if nul_index(units) < units.len() {
            assert(units[nul_index(units) as int] == rest[nul_index(rest) as int]);
        }
    }
}

/// A text without null characters is read back from a buffer that holds it and a
/// null behind it, whatever follows; and from one that it fills.
pub proof fn law_text_ends_at_the_nul(text: Seq<char>, rest: Seq<u16>)
    requires
        forall|i: int| 0 <= i < text.len() ==> text[i] != '\0',
    ensures
        text_before_nul(utf16(text) + seq![0u16] + rest) == text,
        text_before_nul(utf16(text)) == text,
{
    let units = utf16(text);
    let buffer = units + seq![0u16] + rest;
    lemma_units_not_nul(text);
    assert forall|k: int| 0 <= k < units.len() implies buffer[k] != 0 by {
        assert(buffer[k] == units[k]);
    }
    assert(buffer[units.len() as int] == 0);
    lemma_nul_index(buffer, units.len() as int);
    lemma_nul_index(units, units.len() as int);
    assert(buffer.take(units.len() as int) == units);
    assert(units.take(units.len() as int) == units);
    law_utf16_round_trip(text);
}

/// Filling a buffer writes the code units of the text from its start on, as many
/// as leave room for a null, then a null, and leaves the rest alone.
pub proof fn law_fill_wide_by_places(text: Seq<char>, old_buf: Seq<u16>, i: int)
    requires
        0 <= i < old_buf.len(),
    ensures
        ({
            let n = if utf16(text).len() >= old_buf.len() {
                old_buf.len() - 1
            } else {
                utf16(text).len() as int
            };
            &&& i < n ==> filled(text, old_buf)[i] == utf16(text)[i]
            &&& i == n ==> filled(text, old_buf)[i] == 0
            &&& i > n ==> filled(text, old_buf)[i] == old_buf[i]
        }),
{
}

/// Whatever stands before the first null is decoded, and nothing behind it.
pub proof fn law_units_before_the_nul_are_decoded(units: Seq<u16>, rest: Seq<u16>)
    requires
        forall|k: int| 0 <= k < units.len() ==> units[k] != 0,
    ensures
        text_before_nul(units + seq![0u16] + rest) == utf16_lossy(units),
        text_before_nul(units) == utf16_lossy(units),
{
    let buffer = units + seq![0u16] + rest;
    assert forall|k: int| 0 <= k < units.len() implies buffer[k] != 0 by {
        assert(buffer[k] == units[k]);
    }
    assert(buffer[units.len() as int] == 0);
    lemma_nul_index(buffer, units.len() as int);
    lemma_nul_index(units, units.len() as int);
    assert(buffer.take(units.len() as int) == units);
    assert(units.take(units.len() as int) == units);
}

} // verus!
