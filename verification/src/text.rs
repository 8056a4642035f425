//! Building and comparing text: decimal and hexadecimal numbers, lists of
//! numbers, and comparison that ignores ASCII case.

use vstd::prelude::*;

verus! {

/// `String::push` appends one character to the end of the string and changes
/// nothing else.
pub assume_specification[ String::push ](text: &mut String, c: char)
    ensures
        final(text)@ == old(text)@.push(c),
;

/// The decimal digit `d`.
pub open spec fn digit(d: nat) -> char {
    (48 + d) as char
}

/// `n` in decimal, without leading zeros.
pub open spec fn decimal(n: nat) -> Seq<char>
    decreases n,
{
    if n < 10 {
        seq![digit(n)]
    } else {
        decimal(n / 10).push(digit(n % 10))
    }
}

/// `n` in decimal, filled up on the left with zeros to `width` characters.
pub open spec fn decimal_padded(n: nat, width: nat) -> Seq<char> {
    let digits = decimal(n);
    if digits.len() < width {
        Seq::new((width - digits.len()) as nat, |i: int| '0') + digits
    } else {
        digits
    }
}

/// The upper-case hexadecimal digit `d`.
pub open spec fn hex_digit(d: nat) -> char {
    if d < 10 {
        (48 + d) as char
    } else {
        (55 + d) as char
    }
}

/// `n` as four upper-case hexadecimal digits.
pub open spec fn hex4(n: u16) -> Seq<char> {
    seq![
        hex_digit((n / 4096) as nat),
        hex_digit((n / 256 % 16) as nat),
        hex_digit((n / 16 % 16) as nat),
        hex_digit((n % 16) as nat),
    ]
}

/// Appends `n` in decimal.
pub fn push_decimal(out: &mut String, n: u64)
    ensures
        final(out)@ == old(out)@ + decimal(n as nat),
    decreases n,
{
    if n >= 10 {
        push_decimal(out, n / 10);
    }
    out.push((48 + (n % 10) as u8) as char);
}

/// Appends `n` in decimal, filled up on the left with zeros to `width`
/// characters.
pub fn push_decimal_padded(out: &mut String, n: u64, width: usize)
    ensures
        final(out)@ == old(out)@ + decimal_padded(n as nat, width as nat),
    decreases width,
{
    if width <= 1 {
        push_decimal(out, n);
    } else if n >= 10 {
        push_decimal_padded(out, n / 10, width - 1);
        out.push((48 + (n % 10) as u8) as char);
    } else {
        let ghost before = out@;
        let mut zeros: usize = 1;
        while zeros < width
            invariant
                1 <= zeros <= width,
                out@ == before + Seq::new((zeros - 1) as nat, |i: int| '0'),
            decreases width - zeros,
        {
            out.push('0');
            zeros = zeros + 1;
        }
        out.push((48 + n as u8) as char);
    }
}

/// The upper-case hexadecimal digit `d`.
pub fn hex_char(d: u8) -> (c: char)
    requires
        d < 16,
    ensures
        c == hex_digit(d as nat),
{
    if d < 10 {
        (48 + d) as char
    } else {
        (55 + d) as char
    }
}

/// Appends `n` as four upper-case hexadecimal digits.
pub fn push_hex4(out: &mut String, n: u16)
    ensures
        final(out)@ == old(out)@ + hex4(n),
{
    out.push(hex_char((n / 4096) as u8));
    out.push(hex_char((n / 256 % 16) as u8));
    out.push(hex_char((n / 16 % 16) as u8));
    out.push(hex_char((n % 16) as u8));
}

/// The decimal numbers of `items`, separated by a comma and a space.
pub open spec fn joined(items: Seq<nat>) -> Seq<char>
    decreases items.len(),
{
    if items.len() == 0 {
        Seq::empty()
    } else if items.len() == 1 {
        decimal(items[0])
    } else {
        joined(items.drop_last()) + ", "@ + decimal(items.last())
    }
}

/// `items` in square brackets, such as `[1, 2, 3]`.
pub open spec fn list_text(items: Seq<nat>) -> Seq<char> {
    "["@ + joined(items) + "]"@
}

/// Appends `items` in square brackets.
pub fn push_list(out: &mut String, items: &[u32])
    ensures
        final(out)@ == old(out)@ + list_text(items@.map_values(|n: u32| n as nat)),
{
    let ghost numbers = items@.map_values(|n: u32| n as nat);
    let ghost before = out@;
    out.append("[");
    let mut i: usize = 0;
    while i < items.len()
        invariant
            i <= items.len(),
            numbers == items@.map_values(|n: u32| n as nat),
            out@ == before + "["@ + joined(numbers.take(i as int)),
        decreases items.len() - i,
    {
        if i > 0 {
            out.append(", ");
        }
        push_decimal(out, items[i] as u64);
        proof {
            let longer = numbers.take(i + 1);
            assert(longer.drop_last() == numbers.take(i as int));
            assert(longer.last() == items[i as int] as nat);
        }
        i = i + 1;
    }
    out.append("]");
    assert(numbers.take(i as int) == numbers);
}

/// Appends `items` in square brackets.
pub fn push_byte_list(out: &mut String, items: &[u8])
    ensures
        final(out)@ == old(out)@ + list_text(items@.map_values(|n: u8| n as nat)),
{
    let mut numbers: Vec<u32> = Vec::new();
    let mut i: usize = 0;
    while i < items.len()
        invariant
            i <= items.len(),
            numbers@ == items@.take(i as int).map_values(|n: u8| n as u32),
        decreases items.len() - i,
    {
        numbers.push(items[i] as u32);
        assert(numbers@ =~= items@.take(i + 1).map_values(|n: u8| n as u32));
        i = i + 1;
    }
    push_list(out, &numbers);
    assert(numbers@.map_values(|n: u32| n as nat) =~= items@.map_values(|n: u8| n as nat));
}

/// The characters of `s`.
pub fn chars_of(s: &str) -> (chars: Vec<char>)
    ensures
        chars@ == s@,
{
    let mut chars: Vec<char> = Vec::new();
    for c in it: s.chars()
        invariant
            it.seq() == s@,
            chars@ == s@.take(it.index()),
    {
        chars.push(c);
    }
    chars
}

/// Whether `a` and `b` are the same text.
pub fn same_text(a: &str, b: &str) -> (same: bool)
    ensures
        same == (a@ == b@),
{
    let left: Vec<char> = chars_of(a);
    let right: Vec<char> = chars_of(b);
    if left.len() != right.len() {
        return false;
    }
    let mut i: usize = 0;
    while i < left.len()
        invariant
            left@ == a@,
            right@ == b@,
            left@.len() == right@.len(),
            i <= left.len(),
            left@.take(i as int) == right@.take(i as int),
        decreases left.len() - i,
    {
        if left[i] != right[i] {
            assert(left@[i as int] != right@[i as int]);
            return false;
        }
        assert(left@.take(i + 1) == right@.take(i + 1)) by {
            assert(left@.take(i + 1) == left@.take(i as int).push(left@[i as int]));
            assert(right@.take(i + 1) == right@.take(i as int).push(right@[i as int]));
        }
        i = i + 1;
    }
    assert(left@.take(i as int) == left@);
    assert(right@.take(i as int) == right@);
    true
}

/// `c` with an ASCII capital letter made small, any other character unchanged.
pub open spec fn ascii_lower(c: char) -> char {
    if 'A' <= c <= 'Z' {
        (c as int + 32) as char
    } else {
        c
    }
}

/// Whether `a` and `b` differ at most in the case of ASCII letters.
pub open spec fn same_ignoring_case(a: Seq<char>, b: Seq<char>) -> bool {
    &&& a.len() == b.len()
    &&& forall|i: int| 0 <= i < a.len() ==> ascii_lower(#[trigger] a[i]) == ascii_lower(b[i])
}

/// Texts that differ at most in case are interchangeable: a text is equal to
/// itself in this sense, and two that are equal to a third are equal to each
/// other.
pub proof fn law_same_ignoring_case_is_equivalence(a: Seq<char>, b: Seq<char>, c: Seq<char>)
    ensures
        same_ignoring_case(a, a),
        same_ignoring_case(a, b) ==> same_ignoring_case(b, a),
        same_ignoring_case(a, b) && same_ignoring_case(b, c) ==> same_ignoring_case(a, c),
{
    if same_ignoring_case(a, b) {
        assert forall|i: int| 0 <= i < b.len() implies ascii_lower(#[trigger] b[i]) == ascii_lower(
            a[i],
        ) by {
            assert(ascii_lower(a[i]) == ascii_lower(b[i]));
        }
        if same_ignoring_case(b, c) {
            assert forall|i: int| 0 <= i < a.len() implies ascii_lower(#[trigger] a[i])
                == ascii_lower(c[i]) by {
                assert(ascii_lower(b[i]) == ascii_lower(c[i]));
            }
        }
    }
}

/// `c` with an ASCII capital letter made small.
pub fn to_ascii_lower(c: char) -> (lower: char)
    ensures
        lower == ascii_lower(c),
{
    if 'A' <= c && c <= 'Z' {
        ((c as u8) + 32) as char
    } else {
        c
    }
}

/// Whether `a` and `b` differ at most in the case of ASCII letters.
pub fn eq_ignore_ascii_case(a: &str, b: &str) -> (same: bool)
    ensures
        same == same_ignoring_case(a@, b@),
{
    let left: Vec<char> = chars_of(a);
    let right: Vec<char> = chars_of(b);
    if left.len() != right.len() {
        return false;
    }
    let mut i: usize = 0;
    while i < left.len()
        invariant
            left@ == a@,
            right@ == b@,
            left@.len() == right@.len(),
            i <= left.len(),
            forall|k: int| 0 <= k < i ==> ascii_lower(#[trigger] left@[k]) == ascii_lower(right@[k]),
        decreases left.len() - i,
    {
        if to_ascii_lower(left[i]) != to_ascii_lower(right[i]) {
            assert(ascii_lower(left@[i as int]) != ascii_lower(right@[i as int]));
            return false;
        }
        i = i + 1;
    }
    true
}

/// Whether `c` has the Unicode property White_Space.
pub open spec fn white_space(c: char) -> bool {
    ||| '\u{9}' <= c <= '\u{d}'
    ||| c == '\u{20}'
    ||| c == '\u{85}'
    ||| c == '\u{a0}'
    ||| c == '\u{1680}'
    ||| '\u{2000}' <= c <= '\u{200a}'
    ||| c == '\u{2028}'
    ||| c == '\u{2029}'
    ||| c == '\u{202f}'
    ||| c == '\u{205f}'
    ||| c == '\u{3000}'
}

/// Whether `c` has the Unicode property White_Space.
pub fn is_white_space(c: char) -> (white: bool)
    ensures
        white == white_space(c),
{
    ('\u{9}' <= c && c <= '\u{d}') || c == '\u{20}' || c == '\u{85}' || c == '\u{a0}' || c
        == '\u{1680}' || ('\u{2000}' <= c && c <= '\u{200a}') || c == '\u{2028}' || c == '\u{2029}'
        || c == '\u{202f}' || c == '\u{205f}' || c == '\u{3000}'
}

/// Whether `text` has nothing but white space in it.
pub open spec fn blank(text: Seq<char>) -> bool {
    forall|i: int| 0 <= i < text.len() ==> white_space(#[trigger] text[i])
}

/// Whether `text` has nothing but white space in it.
pub fn is_blank(text: &str) -> (result: bool)
    ensures
        result == blank(text@),
{
    let chars: Vec<char> = chars_of(text);
    let mut i: usize = 0;
    while i < chars.len()
        invariant
            i <= chars.len(),
            chars@ == text@,
            forall|k: int| 0 <= k < i ==> white_space(#[trigger] chars@[k]),
        decreases chars.len() - i,
    {
        if !is_white_space(chars[i]) {
            assert(!white_space(text@[i as int]));
            return false;
        }
        i = i + 1;
    }
    true
}

/// A number with one more digit at its end is written with that digit behind
/// it, and a number of one digit is that digit.
pub proof fn law_decimal_grows_by_digits(n: nat, d: nat)
    requires
        d < 10,
    ensures
        decimal(d) == seq![(48 + d) as char],
        n > 0 ==> decimal(10 * n + d) == decimal(n).push((48 + d) as char),
{
    assert((10 * n + d) / 10 == n);
    assert((10 * n + d) % 10 == d);
}

/// A padded number ends in its digits, has nothing but zeros before them, and is
/// as long as asked for unless it needs more.
pub proof fn law_padding_adds_zeros(n: nat, width: nat)
    ensures
        ({
            let padded = decimal_padded(n, width);
            let digits = decimal(n);
            &&& padded.len() == (if digits.len() < width {
                width
            } else {
                digits.len()
            })
            &&& padded.skip(padded.len() - digits.len()) == digits
            &&& forall|i: int| 0 <= i < padded.len() - digits.len() ==> padded[i] == '0'
        }),
{
}

/// The last digit stands for what sixteen does not divide: one of the ten decimal
/// digits below ten, and one of the capital letters from `A` on for the rest. The
/// digits before it are the last three of the sixteenth part.
pub proof fn law_hex4_by_digits(n: u16)
    ensures
        hex4(n).len() == 4,
        n % 16 < 10 ==> hex4(n)[3] as int == 48 + n % 16,
        n % 16 >= 10 ==> hex4(n)[3] as int == 65 + (n % 16 - 10),
        hex4(n)[2] == hex4(n / 16)[3],
        hex4(n)[1] == hex4(n / 16)[2],
        hex4(n)[0] == hex4(n / 16)[1],
{
    assert(n / 16 / 16 == n / 256);
    assert(n / 16 / 256 == n / 4096);
    assert(n / 4096 % 16 == n / 4096);
}

/// A list with one more number at its end is written with that number before
/// its closing bracket, behind a comma and a space unless it is the first.
pub proof fn law_list_grows_by_items(items: Seq<nat>, n: nat)
    ensures
        list_text(Seq::empty()) == "[]"@,
        list_text(seq![n]) == "["@ + decimal(n) + "]"@,
        items.len() > 0 ==> list_text(items.push(n)) == list_text(items).drop_last() + ", "@
            + decimal(n) + "]"@,
{
    reveal_strlit("[]");
    reveal_strlit("[");
    reveal_strlit("]");
    assert(list_text(Seq::empty()) =~= "[]"@);
    assert(seq![n][0] == n);
    if items.len() > 0 {
        assert(items.push(n).drop_last() == items);
        assert(list_text(items).drop_last() =~= "["@ + joined(items));
        assert(list_text(items.push(n)) =~= list_text(items).drop_last() + ", "@ + decimal(n)
            + "]"@);
    }
}

/// Two texts are the same but for case if and only if they are so character by
/// character: characters are if they are equal, or are the capital and the small
/// form of one of the 26 letters.
pub proof fn law_case_is_of_letters(a: Seq<char>, b: Seq<char>, c: char, d: char)
    ensures
        same_ignoring_case(Seq::empty(), Seq::empty()),
        a.len() != b.len() ==> !same_ignoring_case(a, b),
        same_ignoring_case(a.push(c), b.push(d)) <==> same_ignoring_case(a, b) && (c == d || (65
            <= c as int <= 90 && d as int == c as int + 32) || (65 <= d as int <= 90 && c as int
            == d as int + 32)),
{
    let left = a.push(c);
    let right = b.push(d);
    if same_ignoring_case(left, right) {
        assert(ascii_lower(left[a.len() as int]) == ascii_lower(right[a.len() as int]));
        assert forall|i: int| 0 <= i < a.len() implies ascii_lower(#[trigger] a[i]) == ascii_lower(
            b[i],
        ) by {
            assert(ascii_lower(left[i]) == ascii_lower(right[i]));
        }
    }
    if same_ignoring_case(a, b) && ascii_lower(c) == ascii_lower(d) {
        assert forall|i: int| 0 <= i < left.len() implies ascii_lower(#[trigger] left[i])
            == ascii_lower(right[i]) by {
            if i < a.len() {
                assert(ascii_lower(a[i]) == ascii_lower(b[i]));
            }
        }
    }
}

/// A text is blank if and only if each of its characters is one of the 25 white
/// space characters of Unicode, given by their numbers.
pub proof fn law_blank_is_of_white_space(text: Seq<char>, c: char)
    ensures
        blank(Seq::empty()),
        blank(text.push(c)) <==> blank(text) && ({
            let code = c as int;
            ||| 9 <= code <= 13
            ||| code == 32
            ||| code == 133
            ||| code == 160
            ||| code == 5760
            ||| 8192 <= code <= 8202
            ||| 8232 <= code <= 8233
            ||| code == 8239
            ||| code == 8287
            ||| code == 12288
        }),
{
    let longer = text.push(c);
    if blank(longer) {
        assert(white_space(longer[text.len() as int]));
        assert forall|i: int| 0 <= i < text.len() implies white_space(#[trigger] text[i]) by {
            assert(white_space(longer[i]));
        }
    }
}

/// A capital letter is made small by going 32 numbers on, and nothing else is
/// changed.
pub proof fn law_only_capitals_change(c: char)
    ensures
        65 <= c as int <= 90 ==> ascii_lower(c) as int == c as int + 32,
        (c as int) < 65 || c as int > 90 ==> ascii_lower(c) == c,
{
}

} // verus!
