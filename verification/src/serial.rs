//! The synthetic serial number that stands in for a broken string descriptor.

use vstd::prelude::*;
use crate::bits::to_unsigned;
use crate::bits::unsigned_bits;
use crate::text::push_hex4;
use crate::text::{hex4, hex_digit};
use crate::usb::{REQUEST_LEN, USB_STRING_DESCRIPTOR_TYPE};
use crate::usb::{ReplyView, descriptor_text, le16, le32_bytes, units_at};
use crate::wide::{encode_utf16, wide_bytes};
use crate::wide::{law_utf16_round_trip, unit_bytes, utf16, utf16_units};

verus! {

/// Length of the synthetic string descriptor: two bytes of header and eleven
/// code units.
pub const SYNTHETIC_DESCRIPTOR_LEN: usize = 24;

/// Length of a reply with the synthetic string descriptor in it.
pub const SYNTHETIC_REPLY_LEN: usize = 36;

/// The lowest `n` bytes of `value`, low byte first.
pub open spec fn low_bytes(value: nat, n: nat) -> Seq<u8>
    decreases n,
{
    if n == 0 {
        Seq::empty()
    } else {
        seq![(value % 256) as u8] + low_bytes(value / 256, (n - 1) as nat)
    }
}

/// What is hashed of a device's place: the bytes of the hub handle and of the
/// port.
pub open spec fn place_bytes(handle: isize, port: u32) -> Seq<u8> {
    low_bytes(unsigned_bits(handle), (usize::BITS / 8) as nat) + le32_bytes(port)
}

/// One round of the 32-bit FNV-1a hash.
pub open spec fn fnv_round(hash: u32, byte: u8) -> u32 {
    (((hash ^ (byte as u32)) * 0x0100_0193) % 0x1_0000_0000) as u32
}

/// The 32-bit FNV-1a hash of `bytes`.
pub open spec fn fnv1a(bytes: Seq<u8>) -> u32
    decreases bytes.len(),
{
    if bytes.len() == 0 {
        0x811c_9dc5
    } else {
        fnv_round(fnv1a(bytes.drop_last()), bytes.last())
    }
}

/// The hash that labels a device's place: FNV-1a folded to 16 bits.
pub open spec fn place_hash(handle: isize, port: u32) -> u16 {
    let hash = fnv1a(place_bytes(handle, port));
    ((hash ^ (hash >> 16)) & 0xFFFF) as u16
}

/// The bytes that are hashed of a device's place.
fn hashed_bytes(handle: isize, port: u32) -> (bytes: Vec<u8>)
    ensures
        bytes@ == place_bytes(handle, port),
{
    let mut value: usize = to_unsigned(handle);
    let n: u32 = usize::BITS / 8;
    let mut bytes: Vec<u8> = Vec::new();
    let mut i: u32 = 0;
    while i < n
        invariant
            i <= n,
            n == usize::BITS / 8,
            low_bytes(unsigned_bits(handle), n as nat) == bytes@ + low_bytes(
                value as nat,
                (n - i) as nat,
            ),
        decreases n - i,
    {
        bytes.push((value % 256) as u8);
        value = value / 256;
        i = i + 1;
    }
    bytes.push((port % 0x100) as u8);
    bytes.push((port / 0x100 % 0x100) as u8);
    bytes.push((port / 0x1_0000 % 0x100) as u8);
    bytes.push((port / 0x100_0000) as u8);
    bytes
}

/// Hashes hub handle and port number to 16 bits, always the same for the same
/// place.
pub fn port_hash(handle: isize, port: u32) -> (hash: u16)
    ensures
        hash == place_hash(handle, port),
{
    let bytes: Vec<u8> = hashed_bytes(handle, port);
    let mut h: u32 = 0x811c_9dc5;
    let mut i: usize = 0;
    while i < bytes.len()
        invariant
            i <= bytes.len(),
            h == fnv1a(bytes@.take(i as int)),
        decreases bytes.len() - i,
    {
        proof {
            let longer = bytes@.take(i + 1);
            assert(longer.drop_last() == bytes@.take(i as int));
            assert(longer.last() == bytes@[i as int]);
        }
        h = (h ^ (bytes[i] as u32)).wrapping_mul(0x0100_0193);
        i = i + 1;
    }
    assert(bytes@.take(i as int) == bytes@);
    ((h ^ (h >> 16)) & 0xFFFF) as u16
}

/// The synthetic serial number of a device: `USBFIX-` and the four hexadecimal
/// digits of the hash of its place.
pub open spec fn serial_text(handle: isize, port: u32) -> Seq<char> {
    "USBFIX-"@ + hex4(place_hash(handle, port))
}

/// Makes the synthetic serial number of a device.
pub fn synthetic_serial(handle: isize, port: u32) -> (serial: String)
    ensures
        serial@ == serial_text(handle, port),
{
    let mut serial: String = String::new();
    serial.append("USBFIX-");
    push_hex4(&mut serial, port_hash(handle, port));
    serial
}

/// The synthetic string descriptor of a device.
pub open spec fn synthetic_descriptor(handle: isize, port: u32) -> Seq<u8> {
    seq![SYNTHETIC_DESCRIPTOR_LEN as u8, USB_STRING_DESCRIPTOR_TYPE] + unit_bytes(
        utf16(serial_text(handle, port)),
    )
}

/// A reply buffer with the synthetic string descriptor written behind the
/// request at its start, and nothing else changed.
pub open spec fn with_synthetic_serial(buffer: Seq<u8>, handle: isize, port: u32) -> Seq<u8> {
    buffer.take(REQUEST_LEN as int) + synthetic_descriptor(handle, port) + buffer.skip(
        SYNTHETIC_REPLY_LEN as int,
    )
}

/// An ASCII text has one code unit for each character.
proof fn lemma_ascii_units(text: Seq<char>)
    requires
        forall|i: int| 0 <= i < text.len() ==> (#[trigger] text[i] as int) < 0x80,
    ensures
        utf16(text).len() == text.len(),
    decreases text.len(),
{
    if text.len() > 0 {
        let rest = text.drop_first();
        assert forall|i: int| 0 <= i < rest.len() implies (#[trigger] rest[i] as int) < 0x80 by {
            assert(rest[i] == text[i + 1]);
        }
        lemma_ascii_units(rest);
        assert((text[0] as int) < 0x80);
    }
}

/// The synthetic serial number has eleven code units.
proof fn lemma_serial_len(handle: isize, port: u32)
    ensures
        utf16(serial_text(handle, port)).len() == 11,
        synthetic_descriptor(handle, port).len() == SYNTHETIC_DESCRIPTOR_LEN,
{
    reveal_strlit("USBFIX-");
    let text = serial_text(handle, port);
    assert(text.len() == 11);
    assert forall|i: int| 0 <= i < text.len() implies (#[trigger] text[i] as int) < 0x80 by {
        if i >= 7 {
            assert(text[i] == hex4(place_hash(handle, port))[i - 7]);
        }
    }
    lemma_ascii_units(text);
}

/// Writes a synthetic string descriptor behind the request at the start of
/// `out`. Returns the length of request and descriptor, or zero, with nothing
/// written, if the buffer is too small.
pub fn build_synthetic_serial(out: &mut [u8], handle: isize, port: u32) -> (written: u32)
    ensures
        old(out)@.len() < SYNTHETIC_REPLY_LEN ==> written == 0 && final(out)@ == old(out)@,
        old(out)@.len() >= SYNTHETIC_REPLY_LEN ==> written == SYNTHETIC_REPLY_LEN && final(out)@
            == with_synthetic_serial(old(out)@, handle, port),
        final(out)@.len() == old(out)@.len(),
{
    if out.len() < SYNTHETIC_REPLY_LEN {
        return 0;
    }
    let serial: String = synthetic_serial(handle, port);
    let text: Vec<u8> = wide_bytes(&encode_utf16(&serial));
    proof {
        lemma_serial_len(handle, port);
    }
    let ghost before = out@;
    let ghost descriptor = synthetic_descriptor(handle, port);
    out[REQUEST_LEN] = SYNTHETIC_DESCRIPTOR_LEN as u8;
    out[REQUEST_LEN + 1] = USB_STRING_DESCRIPTOR_TYPE;
    let mut i: usize = 2;
    while i < SYNTHETIC_DESCRIPTOR_LEN
        invariant
            2 <= i <= SYNTHETIC_DESCRIPTOR_LEN,
            text@ == unit_bytes(utf16(serial_text(handle, port))),
            descriptor == synthetic_descriptor(handle, port),
            descriptor.len() == SYNTHETIC_DESCRIPTOR_LEN,
            out@.len() == before.len(),
            before.len() >= SYNTHETIC_REPLY_LEN,
            out@ =~= before.take(REQUEST_LEN as int) + descriptor.take(i as int) + before.skip(
                REQUEST_LEN + i,
            ),
        decreases SYNTHETIC_DESCRIPTOR_LEN - i,
    {
        out[REQUEST_LEN + i] = text[i - 2];
        i = i + 1;
    }
    assert(descriptor.take(i as int) == descriptor);
    SYNTHETIC_REPLY_LEN as u32
}

/// Two hexadecimal digits are the same only for the same number.
proof fn lemma_hex_digit(a: nat, b: nat)
    requires
        a < 16,
        b < 16,
        hex_digit(a) == hex_digit(b),
    ensures
        a == b,
{
}

/// Two numbers have the same four hexadecimal digits only if they are the same.
proof fn lemma_hex4(a: u16, b: u16)
    requires
        hex4(a) == hex4(b),
    ensures
        a == b,
{
    let left = hex4(a);
    let right = hex4(b);
    assert(left[0] == right[0] && left[1] == right[1] && left[2] == right[2] && left[3] == right[3]);
    lemma_hex_digit((a / 4096) as nat, (b / 4096) as nat);
    lemma_hex_digit((a / 256 % 16) as nat, (b / 256 % 16) as nat);
    lemma_hex_digit((a / 16 % 16) as nat, (b / 16 % 16) as nat);
    lemma_hex_digit((a % 16) as nat, (b % 16) as nat);
}

/// Serial numbers tell places apart as far as their hashes do: two places have
/// the same serial number if and only if their hashes are the same.
pub proof fn law_serial_tells_hashes_apart(
    handle: isize,
    port: u32,
    other_handle: isize,
    other_port: u32,
)
    ensures
        serial_text(handle, port) == serial_text(other_handle, other_port) <==> place_hash(
            handle,
            port,
        ) == place_hash(other_handle, other_port),
{
    let a = place_hash(handle, port);
    let b = place_hash(other_handle, other_port);
    let prefix = "USBFIX-"@;
    if serial_text(handle, port) == serial_text(other_handle, other_port) {
        let n = prefix.len() as int;
        assert((prefix + hex4(a)).skip(n) =~= hex4(a));
        assert((prefix + hex4(b)).skip(n) =~= hex4(b));
        lemma_hex4(a, b);
    }
}

/// The synthetic descriptor replaces what stood behind the request, and nothing
/// before or behind it moves or changes.
pub proof fn law_synthetic_serial_stays_in_place(buffer: Seq<u8>, handle: isize, port: u32)
    requires
        buffer.len() >= SYNTHETIC_REPLY_LEN,
    ensures
        ({
            let written = with_synthetic_serial(buffer, handle, port);
            &&& written.len() == buffer.len()
            &&& written.take(REQUEST_LEN as int) == buffer.take(REQUEST_LEN as int)
            &&& written.subrange(REQUEST_LEN as int, SYNTHETIC_REPLY_LEN as int)
                == synthetic_descriptor(handle, port)
            &&& written.skip(SYNTHETIC_REPLY_LEN as int) == buffer.skip(SYNTHETIC_REPLY_LEN as int)
        }),
{
    lemma_serial_len(handle, port);
}

/// Whoever reads the string descriptor from a reply with the synthetic serial
/// number in it reads exactly that serial number.
pub proof fn law_synthetic_serial_reads_back(buffer: Seq<u8>, handle: isize, port: u32, reply: ReplyView)
    requires
        buffer.len() >= SYNTHETIC_REPLY_LEN,
        reply.ok,
        reply.returned >= SYNTHETIC_REPLY_LEN,
        reply.buffer == with_synthetic_serial(buffer, handle, port),
    ensures
        descriptor_text(reply) == Some(serial_text(handle, port)),
{
    lemma_serial_len(handle, port);
    let units = utf16(serial_text(handle, port));
    let descriptor = synthetic_descriptor(handle, port);
    let data = reply.data();
    assert(data.len() >= SYNTHETIC_REPLY_LEN);
    assert forall|i: int| 0 <= i < 24 implies #[trigger] data[REQUEST_LEN + i] == descriptor[i] by {}
    assert(data[REQUEST_LEN + 0] == 24);
    let read = units_at(data, REQUEST_LEN + 2, 11);
    assert forall|i: int| 0 <= i < 11 implies read[i] == units[i] by {
        assert(data[REQUEST_LEN + (2 + 2 * i)] == descriptor[2 + 2 * i]);
        assert(data[REQUEST_LEN + (3 + 2 * i)] == descriptor[3 + 2 * i]);
        assert(descriptor[2 + 2 * i] == unit_bytes(units)[2 * i]);
        assert(descriptor[3 + 2 * i] == unit_bytes(units)[2 * i + 1]);
        assert((2 * i + 1) / 2 == i);
    }
    assert(read =~= units);
    law_utf16_round_trip(serial_text(handle, port));
}

/// The number that bytes stand for if each counts 256 times as much as the one
/// before it.
pub open spec fn number_of(bytes: Seq<u8>) -> nat
    decreases bytes.len(),
{
    if bytes.len() == 0 {
        0
    } else {
        bytes[0] as nat + 256 * number_of(bytes.drop_first())
    }
}

/// The lowest bytes of a number stand for it if there are enough of them.
proof fn lemma_low_bytes(value: nat, n: nat)
    ensures
        low_bytes(value, n).len() == n,
        n == 4 && value <= 0xFFFF_FFFF ==> number_of(low_bytes(value, n)) == value,
        n == 8 && value <= 0xFFFF_FFFF_FFFF_FFFF ==> number_of(low_bytes(value, n)) == value,
    decreases n,
{
    if n > 0 {
        lemma_low_bytes(value / 256, (n - 1) as nat);
    }
    lemma_low_bytes_value(value, n);
    if n == 4 {
        assert(vstd::arithmetic::power::pow(256, 4) == 0x1_0000_0000) by {
            reveal_with_fuel(vstd::arithmetic::power::pow, 5);
        }
    }
    if n == 8 {
        assert(vstd::arithmetic::power::pow(256, 8) == 0x1_0000_0000_0000_0000) by {
            reveal_with_fuel(vstd::arithmetic::power::pow, 9);
        }
    }
}

/// The lowest `n` bytes of a number below the `n`-th power of 256 stand for it.
proof fn lemma_low_bytes_value(value: nat, n: nat)
    ensures
        value < vstd::arithmetic::power::pow(256, n) ==> number_of(low_bytes(value, n)) == value,
    decreases n,
{
    reveal(vstd::arithmetic::power::pow);
    if n > 0 {
        let rest = low_bytes(value / 256, (n - 1) as nat);
        let bytes = low_bytes(value, n);
        lemma_low_bytes_value(value / 256, (n - 1) as nat);
        assert(bytes.drop_first() =~= rest);
        assert(bytes[0] == value % 256);
        let bound = vstd::arithmetic::power::pow(256, (n - 1) as nat);
        assert(vstd::arithmetic::power::pow(256, n) == 256 * bound);
        if value < 256 * bound {
            assert(value / 256 < bound);
        }
    }
}

/// What is hashed tells the place: its last four bytes stand for the port, and
/// those before them for the handle. So different places never have the same
/// bytes hashed.
pub proof fn law_hashed_bytes_tell_the_place(
    handle: isize,
    port: u32,
    other_handle: isize,
    other_port: u32,
)
    ensures
        ({
            let bytes = place_bytes(handle, port);
            let n = bytes.len() - 4;
            &&& bytes.len() == usize::BITS / 8 + 4
            &&& bytes[n] + bytes[n + 1] * 256 + bytes[n + 2] * 65536 + bytes[n + 3] * 16777216
                == port
            &&& handle >= 0 ==> number_of(bytes.take(n)) == handle
            &&& handle < 0 ==> number_of(bytes.take(n)) == handle + usize::MAX + 1
        }),
        place_bytes(handle, port) == place_bytes(other_handle, other_port) <==> handle
            == other_handle && port == other_port,
{
    lemma_place_bytes(handle, port);
    lemma_place_bytes(other_handle, other_port);
}

/// Handle and port can be read from what is hashed.
proof fn lemma_place_bytes(handle: isize, port: u32)
    ensures
        ({
            let bytes = place_bytes(handle, port);
            let n = bytes.len() - 4;
            &&& bytes.len() == usize::BITS / 8 + 4
            &&& bytes[n] + bytes[n + 1] * 256 + bytes[n + 2] * 65536 + bytes[n + 3] * 16777216
                == port
            &&& number_of(bytes.take(n)) == unsigned_bits(handle)
        }),
{
    let n = (usize::BITS / 8) as nat;
    let low = low_bytes(unsigned_bits(handle), n);
    let bytes = place_bytes(handle, port);
    crate::bits::law_unsigned_bits(handle);
    lemma_low_bytes(unsigned_bits(handle), n);
    assert(usize::BITS == 32 ==> usize::MAX == 0xFFFF_FFFF);
    assert(usize::BITS == 64 ==> usize::MAX == 0xFFFF_FFFF_FFFF_FFFF);
    assert(bytes.take(n as int) =~= low);
    assert(bytes.skip(n as int) =~= le32_bytes(port));
    assert(bytes[n as int] == le32_bytes(port)[0] && bytes[n as int + 1] == le32_bytes(port)[1]);
    assert(bytes[n as int + 2] == le32_bytes(port)[2] && bytes[n as int + 3] == le32_bytes(port)[3]);
}

/// Multiplying by the FNV prime and then by its inverse leaves a number as it was,
/// however often 32 bits overflow.
proof fn lemma_fnv_prime_inverse(x: int, over: int)
    requires
        0 <= x < 0x1_0000_0000,
    ensures
        (x * 0x0100_0193 - over * 0x1_0000_0000) * 0x359C_449B % 0x1_0000_0000 == x,
{
    let multiple: int = x * 3513497 - over * 0x359C_449B;
    assert((x * 0x0100_0193 - over * 0x1_0000_0000) * 0x359C_449B == 0x1_0000_0000 * multiple + x);
    vstd::arithmetic::div_mod::lemma_mod_multiples_vanish(multiple, x, 0x1_0000_0000);
    vstd::arithmetic::div_mod::lemma_small_mod(x as nat, 0x1_0000_0000);
}

/// A product without its overflow.
proof fn lemma_without_overflow(product: int)
    ensures
        product % 0x1_0000_0000 == product - product / 0x1_0000_0000 * 0x1_0000_0000,
{
}

/// A round of the hash loses nothing: multiplied by the inverse of the FNV prime
/// it gives back the hash before it with the byte flipped into it.
pub proof fn law_fnv_round_can_be_undone(hash: u32, byte: u8)
    ensures
        fnv_round(hash, byte) * 0x359C_449B % 0x1_0000_0000 == hash ^ (byte as u32),
{
    let mixed: u32 = hash ^ (byte as u32);
    let product: int = mixed * 0x0100_0193;
    lemma_without_overflow(product);
    lemma_fnv_prime_inverse(mixed as int, product / 0x1_0000_0000);
}

/// The hash goes over the bytes one by one, from the offset basis of FNV-1a on,
/// each in one round.
pub proof fn law_hash_goes_by_bytes(bytes: Seq<u8>, byte: u8)
    ensures
        fnv1a(Seq::empty()) == 0x811c_9dc5,
        fnv1a(bytes.push(byte)) == fnv_round(fnv1a(bytes), byte),
        fnv1a(bytes.push(byte)) * 0x359C_449B % 0x1_0000_0000 == fnv1a(bytes) ^ (byte as u32),
{
    assert(bytes.push(byte).drop_last() == bytes);
    law_fnv_round_can_be_undone(fnv1a(bytes), byte);
}

/// The label of a place joins both halves of the hash of its bytes: flipped with
/// one half it gives the other.
pub proof fn law_label_joins_the_halves(handle: isize, port: u32)
    ensures
        ({
            let hash = fnv1a(place_bytes(handle, port));
            place_hash(handle, port) ^ ((hash % 0x10000) as u16) == (hash / 0x10000) as u16
        }),
{
    let hash = fnv1a(place_bytes(handle, port));
    assert((((hash ^ (hash >> 16)) & 0xFFFF) as u16) ^ ((hash % 0x10000) as u16) == (hash
        / 0x10000) as u16) by (bit_vector);
}

/// The serial number is eleven characters long: `USBFIX-`, and the label in
/// hexadecimal.
pub proof fn law_serial_shows_the_label(handle: isize, port: u32)
    ensures
        serial_text(handle, port).len() == 11,
        serial_text(handle, port).take(7) == seq!['U', 'S', 'B', 'F', 'I', 'X', '-'],
        serial_text(handle, port).skip(7) == hex4(place_hash(handle, port)),
{
    reveal_strlit("USBFIX-");
    let text = serial_text(handle, port);
    assert(text.take(7) =~= seq!['U', 'S', 'B', 'F', 'I', 'X', '-']);
    assert(text.skip(7) =~= hex4(place_hash(handle, port)));
}

/// The code unit of an ASCII character is its number.
proof fn lemma_ascii_value(c: char)
    requires
        (c as int) < 0x80,
    ensures
        utf16_units(c).len() == 1,
        utf16_units(c)[0] == c as int,
{
}

/// The code units of an ASCII text are the numbers of its characters.
proof fn lemma_ascii_values(text: Seq<char>, i: int)
    requires
        forall|k: int| 0 <= k < text.len() ==> (#[trigger] text[k] as int) < 0x80,
        0 <= i < text.len(),
    ensures
        utf16(text).len() == text.len(),
        utf16(text)[i] == text[i] as int,
    decreases text.len(),
{
    lemma_ascii_units(text);
    let rest = text.drop_first();
    assert forall|k: int| 0 <= k < rest.len() implies (#[trigger] rest[k] as int) < 0x80 by {
        assert(rest[k] == text[k + 1]);
    }
    assert((text[0] as int) < 0x80);
    lemma_ascii_value(text[0]);
    if i > 0 {
        lemma_ascii_values(rest, i - 1);
        assert(utf16(text)[i] == utf16(rest)[i - 1]);
    }
}

/// Byte by byte, an answered reply holds what it held in its first twelve bytes
/// and behind the first 36; between them stand the length 24, the type 3, and
/// each character of the serial number in two bytes, of which the second is zero.
pub proof fn law_answer_by_bytes(buffer: Seq<u8>, handle: isize, port: u32, i: int)
    requires
        buffer.len() >= 36,
        0 <= i < buffer.len(),
    ensures
        ({
            let answer = with_synthetic_serial(buffer, handle, port);
            &&& answer.len() == buffer.len()
            &&& i < 12 || i >= 36 ==> answer[i] == buffer[i]
            &&& i == 12 ==> answer[i] == 24
            &&& i == 13 ==> answer[i] == 3
            &&& 14 <= i < 36 && i % 2 == 0 ==> answer[i] == serial_text(handle, port)[(i - 14)
                / 2] as int
            &&& 14 <= i < 36 && i % 2 == 1 ==> answer[i] == 0
        }),
{
    lemma_serial_len(handle, port);
    reveal_strlit("USBFIX-");
    let text = serial_text(handle, port);
    let descriptor = synthetic_descriptor(handle, port);
    let answer = with_synthetic_serial(buffer, handle, port);
    assert forall|k: int| 0 <= k < text.len() implies (#[trigger] text[k] as int) < 0x80 by {
        if k >= 7 {
            assert(text[k] == hex4(place_hash(handle, port))[k - 7]);
        }
    }
    if 12 <= i < 36 {
        assert(answer[i] == descriptor[i - 12]);
    }
    if 14 <= i < 36 {
        let k = (i - 14) / 2;
        lemma_ascii_values(text, k);
        assert(text[k] as int >= 0);
        assert(descriptor[i - 12] == unit_bytes(utf16(text))[i - 14]);
    }
}

} // verus!
