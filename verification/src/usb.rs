//! USB hub requests and replies, byte by byte: descriptor requests, connection
//! information, string descriptors and device interface paths.

use vstd::prelude::*;
use crate::wide::{from_utf16_lossy, read_text};
use crate::wide::{text_before_nul, unit_bytes, utf16_lossy};

verus! {

/// Control code that asks a hub about itself.
pub const IOCTL_USB_GET_NODE_INFORMATION: u32 = 0x00220408;

/// Control code that asks a hub what is connected to a port.
pub const IOCTL_USB_GET_NODE_CONNECTION_INFORMATION_EX: u32 = 0x00220448;

/// Control code that asks a hub for a descriptor of the device on a port.
pub const IOCTL_USB_GET_DESCRIPTOR_FROM_NODE_CONNECTION: u32 = 0x00220410;

/// Descriptor type of a string descriptor.
pub const USB_STRING_DESCRIPTOR_TYPE: u8 = 3;

/// Descriptor type of a device descriptor.
pub const USB_DEVICE_DESCRIPTOR_TYPE: u8 = 1;

/// Error code with which the hub driver reports a broken string descriptor.
pub const ERROR_GEN_FAILURE: u32 = 0x1F;

/// Length of a descriptor request, which precedes the descriptor itself.
pub const REQUEST_LEN: usize = 12;

/// Length of the buffer for connection information.
pub const CONNECTION_BUFFER_LEN: usize = 512;

/// Length of connection information up to the product ID.
pub const CONNECTION_IDS_LEN: usize = 16;

/// Length of connection information up to the connection status.
pub const CONNECTION_STATUS_LEN: usize = 35;

/// Connection status of a port with a working device on it.
pub const DEVICE_CONNECTED: u32 = 1;

/// Length of a device descriptor.
pub const DEVICE_DESCRIPTOR_LEN: usize = 18;

/// Place of the product string index in a device descriptor.
pub const PRODUCT_INDEX_AT: usize = 15;

/// Room for a string descriptor: two bytes of header and 126 code units.
pub const STRING_DESCRIPTOR_LEN: usize = 254;

/// Language ID of the string descriptors asked for: English (US).
pub const ENGLISH_US: u16 = 0x0409;

/// Length of the information that a hub gives about itself.
pub const NODE_INFORMATION_LEN: usize = 76;

/// Place of the number of ports in the information about a hub.
pub const NUMBER_OF_PORTS_AT: usize = 6;

/// Length of the size field before a device interface path.
pub const DETAIL_SIZE_LEN: usize = 4;

/// The shortest interface detail that is looked at.
pub const DETAIL_MIN_LEN: u32 = 6;

/// The two bytes of `n`, low byte first.
pub open spec fn le16_bytes(n: u16) -> Seq<u8> {
    seq![(n % 256) as u8, (n / 256) as u8]
}

/// The four bytes of `n`, low byte first.
pub open spec fn le32_bytes(n: u32) -> Seq<u8> {
    seq![
        (n % 0x100) as u8,
        (n / 0x100 % 0x100) as u8,
        (n / 0x1_0000 % 0x100) as u8,
        (n / 0x100_0000) as u8,
    ]
}

/// The number in the two bytes at `at`, low byte first.
pub open spec fn le16(bytes: Seq<u8>, at: int) -> u16 {
    (bytes[at] + 0x100 * bytes[at + 1]) as u16
}

/// The number in the four bytes at `at`, low byte first.
pub open spec fn le32(bytes: Seq<u8>, at: int) -> u32 {
    (bytes[at] + 0x100 * bytes[at + 1] + 0x1_0000 * bytes[at + 2] + 0x100_0000 * bytes[at + 3]) as u32
}

/// `n` zero bytes.
pub open spec fn zeros(n: nat) -> Seq<u8> {
    Seq::new(n, |i: int| 0u8)
}

fn push_u16(out: &mut Vec<u8>, n: u16)
    ensures
        final(out)@ == old(out)@ + le16_bytes(n),
{
    out.push((n % 256) as u8);
    out.push((n / 256) as u8);
}

fn push_u32(out: &mut Vec<u8>, n: u32)
    ensures
        final(out)@ == old(out)@ + le32_bytes(n),
{
    out.push((n % 0x100) as u8);
    out.push((n / 0x100 % 0x100) as u8);
    out.push((n / 0x1_0000 % 0x100) as u8);
    out.push((n / 0x100_0000) as u8);
}

fn push_zeros(out: &mut Vec<u8>, n: usize)
    ensures
        final(out)@ == old(out)@ + zeros(n as nat),
{
    let ghost before = out@;
    let mut i: usize = 0;
    while i < n
        invariant
            i <= n,
            out@ == before + zeros(i as nat),
        decreases n - i,
    {
        out.push(0);
        i = i + 1;
    }
}

fn read_u16(bytes: &[u8], at: usize) -> (n: u16)
    requires
        at + 2 <= bytes@.len(),
    ensures
        n == le16(bytes@, at as int),
{
    bytes[at] as u16 + 0x100 * (bytes[at + 1] as u16)
}

fn read_u32(bytes: &[u8], at: usize) -> (n: u32)
    requires
        at + 4 <= bytes@.len(),
    ensures
        n == le32(bytes@, at as int),
{
    bytes[at] as u32 + 0x100 * (bytes[at + 1] as u32) + 0x1_0000 * (bytes[at + 2] as u32)
        + 0x100_0000 * (bytes[at + 3] as u32)
}

/// A request for a descriptor of the device on a hub port.
#[derive(Clone, Copy, Debug, PartialEq, Eq, Structural)]
pub struct DescriptorRequest {
    pub connection_index: u32,
    pub bm_request: u8,
    pub b_request: u8,
    pub w_value: u16,
    pub w_index: u16,
    pub w_length: u16,
}

impl DescriptorRequest {
    /// The bytes of the request, as they stand in a buffer.
    pub open spec fn bytes(self) -> Seq<u8> {
        le32_bytes(self.connection_index) + seq![self.bm_request, self.b_request] + le16_bytes(
            self.w_value,
        ) + le16_bytes(self.w_index) + le16_bytes(self.w_length)
    }

    /// The type of the descriptor asked for, the high byte of `w_value`.
    pub open spec fn descriptor_type(self) -> u8 {
        (self.w_value / 256) as u8
    }

    /// Writes the request as bytes.
    pub fn encode(&self) -> (bytes: Vec<u8>)
        ensures
            bytes@ == self.bytes(),
            bytes@.len() == REQUEST_LEN,
    {
        let mut bytes: Vec<u8> = Vec::new();
        push_u32(&mut bytes, self.connection_index);
        bytes.push(self.bm_request);
        bytes.push(self.b_request);
        push_u16(&mut bytes, self.w_value);
        push_u16(&mut bytes, self.w_index);
        push_u16(&mut bytes, self.w_length);
        bytes
    }

    /// Reads a request from the start of a buffer; `None` if the buffer is too
    /// short for one.
    pub fn decode(bytes: &[u8]) -> (request: Option<DescriptorRequest>)
        ensures
            request == request_at_start(bytes@),
    {
        if bytes.len() < REQUEST_LEN {
            return None;
        }
        Some(
            DescriptorRequest {
                connection_index: read_u32(bytes, 0),
                bm_request: bytes[4],
                b_request: bytes[5],
                w_value: read_u16(bytes, 6),
                w_index: read_u16(bytes, 8),
                w_length: read_u16(bytes, 10),
            },
        )
    }
}

/// The request at the start of `bytes`, if they are long enough for one.
pub open spec fn request_at_start(bytes: Seq<u8>) -> Option<DescriptorRequest> {
    if bytes.len() < REQUEST_LEN {
        None
    } else {
        Some(
            DescriptorRequest {
                connection_index: le32(bytes, 0),
                bm_request: bytes[4],
                b_request: bytes[5],
                w_value: le16(bytes, 6),
                w_index: le16(bytes, 8),
                w_length: le16(bytes, 10),
            },
        )
    }
}

/// Writing a number as two bytes and reading it back gives the number.
proof fn lemma_le16(n: u16, rest: Seq<u8>)
    ensures
        le16(le16_bytes(n) + rest, 0) == n,
{
}

/// Writing a number as four bytes and reading it back gives the number.
proof fn lemma_le32(n: u32, rest: Seq<u8>)
    ensures
        le32(le32_bytes(n) + rest, 0) == n,
{
}

/// A request that was written is read back as it was, whatever follows it in
/// the buffer.
pub proof fn law_request_round_trip(request: DescriptorRequest, rest: Seq<u8>)
    ensures
        request_at_start(request.bytes() + rest) == Some(request),
{
    let all = request.bytes() + rest;
    lemma_le32(request.connection_index, all.skip(4));
    lemma_le16(request.w_value, all.skip(8));
    lemma_le16(request.w_index, all.skip(10));
    lemma_le16(request.w_length, all.skip(12));
    let index = le32_bytes(request.connection_index);
    let value = le16_bytes(request.w_value);
    let language = le16_bytes(request.w_index);
    let length = le16_bytes(request.w_length);
    assert(all[0] == index[0] && all[1] == index[1] && all[2] == index[2] && all[3] == index[3]);
    assert(all[6] == value[0] && all[7] == value[1]);
    assert(all[8] == language[0] && all[9] == language[1]);
    assert(all[10] == length[0] && all[11] == length[1]);
}

/// A request to a hub: the control code, the buffer, and how many bytes of the
/// buffer are handed over as input. The reply is written over the buffer.
#[derive(Debug)]
pub struct IoRequest {
    pub code: u32,
    pub input_len: u32,
    pub buffer: Vec<u8>,
}

/// What a request to a hub says.
#[verifier::ext_equal]
pub struct RequestView {
    pub code: u32,
    pub input_len: u32,
    pub buffer: Seq<u8>,
}

impl View for IoRequest {
    type V = RequestView;

    open spec fn view(&self) -> RequestView {
        RequestView { code: self.code, input_len: self.input_len, buffer: self.buffer@ }
    }
}

/// The answer to a request: whether it succeeded, the error code if it did not,
/// how many bytes the driver returned, and the buffer.
#[derive(Debug)]
pub struct IoReply {
    pub ok: bool,
    pub error: u32,
    pub returned: u32,
    pub buffer: Vec<u8>,
}

/// What the answer to a request says.
#[verifier::ext_equal]
pub struct ReplyView {
    pub ok: bool,
    pub error: u32,
    pub returned: u32,
    pub buffer: Seq<u8>,
}

impl View for IoReply {
    type V = ReplyView;

    open spec fn view(&self) -> ReplyView {
        ReplyView {
            ok: self.ok,
            error: self.error,
            returned: self.returned,
            buffer: self.buffer@,
        }
    }
}

impl ReplyView {
    /// The bytes that the driver returned.
    pub open spec fn data(self) -> Seq<u8> {
        if self.returned < self.buffer.len() {
            self.buffer.take(self.returned as int)
        } else {
            self.buffer
        }
    }
}

impl IoReply {
    /// How many bytes of the buffer the driver returned.
    fn data_len(&self) -> (len: usize)
        ensures
            len == self@.data().len(),
            len <= self.buffer@.len(),
    {
        if (self.returned as u64) < self.buffer.len() as u64 {
            self.returned as usize
        } else {
            self.buffer.len()
        }
    }
}

/// The request for what is connected to `port`.
pub open spec fn connection_request(port: u32) -> RequestView {
    RequestView {
        code: IOCTL_USB_GET_NODE_CONNECTION_INFORMATION_EX,
        input_len: 4,
        buffer: le32_bytes(port) + zeros((CONNECTION_BUFFER_LEN - 4) as nat),
    }
}

/// Makes the request for what is connected to `port`.
pub fn connection_info_request(port: u32) -> (request: IoRequest)
    ensures
        request@ == connection_request(port),
{
    let mut buffer: Vec<u8> = Vec::new();
    push_u32(&mut buffer, port);
    push_zeros(&mut buffer, CONNECTION_BUFFER_LEN - 4);
    IoRequest { code: IOCTL_USB_GET_NODE_CONNECTION_INFORMATION_EX, input_len: 4, buffer }
}

/// The request that asks the device on `port` for its descriptor of type `kind`
/// with the given index and language, up to `len` bytes long.
pub open spec fn get_descriptor(port: u32, kind: u8, index: u8, language: u16, len: u16) -> RequestView {
    RequestView {
        code: IOCTL_USB_GET_DESCRIPTOR_FROM_NODE_CONNECTION,
        input_len: (REQUEST_LEN + len) as u32,
        buffer: (DescriptorRequest {
            connection_index: port,
            bm_request: 0x80,
            b_request: 0x06,
            w_value: (kind * 256 + index) as u16,
            w_index: language,
            w_length: len,
        }).bytes() + zeros(len as nat),
    }
}

fn descriptor_request(port: u32, kind: u8, index: u8, language: u16, len: u16) -> (request: IoRequest)
    ensures
        request@ == get_descriptor(port, kind, index, language, len),
{
    let header: DescriptorRequest = DescriptorRequest {
        connection_index: port,
        bm_request: 0x80,
        b_request: 0x06,
        w_value: kind as u16 * 256 + index as u16,
        w_index: language,
        w_length: len,
    };
    let mut buffer: Vec<u8> = header.encode();
    push_zeros(&mut buffer, len as usize);
    IoRequest {
        code: IOCTL_USB_GET_DESCRIPTOR_FROM_NODE_CONNECTION,
        input_len: REQUEST_LEN as u32 + len as u32,
        buffer,
    }
}

/// The request for the device descriptor of the device on `port`.
pub open spec fn device_request(port: u32) -> RequestView {
    get_descriptor(port, USB_DEVICE_DESCRIPTOR_TYPE, 0, 0, DEVICE_DESCRIPTOR_LEN as u16)
}

/// Makes the request for the device descriptor of the device on `port`.
pub fn device_descriptor_request(port: u32) -> (request: IoRequest)
    ensures
        request@ == device_request(port),
{
    descriptor_request(port, USB_DEVICE_DESCRIPTOR_TYPE, 0, 0, DEVICE_DESCRIPTOR_LEN as u16)
}

/// The request for string descriptor `index` of the device on `port`.
pub open spec fn string_request(port: u32, index: u8) -> RequestView {
    get_descriptor(
        port,
        USB_STRING_DESCRIPTOR_TYPE,
        index,
        ENGLISH_US,
        STRING_DESCRIPTOR_LEN as u16,
    )
}

/// Makes the request for string descriptor `index` of the device on `port`.
pub fn string_descriptor_request(port: u32, index: u8) -> (request: IoRequest)
    ensures
        request@ == string_request(port, index),
{
    descriptor_request(
        port,
        USB_STRING_DESCRIPTOR_TYPE,
        index,
        ENGLISH_US,
        STRING_DESCRIPTOR_LEN as u16,
    )
}

/// The request for what a hub says of itself.
pub open spec fn node_request() -> RequestView {
    RequestView {
        code: IOCTL_USB_GET_NODE_INFORMATION,
        input_len: 0,
        buffer: zeros(NODE_INFORMATION_LEN as nat),
    }
}

/// Makes the request for what a hub says of itself.
pub fn node_information_request() -> (request: IoRequest)
    ensures
        request@ == node_request(),
{
    let mut buffer: Vec<u8> = Vec::new();
    push_zeros(&mut buffer, NODE_INFORMATION_LEN);
    IoRequest { code: IOCTL_USB_GET_NODE_INFORMATION, input_len: 0, buffer }
}

/// Vendor and product ID in connection information.
pub open spec fn vid_pid(reply: ReplyView) -> Option<(u16, u16)> {
    if reply.ok && reply.data().len() >= CONNECTION_IDS_LEN {
        Some((le16(reply.data(), 12), le16(reply.data(), 14)))
    } else {
        None
    }
}

/// Reads vendor and product ID from connection information; `None` if the
/// request failed or too little came back.
pub fn query_vid_pid(reply: &IoReply) -> (ids: Option<(u16, u16)>)
    ensures
        ids == vid_pid(reply@),
{
    if !reply.ok || reply.data_len() < CONNECTION_IDS_LEN {
        return None;
    }
    Some((read_u16(&reply.buffer, 12), read_u16(&reply.buffer, 14)))
}

/// The index of the product string in a device descriptor.
pub open spec fn product_index(reply: ReplyView) -> Option<u8> {
    let data = reply.data();
    let at = REQUEST_LEN + PRODUCT_INDEX_AT;
    if reply.ok && data.len() > at && data[at] != 0 {
        Some(data[at])
    } else {
        None
    }
}

/// Reads the index of the product string from a device descriptor; `None` if
/// the request failed, too little came back, or the device has no such string.
pub fn query_iproduct_index(reply: &IoReply) -> (index: Option<u8>)
    ensures
        index == product_index(reply@),
{
    if !reply.ok || reply.data_len() <= REQUEST_LEN + PRODUCT_INDEX_AT {
        return None;
    }
    let index: u8 = reply.buffer[REQUEST_LEN + PRODUCT_INDEX_AT];
    if index == 0 {
        None
    } else {
        Some(index)
    }
}

/// `n` code units that stand in `bytes` from `start` on, low byte first.
pub open spec fn units_at(bytes: Seq<u8>, start: int, n: nat) -> Seq<u16> {
    Seq::new(n, |i: int| le16(bytes, start + 2 * i))
}

/// Reads `n` code units that stand in `bytes` from `start` on.
fn read_units(bytes: &[u8], start: usize, n: usize) -> (units: Vec<u16>)
    requires
        start + 2 * n <= bytes@.len(),
    ensures
        units@ == units_at(bytes@, start as int, n as nat),
{
    let mut units: Vec<u16> = Vec::new();
    let mut i: usize = 0;
    while i < n
        invariant
            i <= n,
            start + 2 * n <= bytes.len(),
            units@ == units_at(bytes@, start as int, i as nat),
        decreases n - i,
    {
        units.push(read_u16(bytes, start + 2 * i));
        i = i + 1;
    }
    units
}

/// Whether `data` holds a string descriptor behind the request, with at least
/// one whole code unit and no half of one.
pub open spec fn holds_string(data: Seq<u8>) -> bool {
    &&& data.len() >= REQUEST_LEN + 2
    &&& data[REQUEST_LEN as int] > 2
    &&& data[REQUEST_LEN as int] % 2 == 0
    &&& data.len() >= REQUEST_LEN + data[REQUEST_LEN as int]
}

/// The text of the string descriptor in a reply.
pub open spec fn descriptor_text(reply: ReplyView) -> Option<Seq<char>> {
    let data = reply.data();
    if reply.ok && holds_string(data) {
        let n = ((data[REQUEST_LEN as int] - 2) / 2) as nat;
        Some(utf16_lossy(units_at(data, REQUEST_LEN + 2, n)))
    } else {
        None
    }
}

/// What `text` holds, if anything.
pub open spec fn opt_text(text: Option<String>) -> Option<Seq<char>> {
    match text {
        Some(text) => Some(text@),
        None => None,
    }
}

/// Reads the text of a string descriptor; `None` if the request failed, or the
/// descriptor is cut off, empty or of odd length.
pub fn query_string_descriptor(reply: &IoReply) -> (text: Option<String>)
    ensures
        opt_text(text) == descriptor_text(reply@),
{
    let len: usize = reply.data_len();
    if !reply.ok || len < REQUEST_LEN + 2 {
        return None;
    }
    let descriptor_len: usize = reply.buffer[REQUEST_LEN] as usize;
    if descriptor_len <= 2 || descriptor_len % 2 != 0 || len < REQUEST_LEN + descriptor_len {
        return None;
    }
    let n: usize = (descriptor_len - 2) / 2;
    let units: Vec<u16> = read_units(&reply.buffer, REQUEST_LEN + 2, n);
    assert(units@ =~= units_at(reply@.data(), REQUEST_LEN + 2, n as nat));
    Some(from_utf16_lossy(&units))
}

/// Whether a probe for a string descriptor shows broken firmware: the request
/// failed with a general failure.
pub open spec fn probe_fails(reply: ReplyView) -> bool {
    !reply.ok && reply.error == ERROR_GEN_FAILURE
}

/// Whether a probe for a string descriptor shows broken firmware.
pub fn probe_string_descriptor_fails(reply: &IoReply) -> (fails: bool)
    ensures
        fails == probe_fails(reply@),
{
    !reply.ok && reply.error == ERROR_GEN_FAILURE
}

/// Vendor and product ID of the device on a port, if there is a device that is
/// not itself a hub.
pub open spec fn port_device(reply: ReplyView) -> Option<(u16, u16)> {
    let data = reply.data();
    if reply.ok && data.len() >= CONNECTION_STATUS_LEN && le32(data, 31) == DEVICE_CONNECTED
        && data[24] == 0 {
        Some((le16(data, 12), le16(data, 14)))
    } else {
        None
    }
}

/// Reads vendor and product ID of the device on a port; `None` if the request
/// failed, too little came back, nothing is connected, or it is a hub.
pub fn connected_device(reply: &IoReply) -> (ids: Option<(u16, u16)>)
    ensures
        ids == port_device(reply@),
{
    if !reply.ok || reply.data_len() < CONNECTION_STATUS_LEN {
        return None;
    }
    if read_u32(&reply.buffer, 31) != DEVICE_CONNECTED || reply.buffer[24] != 0 {
        return None;
    }
    Some((read_u16(&reply.buffer, 12), read_u16(&reply.buffer, 14)))
}

/// The number of ports in what a hub says of itself; none if it did not answer.
pub open spec fn port_count(reply: ReplyView) -> u8 {
    if reply.ok && reply.buffer.len() > NUMBER_OF_PORTS_AT {
        reply.buffer[NUMBER_OF_PORTS_AT as int]
    } else {
        0
    }
}

/// Reads the number of ports from what a hub says of itself.
pub fn hub_port_count(reply: &IoReply) -> (count: u8)
    ensures
        count == port_count(reply@),
{
    if reply.ok && reply.buffer.len() > NUMBER_OF_PORTS_AT {
        reply.buffer[NUMBER_OF_PORTS_AT]
    } else {
        0
    }
}

/// The buffer for interface detail of `size` bytes. It starts with the size of
/// the detail's fixed part, which is smaller where the structure is packed.
pub open spec fn detail_bytes(size: u32, packed: bool) -> Seq<u8> {
    le32_bytes(
        if packed {
            6
        } else {
            8
        },
    ) + zeros((size - DETAIL_SIZE_LEN) as nat)
}

/// Makes the buffer for interface detail of `size` bytes.
pub fn detail_buffer(size: u32, packed: bool) -> (buffer: Vec<u8>)
    requires
        size >= DETAIL_MIN_LEN,
    ensures
        buffer@ == detail_bytes(size, packed),
{
    let mut buffer: Vec<u8> = Vec::new();
    if packed {
        push_u32(&mut buffer, 6);
    } else {
        push_u32(&mut buffer, 8);
    }
    push_zeros(&mut buffer, size as usize - DETAIL_SIZE_LEN);
    buffer
}

/// The path in interface detail: the code units behind the size field, up to
/// the first null.
pub open spec fn detail_path(detail: Seq<u8>) -> Seq<char> {
    let n = if detail.len() < DETAIL_SIZE_LEN {
        0
    } else {
        ((detail.len() - DETAIL_SIZE_LEN) / 2) as nat
    };
    text_before_nul(units_at(detail, DETAIL_SIZE_LEN as int, n))
}

/// Reads the path in interface detail.
pub fn device_path(detail: &[u8]) -> (path: String)
    ensures
        path@ == detail_path(detail@),
{
    let n: usize = if detail.len() < DETAIL_SIZE_LEN {
        0
    } else {
        (detail.len() - DETAIL_SIZE_LEN) / 2
    };
    let units: Vec<u16> = if n == 0 {
        Vec::new()
    } else {
        read_units(detail, DETAIL_SIZE_LEN, n)
    };
    assert(units@ =~= units_at(detail@, DETAIL_SIZE_LEN as int, n as nat));
    read_text(&units)
}

/// Bytes and numbers stand for each other with each byte counting 256 times as
/// much as the one before it.
pub proof fn law_low_byte_comes_first(n: u16, m: u32, bytes: Seq<u8>, at: int)
    requires
        0 <= at,
        at + 4 <= bytes.len(),
    ensures
        le16_bytes(n).len() == 2,
        le16_bytes(n)[0] + le16_bytes(n)[1] * 256 == n,
        le32_bytes(m).len() == 4,
        le32_bytes(m)[0] + le32_bytes(m)[1] * 256 + le32_bytes(m)[2] * 65536 + le32_bytes(m)[3]
            * 16777216 == m,
        le16(bytes, at) == bytes[at] + bytes[at + 1] * 256,
        le32(bytes, at) == bytes[at] + bytes[at + 1] * 256 + bytes[at + 2] * 65536 + bytes[at + 3]
            * 16777216,
{
}

/// Each field of a request has its place in the twelve bytes.
pub proof fn law_request_layout(request: DescriptorRequest)
    ensures
        ({
            let bytes = request.bytes();
            &&& bytes.len() == 12
            &&& bytes[0] + bytes[1] * 256 + bytes[2] * 65536 + bytes[3] * 16777216
                == request.connection_index
            &&& bytes[4] == request.bm_request
            &&& bytes[5] == request.b_request
            &&& bytes[6] + bytes[7] * 256 == request.w_value
            &&& bytes[8] + bytes[9] * 256 == request.w_index
            &&& bytes[10] + bytes[11] * 256 == request.w_length
            &&& bytes[7] == request.descriptor_type()
        }),
{
}

/// The request for what is connected to a port holds the number of the port in
/// its first four bytes, which alone are handed over, and has room for 512.
pub proof fn law_connection_request_names_the_port(port: u32)
    ensures
        ({
            let request = connection_request(port);
            let buffer = request.buffer;
            &&& request.code == 0x220448
            &&& request.input_len == 4
            &&& buffer.len() == 512
            &&& buffer[0] + buffer[1] * 256 + buffer[2] * 65536 + buffer[3] * 16777216 == port
            &&& forall|i: int| 4 <= i < 512 ==> buffer[i] == 0
        }),
{
}

/// A request for a descriptor asks the device on the port for it in the standard
/// way: `GET_DESCRIPTOR` to the device, with type and index, language and length
/// in their places, and room for the descriptor behind. The device descriptor is
/// of type 1 and 18 bytes long; a string descriptor is of type 3, in English, and
/// up to 254 bytes long.
pub proof fn law_descriptor_requests_ask_in_the_standard_way(port: u32, index: u8)
    ensures
        ({
            let request = device_request(port);
            let buffer = request.buffer;
            &&& request.code == 0x220410
            &&& request.input_len == 30
            &&& buffer.len() == 30
            &&& buffer[0] + buffer[1] * 256 + buffer[2] * 65536 + buffer[3] * 16777216 == port
            &&& buffer[4] == 0x80 && buffer[5] == 6
            &&& buffer[6] == 0 && buffer[7] == 1
            &&& buffer[8] == 0 && buffer[9] == 0
            &&& buffer[10] == 18 && buffer[11] == 0
            &&& forall|i: int| 12 <= i < 30 ==> buffer[i] == 0
        }),
        ({
            let request = string_request(port, index);
            let buffer = request.buffer;
            &&& request.code == 0x220410
            &&& request.input_len == 266
            &&& buffer.len() == 266
            &&& buffer[0] + buffer[1] * 256 + buffer[2] * 65536 + buffer[3] * 16777216 == port
            &&& buffer[4] == 0x80 && buffer[5] == 6
            &&& buffer[6] == index && buffer[7] == 3
            &&& buffer[8] == 9 && buffer[9] == 4
            &&& buffer[10] == 254 && buffer[11] == 0
            &&& forall|i: int| 12 <= i < 266 ==> buffer[i] == 0
        }),
{
    let value: int = 3 * 256 + index;
    assert(value % 256 == index && value / 256 == 3);
}

/// The request for what a hub says of itself hands nothing over and has room for
/// 76 bytes.
pub proof fn law_node_request_is_empty()
    ensures
        node_request().code == 0x220408,
        node_request().input_len == 0,
        node_request().buffer.len() == 76,
        forall|i: int| 0 <= i < 76 ==> node_request().buffer[i] == 0,
{
}

/// Vendor and product ID are the numbers in bytes 12 to 15 of connection
/// information, whatever else it holds, if the request went well and brought at
/// least sixteen bytes; there are none otherwise.
pub proof fn law_ids_by_bytes(reply: ReplyView)
    ensures
        ({
            let b = reply.buffer;
            let whole = reply.ok && reply.returned >= 16 && b.len() >= 16;
            &&& whole ==> (vid_pid(reply) matches Some(ids) && ids.0 == b[12] + b[13] * 256 && ids.1
                == b[14] + b[15] * 256)
            &&& !whole ==> vid_pid(reply) is None
        }),
{
}

/// The product index is byte 27 of the reply to a request for the device
/// descriptor, sixteenth byte of the descriptor itself, whatever the others are;
/// there is none if that byte is zero or did not come.
pub proof fn law_product_index_by_bytes(reply: ReplyView)
    ensures
        reply.ok && reply.returned > 27 && reply.buffer.len() > 27 && reply.buffer[27] != 0
            ==> product_index(reply) == Some(reply.buffer[27]),
        !reply.ok || reply.returned <= 27 || reply.buffer.len() <= 27 || reply.buffer[27] == 0
            ==> product_index(reply) is None,
{
}

/// A device descriptor is read as it was written: behind any request of twelve
/// bytes, with any numbers for the strings of manufacturer, product and serial
/// number, the product index is the number of the product string.
pub proof fn law_product_index_reads_back(
    request: Seq<u8>,
    head: Seq<u8>,
    manufacturer: u8,
    product: u8,
    serial: u8,
    rest: Seq<u8>,
    reply: ReplyView,
)
    requires
        request.len() == 12,
        head.len() == 14,
        product != 0,
        reply.ok,
        reply.returned >= 28,
        reply.buffer == request + head + seq![manufacturer, product, serial] + rest,
    ensures
        product_index(reply) == Some(product),
{
    assert(reply.buffer[27] == product);
}

/// A string descriptor is read as it was written: with its length in byte 12 and
/// its code units from byte 14 on, low byte first, whatever the other bytes are.
pub proof fn law_string_descriptor_reads_back(units: Seq<u16>, reply: ReplyView)
    requires
        1 <= units.len() <= 126,
        reply.ok,
        reply.returned >= 14 + 2 * units.len(),
        reply.buffer.len() >= 14 + 2 * units.len(),
        reply.buffer[12] == 2 + 2 * units.len(),
        forall|i: int|
            0 <= i < units.len() ==> #[trigger] units[i] == reply.buffer[14 + 2 * i]
                + reply.buffer[15 + 2 * i] * 256,
    ensures
        descriptor_text(reply) == Some(utf16_lossy(units)),
{
    let data = reply.data();
    let n = units.len();
    assert(data[12] == reply.buffer[12]);
    let read = units_at(data, 14, n);
    assert forall|i: int| 0 <= i < n implies read[i] == units[i] by {
        assert(data[14 + 2 * i] == reply.buffer[14 + 2 * i]);
        assert(data[14 + 2 * i + 1] == reply.buffer[15 + 2 * i]);
        assert(units[i] == reply.buffer[14 + 2 * i] + reply.buffer[15 + 2 * i] * 256);
    }
    assert(read =~= units);
    assert((2 + 2 * n - 2) / 2 == n);
}

/// Nothing is read from a request that failed, or from a string descriptor that
/// did not come whole, is empty, or has half a code unit.
pub proof fn law_bad_string_descriptor_is_refused(reply: ReplyView)
    ensures
        !reply.ok ==> descriptor_text(reply) is None,
        reply.returned < 14 || reply.buffer.len() < 14 ==> descriptor_text(reply) is None,
        reply.buffer.len() > 12 && (reply.buffer[12] <= 2 || reply.buffer[12] % 2 == 1
            || reply.returned < 12 + reply.buffer[12] || reply.buffer.len() < 12
            + reply.buffer[12]) ==> descriptor_text(reply) is None,
{
    let data = reply.data();
    if data.len() > 12 {
        assert(data[12] == reply.buffer[12]);
    }
}

/// A probe shows broken firmware by the error of the request alone: it failed,
/// and with error 31.
pub proof fn law_probe_goes_by_the_error(reply: ReplyView)
    ensures
        reply.ok ==> !probe_fails(reply),
        reply.error != 31 ==> !probe_fails(reply),
        !reply.ok && reply.error == 31 ==> probe_fails(reply),
{
}

/// A device is found on a port if and only if the request went well, brought at
/// least 35 bytes, and says by the number in bytes 31 to 34 that a device is
/// connected and by byte 24 that it is no hub. Its IDs are the numbers in bytes
/// 12 to 15. No other byte counts.
pub proof fn law_device_by_bytes(reply: ReplyView)
    ensures
        ({
            let b = reply.buffer;
            let whole = reply.ok && reply.returned >= 35 && b.len() >= 35;
            let device = b[31] == 1 && b[32] == 0 && b[33] == 0 && b[34] == 0 && b[24] == 0;
            &&& whole && device ==> (port_device(reply) matches Some(ids) && ids.0 == b[12] + b[13] * 256 && ids.1
                == b[14] + b[15] * 256)
            &&& !whole || !device ==> port_device(reply) is None
        }),
{
    let data = reply.data();
    if data.len() >= 35 {
        assert(data[31] == reply.buffer[31] && data[32] == reply.buffer[32]);
        assert(data[33] == reply.buffer[33] && data[34] == reply.buffer[34]);
        assert(data[24] == reply.buffer[24]);
    }
}

/// Two replies that differ in nothing but bytes without meaning, such as the
/// configuration, the speed or the address of the device, find the same.
pub proof fn law_other_bytes_do_not_hide_a_device(reply: ReplyView, other: ReplyView)
    requires
        reply.ok == other.ok,
        reply.returned >= 35 && other.returned >= 35,
        reply.buffer.len() >= 35 && other.buffer.len() >= 35,
        forall|i: int|
            12 <= i < 16 || i == 24 || 31 <= i < 35 ==> #[trigger] reply.buffer[i]
                == other.buffer[i],
    ensures
        port_device(reply) == port_device(other),
{
    law_device_by_bytes(reply);
    law_device_by_bytes(other);
    assert(reply.buffer[24] == other.buffer[24]);
    assert(reply.buffer[12] == other.buffer[12] && reply.buffer[13] == other.buffer[13]);
    assert(reply.buffer[14] == other.buffer[14] && reply.buffer[15] == other.buffer[15]);
    assert(reply.buffer[31] == other.buffer[31] && reply.buffer[32] == other.buffer[32]);
    assert(reply.buffer[33] == other.buffer[33] && reply.buffer[34] == other.buffer[34]);
}

/// The number of ports is byte 6 of what a hub says of itself, whatever else it
/// says, and zero if it did not answer.
pub proof fn law_port_count_by_bytes(reply: ReplyView)
    ensures
        reply.ok && reply.buffer.len() > 6 ==> port_count(reply) == reply.buffer[6],
        !reply.ok || reply.buffer.len() <= 6 ==> port_count(reply) == 0,
{
}

/// The buffer for interface detail is as long as asked for and empty but for the
/// size in its first byte: 8, or 6 where the structure is packed.
pub proof fn law_detail_buffer_names_its_size(size: u32, packed: bool)
    requires
        size >= 6,
    ensures
        detail_bytes(size, packed).len() == size,
        detail_bytes(size, true)[0] == 6,
        detail_bytes(size, false)[0] == 8,
        forall|i: int| 1 <= i < size ==> detail_bytes(size, packed)[i] == 0,
{
}

/// A path is read as it was written behind any four bytes, with or without half a
/// code unit at the end.
pub proof fn law_detail_path_reads_back(head: Seq<u8>, units: Seq<u16>, rest: Seq<u8>)
    requires
        head.len() == 4,
        rest.len() <= 1,
    ensures
        detail_path(head + unit_bytes(units) + rest) == text_before_nul(units),
{
    let detail = head + unit_bytes(units) + rest;
    let n = units.len();
    assert((detail.len() - 4) / 2 == n);
    let read = units_at(detail, 4, n);
    assert forall|i: int| 0 <= i < n implies read[i] == units[i] by {
        assert((2 * i) / 2 == i && (2 * i) % 2 == 0);
        assert((2 * i + 1) / 2 == i && (2 * i + 1) % 2 == 1);
        assert(detail[4 + 2 * i] == unit_bytes(units)[2 * i]);
        assert(detail[4 + 2 * i + 1] == unit_bytes(units)[2 * i + 1]);
    }
    assert(read =~= units);
}

/// What requests, replies and texts are taken for is what they hold.
pub proof fn law_views_are_faithful(
    request: IoRequest,
    reply: IoReply,
    text: String,
)
    ensures
        request@.code == request.code && request@.input_len == request.input_len,
        request@.buffer == request.buffer@,
        reply@.ok == reply.ok && reply@.error == reply.error,
        reply@.returned == reply.returned && reply@.buffer == reply.buffer@,
        opt_text(Some(text)) == Some(text@),
        opt_text(None) is None,
{
}

/// Nothing is read from too few bytes: no request from fewer than twelve, and no
/// path from fewer than four.
pub proof fn law_too_few_bytes_hold_nothing(bytes: Seq<u8>)
    ensures
        bytes.len() < 12 ==> request_at_start(bytes) is None,
        bytes.len() >= 12 ==> request_at_start(bytes) is Some,
        bytes.len() < 4 ==> detail_path(bytes).len() == 0,
{
}

} // verus!
