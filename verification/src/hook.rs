//! The hook on `DeviceIoControl`: which failed calls it answers, how it names
//! the device behind one, and how it is installed and removed.

use vstd::prelude::*;
use crate::serial::build_synthetic_serial;
use crate::serial::{SYNTHETIC_DESCRIPTOR_LEN, SYNTHETIC_REPLY_LEN};
use crate::serial::{law_synthetic_serial_reads_back, serial_text, with_synthetic_serial};
use crate::text::{is_blank, push_decimal, push_hex4};
use crate::text::{blank, decimal, hex4};
use crate::usb::{
    DescriptorRequest, IoReply, IoRequest, connection_info_request, device_descriptor_request,
    query_iproduct_index, query_string_descriptor, query_vid_pid, string_descriptor_request,
};
use crate::usb::{
    ERROR_GEN_FAILURE, IOCTL_USB_GET_DESCRIPTOR_FROM_NODE_CONNECTION, REQUEST_LEN,
    USB_STRING_DESCRIPTOR_TYPE,
};
use crate::usb::{
    ReplyView, RequestView, connection_request, descriptor_text, device_request, opt_text,
    product_index, request_at_start, string_request, vid_pid,
};

verus! {

/// A call of `DeviceIoControl` that has come back: what it returned, its
/// control code, the last error behind it, and the handle it was made on.
#[derive(Clone, Copy, Debug, PartialEq, Eq, Structural)]
pub struct HookCall {
    pub result: i32,
    pub control_code: u32,
    pub last_error: u32,
    pub handle: isize,
}

/// What is done about a call.
#[derive(Clone, Copy, Debug, PartialEq, Eq, Structural)]
pub enum Decision {
    /// The call is none of the hook's business.
    PassThrough,
    /// The call asked for a broken string descriptor, but there is no room for
    /// a synthetic one.
    NoRoom,
    /// The call asked for a broken string descriptor and was answered with a
    /// synthetic one, for the device on `port`; `bytes` is the reply's length.
    Fixed { port: u32, bytes: u32 },
}

/// The port whose string descriptor a call failed to get, if that is how it
/// failed: with a general failure, on a whole request for a string descriptor.
pub open spec fn broken_string_port(call: HookCall, input: Seq<u8>) -> Option<u32> {
    match request_at_start(input) {
        Some(request) => if failed_on_descriptor(call) && request.descriptor_type()
            == USB_STRING_DESCRIPTOR_TYPE {
            Some(request.connection_index)
        } else {
            None
        },
        None => None,
    }
}

/// What is done about a call with room for `room` bytes of reply.
pub open spec fn decision(call: HookCall, input: Seq<u8>, room: nat) -> Decision {
    match broken_string_port(call, input) {
        Some(port) => if room < SYNTHETIC_REPLY_LEN {
            Decision::NoRoom
        } else {
            Decision::Fixed { port, bytes: SYNTHETIC_REPLY_LEN as u32 }
        },
        None => Decision::PassThrough,
    }
}

/// Whether a call failed in the way that a request for a broken descriptor does.
pub open spec fn failed_on_descriptor(call: HookCall) -> bool {
    call.result == 0 && call.control_code == IOCTL_USB_GET_DESCRIPTOR_FROM_NODE_CONNECTION
        && call.last_error == ERROR_GEN_FAILURE
}

/// Tells the calls whose buffers have to be looked into from all others.
pub fn is_suspect(call: &HookCall) -> (suspect: bool)
    ensures
        suspect == failed_on_descriptor(*call),
{
    call.result == 0 && call.control_code == IOCTL_USB_GET_DESCRIPTOR_FROM_NODE_CONNECTION
        && call.last_error == ERROR_GEN_FAILURE
}

/// Decides what is done about a call, and writes the synthetic descriptor into
/// the reply if the call is answered. A missing buffer counts as an empty one.
pub fn intercept(call: &HookCall, input: &[u8], output: &mut [u8]) -> (result: Decision)
    ensures
        result == decision(*call, input@, old(output)@.len()),
        final(output)@ == (match result {
            Decision::Fixed { port, bytes } => with_synthetic_serial(
                old(output)@,
                call.handle,
                port,
            ),
            _ => old(output)@,
        }),
        final(output)@.len() == old(output)@.len(),
{
    if !is_suspect(call) {
        return Decision::PassThrough;
    }
    match DescriptorRequest::decode(input) {
        Some(request) => {
            if (request.w_value / 256) as u8 != USB_STRING_DESCRIPTOR_TYPE {
                return Decision::PassThrough;
            }
            let port: u32 = request.connection_index;
            let bytes: u32 = build_synthetic_serial(output, call.handle, port);
            if bytes == 0 {
                Decision::NoRoom
            } else {
                Decision::Fixed { port, bytes }
            }
        },
        None => Decision::PassThrough,
    }
}

/// What the caller of `DeviceIoControl` gets: the value returned, the last
/// error if it is set anew, and the number of bytes returned if it is.
#[derive(Clone, Copy, Debug, PartialEq, Eq, Structural)]
pub struct HookReturn {
    pub result: i32,
    pub last_error: Option<u32>,
    pub bytes_returned: Option<u32>,
}

/// What the caller gets after a decision.
pub open spec fn caller_gets(call: HookCall, decided: Decision) -> HookReturn {
    match decided {
        Decision::PassThrough => HookReturn {
            result: call.result,
            last_error: None,
            bytes_returned: None,
        },
        Decision::NoRoom => HookReturn {
            result: call.result,
            last_error: Some(call.last_error),
            bytes_returned: None,
        },
        Decision::Fixed { port, bytes } => HookReturn {
            result: 1,
            last_error: Some(0),
            bytes_returned: Some(bytes),
        },
    }
}

/// What the caller gets after a decision: a call that was answered counts as a
/// success, any other keeps its result and its error.
pub fn hook_return(call: &HookCall, decided: Decision) -> (returned: HookReturn)
    ensures
        returned == (match decided {
            Decision::PassThrough => (HookReturn {
                result: call.result,
                last_error: None,
                bytes_returned: None,
            }),
            Decision::NoRoom => (HookReturn {
                result: call.result,
                last_error: Some(call.last_error),
                bytes_returned: None,
            }),
            Decision::Fixed { port, bytes } => (HookReturn {
                result: 1,
                last_error: Some(0),
                bytes_returned: Some(bytes),
            }),
        }),
        returned == caller_gets(*call, decided),
{
    match decided {
        Decision::PassThrough => HookReturn {
            result: call.result,
            last_error: None,
            bytes_returned: None,
        },
        Decision::NoRoom => HookReturn {
            result: call.result,
            last_error: Some(call.last_error),
            bytes_returned: None,
        },
        Decision::Fixed { bytes, .. } => HookReturn {
            result: 1,
            last_error: Some(0),
            bytes_returned: Some(bytes),
        },
    }
}

/// A call that succeeded is never touched.
pub proof fn law_success_passes_through(call: HookCall, input: Seq<u8>, room: nat)
    requires
        call.result != 0,
    ensures
        decision(call, input, room) == Decision::PassThrough,
{
}

/// A call that failed with another error than a general failure, or that was
/// made with another control code, is never touched.
pub proof fn law_other_failures_pass_through(call: HookCall, input: Seq<u8>, room: nat)
    requires
        call.last_error != ERROR_GEN_FAILURE || call.control_code
            != IOCTL_USB_GET_DESCRIPTOR_FROM_NODE_CONNECTION,
    ensures
        decision(call, input, room) == Decision::PassThrough,
{
}

/// A request for a descriptor that is not a string descriptor, such as a device
/// or a configuration descriptor, is never touched.
pub proof fn law_other_descriptors_pass_through(
    call: HookCall,
    request: DescriptorRequest,
    rest: Seq<u8>,
    room: nat,
)
    requires
        request.descriptor_type() != USB_STRING_DESCRIPTOR_TYPE,
    ensures
        decision(call, request.bytes() + rest, room) == Decision::PassThrough,
{
    crate::usb::law_request_round_trip(request, rest);
}

/// A request for a string descriptor that failed with a general failure is
/// answered if there is room. The reply keeps the request at its start, and
/// holds a string descriptor of the right length and type that reads as the
/// serial number of the place.
pub proof fn law_broken_string_is_answered(
    call: HookCall,
    request: DescriptorRequest,
    rest: Seq<u8>,
    output: Seq<u8>,
)
    requires
        call.result == 0,
        call.control_code == IOCTL_USB_GET_DESCRIPTOR_FROM_NODE_CONNECTION,
        call.last_error == ERROR_GEN_FAILURE,
        request.descriptor_type() == USB_STRING_DESCRIPTOR_TYPE,
        output.len() >= SYNTHETIC_REPLY_LEN,
    ensures
        ({
            let port = request.connection_index;
            let answer = with_synthetic_serial(output, call.handle, port);
            let reply = ReplyView {
                ok: true,
                error: 0,
                returned: SYNTHETIC_REPLY_LEN as u32,
                buffer: answer,
            };
            &&& decision(call, request.bytes() + rest, output.len()) == Decision::Fixed {
                port,
                bytes: SYNTHETIC_REPLY_LEN as u32,
            }
            &&& answer.len() == output.len()
            &&& answer.take(REQUEST_LEN as int) == output.take(REQUEST_LEN as int)
            &&& answer[REQUEST_LEN as int] == SYNTHETIC_DESCRIPTOR_LEN
            &&& answer[REQUEST_LEN + 1] == USB_STRING_DESCRIPTOR_TYPE
            &&& descriptor_text(reply) == Some(serial_text(call.handle, port))
        }),
{
    crate::usb::law_request_round_trip(request, rest);
    let port = request.connection_index;
    let answer = with_synthetic_serial(output, call.handle, port);
    let reply = ReplyView {
        ok: true,
        error: 0,
        returned: SYNTHETIC_REPLY_LEN as u32,
        buffer: answer,
    };
    law_synthetic_serial_reads_back(output, call.handle, port, reply);
    crate::serial::law_synthetic_serial_stays_in_place(output, call.handle, port);
}

/// What is known of a device.
#[derive(Debug)]
pub enum Identity {
    /// Its vendor and product ID, and its name if it has a readable one.
    Known { vid: u16, pid: u16, name: Option<String> },
    /// Nothing.
    Unknown,
}

/// What is known of a device.
#[verifier::ext_equal]
pub enum IdentityView {
    Known { vid: u16, pid: u16, name: Option<Seq<char>> },
    Unknown,
}

impl View for Identity {
    type V = IdentityView;

    open spec fn view(&self) -> IdentityView {
        match self {
            Identity::Known { vid, pid, name } => IdentityView::Known {
                vid: *vid,
                pid: *pid,
                name: opt_text(*name),
            },
            Identity::Unknown => IdentityView::Unknown,
        }
    }
}

/// How far the questions about a device have come: which one is put next, or
/// what came out of them.
#[derive(Debug)]
pub enum Identify {
    /// Asks what is connected to the port.
    AskConnection,
    /// Asks for the device descriptor.
    AskDevice { vid: u16, pid: u16 },
    /// Asks for the string descriptor with the product name.
    AskProduct { vid: u16, pid: u16, index: u8 },
    /// No question is left.
    Done(Identity),
}

/// How far the questions about a device have come.
#[verifier::ext_equal]
pub enum IdentifyView {
    AskConnection,
    AskDevice { vid: u16, pid: u16 },
    AskProduct { vid: u16, pid: u16, index: u8 },
    Done(IdentityView),
}

impl View for Identify {
    type V = IdentifyView;

    open spec fn view(&self) -> IdentifyView {
        match self {
            Identify::AskConnection => IdentifyView::AskConnection,
            Identify::AskDevice { vid, pid } => IdentifyView::AskDevice { vid: *vid, pid: *pid },
            Identify::AskProduct { vid, pid, index } => IdentifyView::AskProduct {
                vid: *vid,
                pid: *pid,
                index: *index,
            },
            Identify::Done(identity) => IdentifyView::Done(identity@),
        }
    }
}

/// The name in a reply, unless it cannot be read or is blank.
pub open spec fn product_name(reply: ReplyView) -> Option<Seq<char>> {
    match descriptor_text(reply) {
        Some(text) => if blank(text) {
            None
        } else {
            Some(text)
        },
        None => None,
    }
}

/// The question that is put next.
pub open spec fn identify_request(step: IdentifyView, port: u32) -> Option<RequestView> {
    match step {
        IdentifyView::AskConnection => Some(connection_request(port)),
        IdentifyView::AskDevice { .. } => Some(device_request(port)),
        IdentifyView::AskProduct { index, .. } => Some(string_request(port, index)),
        IdentifyView::Done(identity) => None,
    }
}

/// Where the questions stand after an answer.
pub open spec fn identify_next(step: IdentifyView, reply: ReplyView) -> IdentifyView {
    match step {
        IdentifyView::AskConnection => match vid_pid(reply) {
            Some((vid, pid)) => IdentifyView::AskDevice { vid, pid },
            None => IdentifyView::Done(IdentityView::Unknown),
        },
        IdentifyView::AskDevice { vid, pid } => match product_index(reply) {
            Some(index) => IdentifyView::AskProduct { vid, pid, index },
            None => IdentifyView::Done(IdentityView::Known { vid, pid, name: None }),
        },
        IdentifyView::AskProduct { vid, pid, index } => IdentifyView::Done(
            IdentityView::Known { vid, pid, name: product_name(reply) },
        ),
        IdentifyView::Done(identity) => step,
    }
}

/// What a request about this view says, if there is one.
pub open spec fn opt_request(request: Option<IoRequest>) -> Option<RequestView> {
    match request {
        Some(request) => Some(request@),
        None => None,
    }
}

impl Identify {
    /// The question that is put next to the hub about the device on `port`;
    /// `None` if no question is left.
    pub fn request(&self, port: u32) -> (request: Option<IoRequest>)
        ensures
            opt_request(request) == identify_request(self@, port),
    {
        match self {
            Identify::AskConnection => Some(connection_info_request(port)),
            Identify::AskDevice { .. } => Some(device_descriptor_request(port)),
            Identify::AskProduct { index, .. } => Some(string_descriptor_request(port, *index)),
            Identify::Done(_) => None,
        }
    }

    /// Takes the answer to a question.
    pub fn next(self, reply: &IoReply) -> (step: Identify)
        ensures
            step@ == identify_next(self@, reply@),
    {
        match self {
            Identify::AskConnection => match query_vid_pid(reply) {
                Some((vid, pid)) => Identify::AskDevice { vid, pid },
                None => Identify::Done(Identity::Unknown),
            },
            Identify::AskDevice { vid, pid } => match query_iproduct_index(reply) {
                Some(index) => Identify::AskProduct { vid, pid, index },
                None => Identify::Done(Identity::Known { vid, pid, name: None }),
            },
            Identify::AskProduct { vid, pid, .. } => {
                let name: Option<String> = match query_string_descriptor(reply) {
                    Some(text) => if is_blank(&text) {
                        None
                    } else {
                        Some(text)
                    },
                    None => None,
                };
                Identify::Done(Identity::Known { vid, pid, name })
            },
            Identify::Done(identity) => Identify::Done(identity),
        }
    }
}

/// What is known of a device that answers the three questions as given. The
/// name comes from the string descriptor that the device descriptor points to.
pub open spec fn identity_of(
    connection: ReplyView,
    device: ReplyView,
    strings: spec_fn(u8) -> ReplyView,
) -> IdentityView {
    match vid_pid(connection) {
        Some((vid, pid)) => IdentityView::Known {
            vid,
            pid,
            name: match product_index(device) {
                Some(index) => product_name(strings(index)),
                None => None,
            },
        },
        None => IdentityView::Unknown,
    }
}

/// The answer that such a device gives to the question of a step.
pub open spec fn device_answer(
    step: IdentifyView,
    connection: ReplyView,
    device: ReplyView,
    strings: spec_fn(u8) -> ReplyView,
) -> ReplyView {
    match step {
        IdentifyView::AskDevice { .. } => device,
        IdentifyView::AskProduct { index, .. } => strings(index),
        _ => connection,
    }
}

/// After at most three answers no question is left, and what came out is what
/// the answers say of the device.
pub proof fn law_identify_ends(
    connection: ReplyView,
    device: ReplyView,
    strings: spec_fn(u8) -> ReplyView,
)
    ensures
        ({
            let first = identify_next(
                IdentifyView::AskConnection,
                device_answer(IdentifyView::AskConnection, connection, device, strings),
            );
            let second = identify_next(first, device_answer(first, connection, device, strings));
            let third = identify_next(second, device_answer(second, connection, device, strings));
            third == IdentifyView::Done(identity_of(connection, device, strings))
        }),
{
}

/// The message about an answered call.
pub open spec fn fix_text(identity: IdentityView, port: u32, serial: Seq<char>) -> Seq<char> {
    (match identity {
        IdentityView::Known { vid, pid, name } => (match name {
            Some(name) => "Fixed USB string descriptor for \""@ + name + "\""@,
            None => "Fixed USB string descriptor for unknown device"@,
        }) + " (VID:"@ + hex4(vid) + " PID:"@ + hex4(pid) + ")"@,
        IdentityView::Unknown => "Fixed USB string descriptor for unidentified device"@,
    }) + " on port "@ + decimal(port as nat) + " -- synthetic serial "@ + serial
}

/// Makes the message about an answered call.
pub fn fix_message(identity: &Identity, port: u32, serial: &str) -> (message: String)
    ensures
        message@ == fix_text(identity@, port, serial@),
{
    let mut message: String = String::new();
    match identity {
        Identity::Known { vid, pid, name } => {
            match name {
                Some(name) => {
                    message.append("Fixed USB string descriptor for \"");
                    message.append(name);
                    message.append("\"");
                },
                None => {
                    message.append("Fixed USB string descriptor for unknown device");
                },
            }
            message.append(" (VID:");
            push_hex4(&mut message, *vid);
            message.append(" PID:");
            push_hex4(&mut message, *pid);
            message.append(")");
        },
        Identity::Unknown => {
            message.append("Fixed USB string descriptor for unidentified device");
        },
    }
    message.append(" on port ");
    push_decimal(&mut message, port as u64);
    message.append(" -- synthetic serial ");
    message.append(serial);
    message
}

/// What is done about a call follows from its result, code and error and from
/// the first twelve bytes of its input alone: it is answered if it failed with
/// error 31 on a request for a descriptor whose byte 7 says that it is a string
/// descriptor, and if there is room for 36 bytes; the port is the number in the
/// first four bytes.
pub proof fn law_decision_by_bytes(call: HookCall, input: Seq<u8>, room: nat)
    ensures
        ({
            let broken = call.result == 0 && call.control_code == 0x220410 && call.last_error == 31
                && input.len() >= 12 && input[7] == 3;
            &&& !broken ==> decision(call, input, room) == Decision::PassThrough
            &&& broken && room < 36 ==> decision(call, input, room) == Decision::NoRoom
            &&& broken && room >= 36 ==> decision(call, input, room) is Fixed
            &&& broken && room >= 36 ==> decision(call, input, room)->bytes == 36
            &&& broken && room >= 36 ==> decision(call, input, room)->port == input[0] + input[1]
                * 256 + input[2] * 65536 + input[3] * 16777216
        }),
{
    if input.len() >= 12 {
        let value = input[6] + input[7] * 256;
        assert(value / 256 == input[7]);
    }
}

/// Only calls that failed with error 31 on a request for a descriptor are looked
/// into.
pub proof fn law_suspects_by_code_and_error(call: HookCall)
    ensures
        failed_on_descriptor(call) <==> call.result == 0 && call.control_code == 0x220410
            && call.last_error == 31,
{
}

/// The caller of an answered call sees a success of as many bytes, with no error;
/// the caller of any other call sees its own result, with its own error where
/// that may have been lost, and nothing else.
pub proof fn law_caller_sees_success_only_if_answered(call: HookCall, decided: Decision)
    ensures
        ({
            let returned = caller_gets(call, decided);
            &&& decided is Fixed ==> returned.result == 1 && returned.last_error == Some(0u32)
                && returned.bytes_returned == Some(decided->bytes)
            &&& !(decided is Fixed) ==> returned.result == call.result
                && returned.bytes_returned is None
            &&& decided is NoRoom ==> returned.last_error == Some(call.last_error)
            &&& decided is PassThrough ==> returned.last_error is None
        }),
{
}

/// The questions about a device go on as its answers say: from its IDs to its
/// device descriptor, from there to the string that it names as the product, and
/// end with what is known by then. Whatever was learned is kept.
pub proof fn law_identify_keeps_what_it_learned(
    reply: ReplyView,
    vid: u16,
    pid: u16,
    index: u8,
    identity: IdentityView,
)
    ensures
        ({
            let first = identify_next(IdentifyView::AskConnection, reply);
            match vid_pid(reply) {
                Some(ids) => first == (IdentifyView::AskDevice { vid: ids.0, pid: ids.1 }),
                None => first == IdentifyView::Done(IdentityView::Unknown),
            }
        }),
        ({
            let second = identify_next(IdentifyView::AskDevice { vid, pid }, reply);
            match product_index(reply) {
                Some(i) => second == (IdentifyView::AskProduct { vid, pid, index: i }),
                None => second == IdentifyView::Done(IdentityView::Known { vid, pid, name: None }),
            }
        }),
        ({
            let third = identify_next(IdentifyView::AskProduct { vid, pid, index }, reply);
            match descriptor_text(reply) {
                Some(text) => third == IdentifyView::Done(
                    IdentityView::Known {
                        vid,
                        pid,
                        name: if blank(text) {
                            None
                        } else {
                            Some(text)
                        },
                    },
                ),
                None => third == IdentifyView::Done(IdentityView::Known { vid, pid, name: None }),
            }
        }),
        identify_next(IdentifyView::Done(identity), reply) == IdentifyView::Done(identity),
{
}

/// Each question goes to the hub about the port that the call was about.
pub proof fn law_identify_asks_about_the_port(
    port: u32,
    vid: u16,
    pid: u16,
    index: u8,
    identity: IdentityView,
)
    ensures
        identify_request(IdentifyView::AskConnection, port) == Some(connection_request(port)),
        identify_request(IdentifyView::AskDevice { vid, pid }, port) == Some(device_request(port)),
        identify_request(IdentifyView::AskProduct { vid, pid, index }, port) == Some(
            string_request(port, index),
        ),
        identify_request(IdentifyView::Done(identity), port) is None,
{
}

/// The message about an answered call names the device as far as it is known, the
/// port and the serial number.
pub proof fn law_message_names_device_port_and_serial(
    vid: u16,
    pid: u16,
    name: Seq<char>,
    port: u32,
    serial: Seq<char>,
)
    ensures
        ({
            let ids = " (VID:"@ + hex4(vid) + " PID:"@ + hex4(pid) + ")"@;
            let place = " on port "@ + decimal(port as nat) + " -- synthetic serial "@ + serial;
            let start = "Fixed USB string descriptor for "@;
            &&& fix_text(IdentityView::Known { vid, pid, name: Some(name) }, port, serial) == start
                + "\""@ + name + "\""@ + ids + place
            &&& fix_text(IdentityView::Known { vid, pid, name: None }, port, serial) == start
                + "unknown device"@ + ids + place
            &&& fix_text(IdentityView::Unknown, port, serial) == start + "unidentified device"@
                + place
        }),
{
    reveal_strlit("Fixed USB string descriptor for ");
    reveal_strlit("\"");
    reveal_strlit("unknown device");
    reveal_strlit("unidentified device");
    reveal_strlit("Fixed USB string descriptor for \"");
    reveal_strlit("Fixed USB string descriptor for unknown device");
    reveal_strlit("Fixed USB string descriptor for unidentified device");
    let start = "Fixed USB string descriptor for "@;
    assert("Fixed USB string descriptor for \""@ =~= start + "\""@);
    assert("Fixed USB string descriptor for unknown device"@ =~= start + "unknown device"@);
    assert("Fixed USB string descriptor for unidentified device"@ =~= start
        + "unidentified device"@);
    let ids = " (VID:"@ + hex4(vid) + " PID:"@ + hex4(pid) + ")"@;
    let place = " on port "@ + decimal(port as nat) + " -- synthetic serial "@ + serial;
    assert(fix_text(IdentityView::Known { vid, pid, name: Some(name) }, port, serial) =~= start
        + "\""@ + name + "\""@ + ids + place);
    assert(fix_text(IdentityView::Known { vid, pid, name: None }, port, serial) =~= start
        + "unknown device"@ + ids + place);
    assert(fix_text(IdentityView::Unknown, port, serial) =~= start + "unidentified device"@
        + place);
}

/// What is known of a device is taken for what it is.
pub proof fn law_identity_view_is_faithful(vid: u16, pid: u16, name: Option<String>, index: u8)
    ensures
        (Identity::Known { vid, pid, name })@ == (IdentityView::Known {
            vid,
            pid,
            name: match name {
                Some(text) => Some(text@),
                None => None,
            },
        }),
        Identity::Unknown@ == IdentityView::Unknown,
        Identify::AskConnection@ == IdentifyView::AskConnection,
        (Identify::AskDevice { vid, pid })@ == (IdentifyView::AskDevice { vid, pid }),
        (Identify::AskProduct { vid, pid, index })@ == (IdentifyView::AskProduct {
            vid,
            pid,
            index,
        }),
        Identify::Done(Identity::Unknown)@ == IdentifyView::Done(IdentityView::Unknown),
{
}

/// A question is taken for what it asks.
pub proof fn law_request_view_is_faithful(request: IoRequest)
    ensures
        opt_request(Some(request)) == Some(request@),
        opt_request(None) is None,
{
}

} // verus!
