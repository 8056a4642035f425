use teams_usb_fix::hook::{
    fix_message, hook_return, intercept, is_suspect, Decision, HookCall, HookReturn, Identify, Identity,
};
use teams_usb_fix::serial::synthetic_serial;
use teams_usb_fix::usb::{
    query_string_descriptor, string_descriptor_request, device_descriptor_request,
    connection_info_request, DescriptorRequest, IoReply,
};

const GET_DESCRIPTOR: u32 = 0x00220410;
const GENERAL_FAILURE: u32 = 0x1F;

fn failed_call() -> HookCall {
    HookCall { result: 0, control_code: GET_DESCRIPTOR, last_error: GENERAL_FAILURE, handle: 0x2a4 }
}

fn string_query(port: u32) -> Vec<u8> {
    string_descriptor_request(port, 3).buffer
}

fn answered(returned: u32, buffer: Vec<u8>) -> IoReply {
    IoReply { ok: true, error: 0, returned, buffer }
}

fn refused() -> IoReply {
    IoReply { ok: false, error: GENERAL_FAILURE, returned: 0, buffer: vec![] }
}

fn connection_reply(vid: u16, pid: u16) -> IoReply {
    let mut buffer = vec![0u8; 512];
    buffer[12..14].copy_from_slice(&vid.to_le_bytes());
    buffer[14..16].copy_from_slice(&pid.to_le_bytes());
    answered(512, buffer)
}

fn device_reply(index: u8) -> IoReply {
    let mut buffer = vec![0u8; 30];
    buffer[27] = index;
    answered(30, buffer)
}

fn name_reply(name: &str) -> IoReply {
    let mut buffer = vec![0u8; 266];
    let units: Vec<u16> = name.encode_utf16().collect();
    buffer[12] = 2 + 2 * units.len() as u8;
    buffer[13] = 3;
    for (i, unit) in units.iter().enumerate() {
        buffer[14 + 2 * i..16 + 2 * i].copy_from_slice(&unit.to_le_bytes());
    }
    answered(266, buffer)
}

#[test]
fn broken_string_request_is_answered() {
    let mut out = string_query(4);
    let decision = intercept(&failed_call(), &string_query(4), &mut out);
    assert_eq!(decision, Decision::Fixed { port: 4, bytes: 36 });
    assert_eq!(&out[..12], &string_query(4)[..12]);
    assert_eq!(out[12], 24);
    assert_eq!(out[13], 3);
    assert_eq!(query_string_descriptor(&answered(36, out)), Some(synthetic_serial(0x2a4, 4)));
}

#[test]
fn only_failures_on_descriptors_are_looked_into() {
    assert!(is_suspect(&failed_call()));
    assert!(!is_suspect(&HookCall { result: 1, ..failed_call() }));
    assert!(!is_suspect(&HookCall { last_error: 5, ..failed_call() }));
    assert!(!is_suspect(&HookCall { control_code: 0x00220448, ..failed_call() }));
}

#[test]
fn successful_calls_pass_through() {
    let call = HookCall { result: 1, ..failed_call() };
    let mut out = vec![7u8; 64];
    assert_eq!(intercept(&call, &string_query(1), &mut out), Decision::PassThrough);
    assert_eq!(out, vec![7u8; 64]);
    let odd = HookCall { result: -3, ..failed_call() };
    assert_eq!(intercept(&odd, &string_query(1), &mut out), Decision::PassThrough);
}

#[test]
fn other_failures_pass_through() {
    let mut out = vec![7u8; 64];
    let error = HookCall { last_error: 5, ..failed_call() };
    assert_eq!(intercept(&error, &string_query(1), &mut out), Decision::PassThrough);
    let code = HookCall { control_code: 0x00220448, ..failed_call() };
    assert_eq!(intercept(&code, &string_query(1), &mut out), Decision::PassThrough);
    assert_eq!(out, vec![7u8; 64]);
}

#[test]
fn device_and_configuration_descriptors_pass_through() {
    let mut out = vec![7u8; 64];
    let device = device_descriptor_request(1).buffer;
    assert_eq!(intercept(&failed_call(), &device, &mut out), Decision::PassThrough);
    let configuration = DescriptorRequest {
        connection_index: 1,
        bm_request: 0x80,
        b_request: 6,
        w_value: 0x0200,
        w_index: 0,
        w_length: 9,
    };
    assert_eq!(intercept(&failed_call(), &configuration.encode(), &mut out), Decision::PassThrough);
    assert_eq!(out, vec![7u8; 64]);
}

#[test]
fn short_or_missing_request_passes_through() {
    let mut out = vec![7u8; 64];
    assert_eq!(intercept(&failed_call(), &string_query(1)[..11], &mut out), Decision::PassThrough);
    assert_eq!(intercept(&failed_call(), &[], &mut out), Decision::PassThrough);
}

#[test]
fn reply_without_room_is_not_written() {
    let mut out = vec![7u8; 35];
    assert_eq!(intercept(&failed_call(), &string_query(1), &mut out), Decision::NoRoom);
    assert_eq!(out, vec![7u8; 35]);
    assert_eq!(intercept(&failed_call(), &string_query(1), &mut []), Decision::NoRoom);
}

#[test]
fn what_the_caller_gets() {
    let call = failed_call();
    assert_eq!(
        hook_return(&call, Decision::PassThrough),
        HookReturn { result: 0, last_error: None, bytes_returned: None }
    );
    assert_eq!(
        hook_return(&call, Decision::NoRoom),
        HookReturn { result: 0, last_error: Some(GENERAL_FAILURE), bytes_returned: None }
    );
    assert_eq!(
        hook_return(&call, Decision::Fixed { port: 1, bytes: 36 }),
        HookReturn { result: 1, last_error: Some(0), bytes_returned: Some(36) }
    );
    let success = HookCall { result: 5, ..call };
    assert_eq!(hook_return(&success, Decision::PassThrough).result, 5);
}

#[test]
fn questions_about_a_device() {
    let step = Identify::AskConnection;
    assert_eq!(step.request(2).unwrap().buffer, connection_info_request(2).buffer);
    let step = step.next(&connection_reply(0x30BE, 0x101C));
    assert!(matches!(step, Identify::AskDevice { vid: 0x30BE, pid: 0x101C }));
    assert_eq!(step.request(2).unwrap().buffer, device_descriptor_request(2).buffer);
    let step = step.next(&device_reply(2));
    assert_eq!(step.request(2).unwrap().buffer, string_descriptor_request(2, 2).buffer);
    let step = step.next(&name_reply("Magni Unity"));
    assert!(step.request(2).is_none());
    match step {
        Identify::Done(Identity::Known { vid, pid, name }) => {
            assert_eq!((vid, pid), (0x30BE, 0x101C));
            assert_eq!(name, Some("Magni Unity".to_string()));
        }
        _ => panic!("not identified"),
    }
}

#[test]
fn device_that_does_not_answer_is_unknown() {
    let step = Identify::AskConnection.next(&refused());
    assert!(matches!(step, Identify::Done(Identity::Unknown)));
}

#[test]
fn device_without_a_readable_name() {
    let ask = || Identify::AskConnection.next(&connection_reply(1, 2));
    let replies = [refused(), device_reply(0)];
    for reply in &replies {
        assert!(matches!(ask().next(reply), Identify::Done(Identity::Known { vid: 1, pid: 2, name: None })));
    }
    let names = [refused(), name_reply(" \t "), name_reply("")];
    for reply in &names {
        let step = ask().next(&device_reply(3)).next(reply);
        assert!(matches!(step, Identify::Done(Identity::Known { vid: 1, pid: 2, name: None })));
    }
}

#[test]
fn messages_about_answered_calls() {
    let named = Identity::Known { vid: 0x30BE, pid: 0x101C, name: Some("DAC".to_string()) };
    assert_eq!(
        fix_message(&named, 4, "USBFIX-00AF"),
        "Fixed USB string descriptor for \"DAC\" (VID:30BE PID:101C) on port 4 -- synthetic serial USBFIX-00AF"
    );
    let unnamed = Identity::Known { vid: 0xA, pid: 0, name: None };
    assert_eq!(
        fix_message(&unnamed, 12, "S"),
        "Fixed USB string descriptor for unknown device (VID:000A PID:0000) on port 12 -- synthetic serial S"
    );
    assert_eq!(
        fix_message(&Identity::Unknown, 1, "S"),
        "Fixed USB string descriptor for unidentified device on port 1 -- synthetic serial S"
    );
}
