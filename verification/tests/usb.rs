use teams_usb_fix::usb::{
    connected_device, connection_info_request, detail_buffer, device_descriptor_request,
    device_path, hub_port_count, node_information_request, probe_string_descriptor_fails,
    query_iproduct_index, query_string_descriptor, query_vid_pid, string_descriptor_request,
    DescriptorRequest, IoReply,
};

fn answered(returned: u32, buffer: Vec<u8>) -> IoReply {
    IoReply { ok: true, error: 0, returned, buffer }
}

fn refused(error: u32) -> IoReply {
    IoReply { ok: false, error, returned: 0, buffer: vec![0u8; 266] }
}

fn string_reply(descriptor: &[u8], returned: u32) -> IoReply {
    let mut buffer = vec![0u8; 266];
    buffer[12..12 + descriptor.len()].copy_from_slice(descriptor);
    answered(returned, buffer)
}

fn connection(vid: u16, pid: u16, hub: u8, status: u32) -> Vec<u8> {
    let mut buffer = vec![0u8; 512];
    buffer[12..14].copy_from_slice(&vid.to_le_bytes());
    buffer[14..16].copy_from_slice(&pid.to_le_bytes());
    buffer[24] = hub;
    buffer[31..35].copy_from_slice(&status.to_le_bytes());
    buffer
}

#[test]
fn request_bytes() {
    let request = DescriptorRequest {
        connection_index: 0x01020304,
        bm_request: 0x80,
        b_request: 0x06,
        w_value: 0x0302,
        w_index: 0x0409,
        w_length: 254,
    };
    let bytes = request.encode();
    assert_eq!(bytes, vec![4u8, 3, 2, 1, 0x80, 6, 2, 3, 9, 4, 254, 0]);
    assert_eq!(DescriptorRequest::decode(&bytes), Some(request));
}

#[test]
fn request_reads_back_whatever_follows() {
    let request = DescriptorRequest {
        connection_index: u32::MAX,
        bm_request: 255,
        b_request: 0,
        w_value: 0xff01,
        w_index: 0x1234,
        w_length: 0xfffe,
    };
    let mut bytes = request.encode();
    bytes.push(99);
    assert_eq!(DescriptorRequest::decode(&bytes), Some(request));
}

#[test]
fn short_request_is_none() {
    assert_eq!(DescriptorRequest::decode(&[0u8; 11]), None);
    assert_eq!(DescriptorRequest::decode(&[]), None);
}

#[test]
fn connection_request_holds_the_port() {
    let request = connection_info_request(0x0102);
    assert_eq!(request.code, 0x00220448);
    assert_eq!(request.input_len, 4);
    assert_eq!(request.buffer.len(), 512);
    assert_eq!(&request.buffer[..5], &[2u8, 1, 0, 0, 0]);
}

#[test]
fn device_request_asks_for_eighteen_bytes() {
    let request = device_descriptor_request(3);
    assert_eq!(request.code, 0x00220410);
    assert_eq!(request.input_len, 30);
    assert_eq!(request.buffer.len(), 30);
    assert_eq!(&request.buffer[..12], &[3u8, 0, 0, 0, 0x80, 6, 0, 1, 0, 0, 18, 0]);
    assert_eq!(&request.buffer[12..], &[0u8; 18]);
}

#[test]
fn string_request_asks_for_english() {
    let request = string_descriptor_request(1, 2);
    assert_eq!(request.code, 0x00220410);
    assert_eq!(request.input_len, 266);
    assert_eq!(request.buffer.len(), 266);
    assert_eq!(&request.buffer[..12], &[1u8, 0, 0, 0, 0x80, 6, 2, 3, 9, 4, 254, 0]);
}

#[test]
fn node_request_has_no_input() {
    let request = node_information_request();
    assert_eq!(request.code, 0x00220408);
    assert_eq!(request.input_len, 0);
    assert_eq!(request.buffer, vec![0u8; 76]);
}

#[test]
fn vendor_and_product_of_a_reply() {
    let buffer = connection(0x30BE, 0x101C, 0, 1);
    assert_eq!(query_vid_pid(&answered(16, buffer.clone())), Some((0x30BE, 0x101C)));
    assert_eq!(query_vid_pid(&answered(u32::MAX, buffer.clone())), Some((0x30BE, 0x101C)));
    assert_eq!(query_vid_pid(&answered(15, buffer)), None);
    assert_eq!(query_vid_pid(&refused(0x1F)), None);
}

#[test]
fn product_index_of_a_reply() {
    let mut buffer = vec![0u8; 30];
    buffer[27] = 2;
    assert_eq!(query_iproduct_index(&answered(28, buffer.clone())), Some(2));
    assert_eq!(query_iproduct_index(&answered(27, buffer)), None);
    assert_eq!(query_iproduct_index(&answered(30, vec![0u8; 30])), None);
    assert_eq!(query_iproduct_index(&refused(0x1F)), None);
}

#[test]
fn text_of_a_string_descriptor() {
    let descriptor = [8u8, 3, b'D', 0, b'A', 0, b'C', 0];
    assert_eq!(query_string_descriptor(&string_reply(&descriptor, 20)), Some("DAC".to_string()));
    assert_eq!(query_string_descriptor(&string_reply(&descriptor, 266)), Some("DAC".to_string()));
}

#[test]
fn broken_string_descriptors_are_none() {
    assert_eq!(query_string_descriptor(&string_reply(&[8, 3, b'D', 0, b'A', 0, b'C', 0], 19)), None);
    assert_eq!(query_string_descriptor(&string_reply(&[8, 3], 13)), None);
    assert_eq!(query_string_descriptor(&string_reply(&[2, 3], 266)), None);
    assert_eq!(query_string_descriptor(&string_reply(&[1, 3], 266)), None);
    assert_eq!(query_string_descriptor(&string_reply(&[0, 3], 266)), None);
    assert_eq!(query_string_descriptor(&string_reply(&[5, 3, b'D', 0, b'A'], 266)), None);
    assert_eq!(query_string_descriptor(&string_reply(&[255, 3], 400)), None);
    assert_eq!(query_string_descriptor(&refused(0x1F)), None);
}

#[test]
fn longest_string_descriptor() {
    let mut descriptor = vec![254u8, 3];
    for _ in 0..126 {
        descriptor.push(b'x');
        descriptor.push(0);
    }
    assert_eq!(query_string_descriptor(&string_reply(&descriptor, 266)), Some("x".repeat(126)));
}

#[test]
fn only_a_general_failure_shows_broken_firmware() {
    assert!(probe_string_descriptor_fails(&refused(0x1F)));
    assert!(!probe_string_descriptor_fails(&refused(5)));
    let fine = IoReply { ok: true, error: 0x1F, returned: 0, buffer: vec![] };
    assert!(!probe_string_descriptor_fails(&fine));
}

#[test]
fn device_on_a_port() {
    assert_eq!(connected_device(&answered(35, connection(1, 2, 0, 1))), Some((1, 2)));
    assert_eq!(connected_device(&answered(34, connection(1, 2, 0, 1))), None);
    assert_eq!(connected_device(&answered(35, connection(1, 2, 1, 1))), None);
    assert_eq!(connected_device(&answered(35, connection(1, 2, 0, 0))), None);
    assert_eq!(connected_device(&answered(35, connection(1, 2, 0, 0x0100_0001))), None);
    assert_eq!(connected_device(&refused(2)), None);
}

#[test]
fn ports_of_a_hub() {
    let mut buffer = vec![0u8; 76];
    buffer[6] = 7;
    assert_eq!(hub_port_count(&answered(0, buffer.clone())), 7);
    assert_eq!(hub_port_count(&IoReply { ok: false, error: 1, returned: 76, buffer }), 0);
}

#[test]
fn detail_buffers() {
    assert_eq!(detail_buffer(6, true), vec![6u8, 0, 0, 0, 0, 0]);
    assert_eq!(detail_buffer(9, false), vec![8u8, 0, 0, 0, 0, 0, 0, 0, 0]);
}

#[test]
fn path_in_detail() {
    let mut detail = vec![8u8, 0, 0, 0];
    for unit in "\\\\?\\usb\u{e9}".encode_utf16() {
        detail.extend_from_slice(&unit.to_le_bytes());
    }
    assert_eq!(device_path(&detail), "\\\\?\\usb\u{e9}");
    detail.extend_from_slice(&[0, 0, b'x', 0, b'y']);
    assert_eq!(device_path(&detail), "\\\\?\\usb\u{e9}");
    assert_eq!(device_path(&[8, 0, 0, 0, 0, 0]), "");
    assert_eq!(device_path(&[8, 0, 0, 0, b'a']), "");
    assert_eq!(device_path(&[8]), "");
}
