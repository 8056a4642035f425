use teams_usb_fix::serial::{build_synthetic_serial, port_hash, synthetic_serial};
use teams_usb_fix::usb::{query_string_descriptor, IoReply};

fn reference_hash(handle: isize, port: u32) -> u16 {
    let mut h: u32 = 0x811c_9dc5;
    for &b in handle.to_le_bytes().iter().chain(port.to_le_bytes().iter()) {
        h ^= b as u32;
        h = h.wrapping_mul(0x0100_0193);
    }
    ((h ^ (h >> 16)) & 0xFFFF) as u16
}

#[test]
fn hash_of_known_places() {
    if isize::BITS == 64 {
        assert_eq!(port_hash(0, 0), 0x8089);
        assert_eq!(port_hash(0, 1), 0xb1b4);
        assert_eq!(port_hash(0x1234, 3), 0xcec0);
        assert_eq!(port_hash(-1, 1), 0xc7f7);
        assert_eq!(port_hash(-5, 4294967295), 0xd3e7);
    }
}

#[test]
fn hash_is_fnv1a_folded() {
    for handle in [0isize, 1, -1, 0x2a4, isize::MAX, isize::MIN] {
        for port in [0u32, 1, 2, 255, 256, u32::MAX] {
            assert_eq!(port_hash(handle, port), reference_hash(handle, port));
        }
    }
}

#[test]
fn serial_shows_the_hash() {
    let hash = port_hash(0x2a4, 2);
    assert_eq!(synthetic_serial(0x2a4, 2), format!("USBFIX-{:04X}", hash));
    assert_eq!(synthetic_serial(0x2a4, 2), synthetic_serial(0x2a4, 2));
}

#[test]
fn serials_differ_where_hashes_do() {
    assert_ne!(port_hash(0x2a4, 1), port_hash(0x2a4, 2));
    assert_ne!(synthetic_serial(0x2a4, 1), synthetic_serial(0x2a4, 2));
}

#[test]
fn descriptor_is_written_behind_the_request() {
    let mut out = vec![0xAAu8; 40];
    assert_eq!(build_synthetic_serial(&mut out, 0x1234, 3), 36);
    assert_eq!(&out[..12], &[0xAAu8; 12]);
    assert_eq!(&out[36..], &[0xAAu8; 4]);
    assert_eq!(out[12], 24);
    assert_eq!(out[13], 3);
    let text: String = synthetic_serial(0x1234, 3);
    let bytes: Vec<u8> = text.encode_utf16().flat_map(|u| u.to_le_bytes()).collect();
    assert_eq!(&out[14..36], &bytes[..]);
}

#[test]
fn small_buffers_are_left_alone() {
    let mut out = vec![0xAAu8; 35];
    assert_eq!(build_synthetic_serial(&mut out, 1, 1), 0);
    assert_eq!(out, vec![0xAAu8; 35]);
    let mut none: Vec<u8> = vec![];
    assert_eq!(build_synthetic_serial(&mut none, 1, 1), 0);
}

#[test]
fn written_serial_reads_back() {
    let mut out = vec![0u8; 266];
    let written = build_synthetic_serial(&mut out, -7, 4);
    let reply = IoReply { ok: true, error: 0, returned: written, buffer: out };
    assert_eq!(query_string_descriptor(&reply), Some(synthetic_serial(-7, 4)));
}
