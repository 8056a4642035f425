use teams_usb_fix::hubs::{HubListing, ListStep};
use teams_usb_fix::preflight::{device_line, BrokenDevice, PreflightScan, ScanAction};
use teams_usb_fix::usb::{
    connection_info_request, string_descriptor_request, DescriptorRequest, IoReply,
};

struct FakeDevice {
    vid: u16,
    pid: u16,
    is_hub: bool,
    errors: [u32; 3],
}

struct FakeHub {
    path: &'static str,
    opens: bool,
    ports: Vec<Option<FakeDevice>>,
}

fn no(error: u32) -> IoReply {
    IoReply { ok: false, error, returned: 0, buffer: vec![0u8; 512] }
}

fn yes() -> IoReply {
    IoReply { ok: true, error: 0, returned: 0, buffer: vec![] }
}

fn answer(hub: &FakeHub, code: u32, buffer: &[u8]) -> IoReply {
    if code == 0x00220408 {
        let mut node = vec![0u8; 76];
        node[6] = hub.ports.len() as u8;
        return IoReply { ok: true, error: 0, returned: 76, buffer: node };
    }
    let port = u32::from_le_bytes([buffer[0], buffer[1], buffer[2], buffer[3]]) as usize;
    let device = &hub.ports[port - 1];
    if code == 0x00220448 {
        let mut info = connection_info_request(port as u32).buffer;
        if let Some(d) = device {
            info[12..14].copy_from_slice(&d.vid.to_le_bytes());
            info[14..16].copy_from_slice(&d.pid.to_le_bytes());
            info[24] = d.is_hub as u8;
            info[31] = 1;
        }
        return IoReply { ok: true, error: 0, returned: 512, buffer: info };
    }
    let request = DescriptorRequest::decode(buffer).unwrap();
    let index = (request.w_value & 0xff) as usize;
    assert_eq!(buffer, &string_descriptor_request(port as u32, index as u8).buffer[..]);
    match device.as_ref().unwrap().errors[index - 1] {
        0 => yes(),
        error => no(error),
    }
}

fn scan(hubs: &[FakeHub]) -> (Vec<BrokenDevice>, u32) {
    let paths = hubs.iter().map(|hub| hub.path.to_string()).collect();
    let mut scan = PreflightScan::new(paths);
    let mut at = 0;
    let mut open = 0;
    let mut opened = 0;
    loop {
        let reply = match scan.action() {
            ScanAction::OpenHub(path) => {
                assert_eq!(open, 0);
                at = hubs.iter().position(|hub| hub.path == path).unwrap();
                if hubs[at].opens {
                    open = 1;
                    opened += 1;
                    yes()
                } else {
                    no(2)
                }
            }
            ScanAction::Control(request) => {
                assert_eq!(open, 1);
                answer(&hubs[at], request.code, &request.buffer)
            }
            ScanAction::CloseHub => {
                open = 0;
                yes()
            }
            ScanAction::Finish => break,
        };
        scan = scan.advance(&reply);
    }
    assert_eq!(open, 0);
    (scan.into_broken(), opened)
}

fn device(vid: u16, errors: [u32; 3]) -> Option<FakeDevice> {
    Some(FakeDevice { vid, pid: 0x101C, is_hub: false, errors })
}

#[test]
fn broken_devices_are_found_hub_by_hub() {
    let hubs = [
        FakeHub {
            path: "first",
            opens: true,
            ports: vec![
                None,
                device(0x30BE, [0, 0, 0x1F]),
                device(1, [0, 0, 0]),
                Some(FakeDevice { vid: 2, pid: 2, is_hub: true, errors: [0x1F, 0x1F, 0x1F] }),
                device(3, [5, 0, 0]),
            ],
        },
        FakeHub { path: "closed", opens: false, ports: vec![device(4, [0x1F, 0x1F, 0x1F])] },
        FakeHub { path: "empty", opens: true, ports: vec![] },
        FakeHub { path: "last", opens: true, ports: vec![device(5, [0x1F, 0x1F, 0x1F])] },
    ];
    let (broken, opened) = scan(&hubs);
    assert_eq!(opened, 3);
    assert_eq!(broken.len(), 2);
    assert_eq!(broken[0].vid, 0x30BE);
    assert_eq!(broken[0].pid, 0x101C);
    assert_eq!(broken[0].hub_path, "first");
    assert_eq!(broken[0].port, 2);
    assert_eq!(broken[0].failed_string_indices, vec![3u8]);
    assert_eq!(broken[1].vid, 5);
    assert_eq!(broken[1].hub_path, "last");
    assert_eq!(broken[1].port, 1);
    assert_eq!(broken[1].failed_string_indices, vec![1u8, 2, 3]);
}

#[test]
fn check_without_hubs_finds_nothing() {
    let (broken, opened) = scan(&[]);
    assert!(broken.is_empty());
    assert_eq!(opened, 0);
}

#[test]
fn check_of_a_hub_with_all_ports() {
    let mut ports = Vec::new();
    for _ in 0..255 {
        ports.push(device(9, [0, 0x1F, 0]));
    }
    let (broken, _) = scan(&[FakeHub { path: "big", opens: true, ports }]);
    assert_eq!(broken.len(), 255);
    assert_eq!(broken[254].port, 255);
}

#[test]
fn report_of_a_device() {
    let device = BrokenDevice {
        vid: 0x30BE,
        pid: 0x101C,
        hub_path: "hub".to_string(),
        port: 4,
        failed_string_indices: vec![1, 3],
    };
    assert_eq!(
        device_line("  ", &device),
        "  VID:30BE PID:101C  port 4  hub: hub  failed indices: [1, 3]"
    );
}

fn detail(path: &str) -> Vec<u8> {
    let mut bytes = vec![8u8, 0, 0, 0];
    for unit in path.encode_utf16() {
        bytes.extend_from_slice(&unit.to_le_bytes());
    }
    bytes.extend_from_slice(&[0, 0]);
    bytes
}

#[test]
fn listing_finds_the_paths_in_their_order() {
    let interfaces: Vec<(u32, bool, Vec<u8>)> = vec![
        (12, true, detail("one")),
        (5, true, detail("short")),
        (12, false, detail("refused")),
        (6, true, detail("")),
        (40, true, detail("two\u{e9}")),
    ];
    let mut listing = HubListing::new(false);
    let mut closed = false;
    loop {
        let reply = match listing.step() {
            ListStep::OpenList => yes(),
            ListStep::Interface { index } => {
                if (index as usize) < interfaces.len() { yes() } else { no(259) }
            }
            ListStep::AskSize { next } => {
                IoReply { ok: false, error: 122, returned: interfaces[next as usize - 1].0, buffer: vec![] }
            }
            ListStep::AskDetail { next, size } => {
                let buffer = listing.detail_request().unwrap();
                assert_eq!(buffer.len(), size as usize);
                assert_eq!(&buffer[..4], &[8u8, 0, 0, 0]);
                let (_, ok, bytes) = &interfaces[next as usize - 1];
                IoReply { ok: *ok, error: 0, returned: size, buffer: bytes.clone() }
            }
            ListStep::CloseList => {
                closed = true;
                yes()
            }
            ListStep::Finished => break,
        };
        listing = listing.advance(&reply);
    }
    assert!(closed);
    assert_eq!(listing.into_paths(), vec!["one".to_string(), "two\u{e9}".to_string()]);
}

#[test]
fn listing_without_a_list_is_empty() {
    let listing = HubListing::new(true).advance(&no(1));
    assert_eq!(listing.step(), ListStep::Finished);
    assert!(listing.detail_request().is_none());
    assert!(listing.into_paths().is_empty());
}
