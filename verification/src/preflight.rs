//! The check before anything is fixed: which USB devices have string
//! descriptors that cannot be read.

use vstd::prelude::*;
use crate::text::{push_byte_list, push_decimal, push_hex4};
use crate::text::{decimal, hex4, list_text};
use crate::usb::{
    IoReply, IoRequest, connected_device, connection_info_request, hub_port_count,
    node_information_request, probe_string_descriptor_fails, string_descriptor_request,
};
use crate::usb::{
    ReplyView, RequestView, connection_request, node_request, port_count, port_device, probe_fails,
    string_request,
};

verus! {

/// The last of the string descriptor indices that are probed: manufacturer,
/// product and serial number.
pub const LAST_PROBED_INDEX: u8 = 3;

/// A USB device found to have at least one broken string descriptor.
#[derive(Debug)]
pub struct BrokenDevice {
    pub vid: u16,
    pub pid: u16,
    pub hub_path: String,
    pub port: u32,
    pub failed_string_indices: Vec<u8>,
}

/// What is reported of a device with a broken string descriptor.
#[verifier::ext_equal]
pub struct BrokenView {
    pub vid: u16,
    pub pid: u16,
    pub hub_path: Seq<char>,
    pub port: u32,
    pub failed_string_indices: Seq<u8>,
}

impl View for BrokenDevice {
    type V = BrokenView;

    open spec fn view(&self) -> BrokenView {
        BrokenView {
            vid: self.vid,
            pid: self.pid,
            hub_path: self.hub_path@,
            port: self.port,
            failed_string_indices: self.failed_string_indices@,
        }
    }
}

/// What is reported of each of some devices.
pub open spec fn broken_views(devices: Seq<BrokenDevice>) -> Seq<BrokenView> {
    devices.map_values(|device: BrokenDevice| device@)
}

/// The texts in `texts`.
pub open spec fn text_views(texts: Seq<String>) -> Seq<Seq<char>> {
    texts.map_values(|text: String| text@)
}

/// One device in a report.
pub open spec fn device_text(device: BrokenView) -> Seq<char> {
    "VID:"@ + hex4(device.vid) + " PID:"@ + hex4(device.pid) + "  port "@ + decimal(
        device.port as nat,
    ) + "  hub: "@ + device.hub_path + "  failed indices: "@ + list_text(
        device.failed_string_indices.map_values(|i: u8| i as nat),
    )
}

/// Reports one device, behind `prefix`.
pub fn device_line(prefix: &str, device: &BrokenDevice) -> (line: String)
    ensures
        line@ == prefix@ + device_text(device@),
{
    let mut line: String = String::new();
    line.append(prefix);
    line.append("VID:");
    push_hex4(&mut line, device.vid);
    line.append(" PID:");
    push_hex4(&mut line, device.pid);
    line.append("  port ");
    push_decimal(&mut line, device.port as u64);
    line.append("  hub: ");
    line.append(&device.hub_path);
    line.append("  failed indices: ");
    push_byte_list(&mut line, &device.failed_string_indices);
    line
}

/// What the check does next.
#[derive(Clone, Copy, Debug, PartialEq, Eq, Structural)]
pub enum ScanStep {
    /// Open the hub.
    OpenHub,
    /// Ask the hub how many ports it has.
    AskNode,
    /// Ask what is connected to a port.
    AskConnection { port: u8, count: u8 },
    /// Ask the device on a port for a string descriptor.
    Probe { port: u8, count: u8, vid: u16, pid: u16, index: u8 },
    /// Close the hub.
    CloseHub,
    /// Nothing; every hub was checked.
    Finished,
}

/// How far the check has come: the paths of the hubs, the hub at hand, the next
/// step, the indices that failed on the device at hand, and the devices found.
pub struct PreflightScan {
    hub_paths: Vec<String>,
    hub: usize,
    step: ScanStep,
    failed: Vec<u8>,
    broken: Vec<BrokenDevice>,
}

/// How far the check has come.
#[verifier::ext_equal]
pub struct ScanView {
    pub hub_paths: Seq<Seq<char>>,
    pub hub: nat,
    pub step: ScanStep,
    pub failed: Seq<u8>,
    pub broken: Seq<BrokenView>,
}

/// Work to do outside for the check.
#[derive(Debug)]
pub enum ScanAction {
    OpenHub(String),
    Control(IoRequest),
    CloseHub,
    Finish,
}

/// Work to do outside for the check.
#[verifier::ext_equal]
pub enum ScanActionView {
    OpenHub(Seq<char>),
    Control(RequestView),
    CloseHub,
    Finish,
}

impl View for ScanAction {
    type V = ScanActionView;

    open spec fn view(&self) -> ScanActionView {
        match self {
            ScanAction::OpenHub(path) => ScanActionView::OpenHub(path@),
            ScanAction::Control(request) => ScanActionView::Control(request@),
            ScanAction::CloseHub => ScanActionView::CloseHub,
            ScanAction::Finish => ScanActionView::Finish,
        }
    }
}

/// The work that a step asks for.
pub open spec fn scan_action(scan: ScanView) -> ScanActionView {
    match scan.step {
        ScanStep::OpenHub => ScanActionView::OpenHub(scan.hub_paths[scan.hub as int]),
        ScanStep::AskNode => ScanActionView::Control(node_request()),
        ScanStep::AskConnection { port, .. } => ScanActionView::Control(
            connection_request(port as u32),
        ),
        ScanStep::Probe { port, index, .. } => ScanActionView::Control(
            string_request(port as u32, index),
        ),
        ScanStep::CloseHub => ScanActionView::CloseHub,
        ScanStep::Finished => ScanActionView::Finish,
    }
}

/// The check of the hub at hand is over.
pub open spec fn past_hub(scan: ScanView) -> ScanView {
    ScanView {
        hub: scan.hub + 1,
        step: if scan.hub + 1 < scan.hub_paths.len() {
            ScanStep::OpenHub
        } else {
            ScanStep::Finished
        },
        ..scan
    }
}

/// What follows the check of `port` on a hub with `count` ports.
pub open spec fn past_port(port: u8, count: u8) -> ScanStep {
    if port < count {
        ScanStep::AskConnection { port: (port + 1) as u8, count }
    } else {
        ScanStep::CloseHub
    }
}

/// How far the check has come after an answer.
pub open spec fn scan_next(scan: ScanView, reply: ReplyView) -> ScanView {
    match scan.step {
        ScanStep::OpenHub => if reply.ok {
            ScanView { step: ScanStep::AskNode, ..scan }
        } else {
            past_hub(scan)
        },
        ScanStep::AskNode => ScanView {
            step: if port_count(reply) == 0 {
                ScanStep::CloseHub
            } else {
                ScanStep::AskConnection { port: 1, count: port_count(reply) }
            },
            ..scan
        },
        ScanStep::AskConnection { port, count } => match port_device(reply) {
            Some((vid, pid)) => ScanView {
                step: ScanStep::Probe { port, count, vid, pid, index: 1 },
                failed: Seq::empty(),
                ..scan
            },
            None => ScanView { step: past_port(port, count), ..scan },
        },
        ScanStep::Probe { port, count, vid, pid, index } => {
            let failed = if probe_fails(reply) {
                scan.failed.push(index)
            } else {
                scan.failed
            };
            if index < LAST_PROBED_INDEX {
                ScanView {
                    step: ScanStep::Probe { port, count, vid, pid, index: (index + 1) as u8 },
                    failed,
                    ..scan
                }
            } else {
                ScanView {
                    step: past_port(port, count),
                    failed: Seq::empty(),
                    broken: if failed.len() == 0 {
                        scan.broken
                    } else {
                        scan.broken.push(
                            BrokenView {
                                vid,
                                pid,
                                hub_path: scan.hub_paths[scan.hub as int],
                                port: port as u32,
                                failed_string_indices: failed,
                            },
                        )
                    },
                    ..scan
                }
            }
        },
        ScanStep::CloseHub => past_hub(scan),
        ScanStep::Finished => scan,
    }
}

/// The check of the given hubs before its first step.
pub open spec fn scan_start(hub_paths: Seq<Seq<char>>) -> ScanView {
    ScanView {
        hub_paths,
        hub: 0,
        step: if hub_paths.len() > 0 {
            ScanStep::OpenHub
        } else {
            ScanStep::Finished
        },
        failed: Seq::empty(),
        broken: Seq::empty(),
    }
}

impl View for PreflightScan {
    type V = ScanView;

    closed spec fn view(&self) -> ScanView {
        ScanView {
            hub_paths: text_views(self.hub_paths@),
            hub: self.hub as nat,
            step: self.step,
            failed: self.failed@,
            broken: broken_views(self.broken@),
        }
    }
}

impl PreflightScan {
    /// While the check goes on, there is a hub at hand.
    #[verifier::type_invariant]
    spec fn has_hub(self) -> bool {
        self.step is Finished || self.hub < self.hub_paths.len()
    }

    /// Starts the check of the given hubs.
    pub fn new(hub_paths: Vec<String>) -> (scan: PreflightScan)
        ensures
            scan@ == scan_start(text_views(hub_paths@)),
    {
        let step: ScanStep = if hub_paths.len() > 0 {
            ScanStep::OpenHub
        } else {
            ScanStep::Finished
        };
        let scan: PreflightScan = PreflightScan {
            hub_paths,
            hub: 0,
            step,
            failed: Vec::new(),
            broken: Vec::new(),
        };
        assert(scan@ =~= scan_start(text_views(hub_paths@)));
        scan
    }

    /// The work that is to be done next.
    pub fn action(&self) -> (action: ScanAction)
        ensures
            action@ == scan_action(self@),
    {
        proof {
            use_type_invariant(self);
        }
        match self.step {
            ScanStep::OpenHub => ScanAction::OpenHub(self.hub_paths[self.hub].clone()),
            ScanStep::AskNode => ScanAction::Control(node_information_request()),
            ScanStep::AskConnection { port, .. } => ScanAction::Control(
                connection_info_request(port as u32),
            ),
            ScanStep::Probe { port, index, .. } => ScanAction::Control(
                string_descriptor_request(port as u32, index),
            ),
            ScanStep::CloseHub => ScanAction::CloseHub,
            ScanStep::Finished => ScanAction::Finish,
        }
    }

    fn next_hub(self) -> (scan: PreflightScan)
        requires
            self.hub < self.hub_paths.len(),
        ensures
            scan@ == past_hub(self@),
    {
        let hub: usize = self.hub + 1;
        let step: ScanStep = if hub < self.hub_paths.len() {
            ScanStep::OpenHub
        } else {
            ScanStep::Finished
        };
        PreflightScan {
            hub_paths: self.hub_paths,
            hub,
            step,
            failed: self.failed,
            broken: self.broken,
        }
    }

    /// Takes the outcome of the work.
    pub fn advance(self, reply: &IoReply) -> (scan: PreflightScan)
        ensures
            scan@ == scan_next(self@, reply@),
    {
        proof {
            use_type_invariant(&self);
        }
        let ghost before = self@;
        match self.step {
            ScanStep::OpenHub => if reply.ok {
                PreflightScan {
                    hub_paths: self.hub_paths,
                    hub: self.hub,
                    step: ScanStep::AskNode,
                    failed: self.failed,
                    broken: self.broken,
                }
            } else {
                self.next_hub()
            },
            ScanStep::AskNode => {
                let count: u8 = hub_port_count(reply);
                let step: ScanStep = if count == 0 {
                    ScanStep::CloseHub
                } else {
                    ScanStep::AskConnection { port: 1, count }
                };
                PreflightScan {
                    hub_paths: self.hub_paths,
                    hub: self.hub,
                    step,
                    failed: self.failed,
                    broken: self.broken,
                }
            },
            ScanStep::AskConnection { port, count } => match connected_device(reply) {
                Some((vid, pid)) => PreflightScan {
                    hub_paths: self.hub_paths,
                    hub: self.hub,
                    step: ScanStep::Probe { port, count, vid, pid, index: 1 },
                    failed: Vec::new(),
                    broken: self.broken,
                },
                None => PreflightScan {
                    hub_paths: self.hub_paths,
                    hub: self.hub,
                    step: step_past_port(port, count),
                    failed: self.failed,
                    broken: self.broken,
                },
            },
            ScanStep::Probe { port, count, vid, pid, index } => {
                let mut failed: Vec<u8> = self.failed;
                if probe_string_descriptor_fails(reply) {
                    failed.push(index);
                }
                if index < LAST_PROBED_INDEX {
                    return PreflightScan {
                        hub_paths: self.hub_paths,
                        hub: self.hub,
                        step: ScanStep::Probe { port, count, vid, pid, index: index + 1 },
                        failed,
                        broken: self.broken,
                    };
                }
                let mut broken: Vec<BrokenDevice> = self.broken;
                if failed.len() > 0 {
                    let device: BrokenDevice = BrokenDevice {
                        vid,
                        pid,
                        hub_path: self.hub_paths[self.hub].clone(),
                        port: port as u32,
                        failed_string_indices: failed,
                    };
                    let ghost view = device@;
                    broken.push(device);
                    assert(broken_views(broken@) =~= before.broken.push(view));
                }
                PreflightScan {
                    hub_paths: self.hub_paths,
                    hub: self.hub,
                    step: step_past_port(port, count),
                    failed: Vec::new(),
                    broken,
                }
            },
            ScanStep::CloseHub => self.next_hub(),
            ScanStep::Finished => self,
        }
    }

    /// Hands out the devices found.
    pub fn into_broken(self) -> (broken: Vec<BrokenDevice>)
        ensures
            broken_views(broken@) == self@.broken,
    {
        self.broken
    }
}

/// What follows the check of `port` on a hub with `count` ports.
fn step_past_port(port: u8, count: u8) -> (step: ScanStep)
    ensures
        step == past_port(port, count),
{
    if port < count {
        ScanStep::AskConnection { port: port + 1, count }
    } else {
        ScanStep::CloseHub
    }
}

/// A hub that was opened is closed before the check goes on to another or ends.
pub proof fn law_open_hub_is_closed(scan: ScanView, reply: ReplyView)
    requires
        scan.step is AskNode || scan.step is AskConnection || scan.step is Probe,
    ensures
        ({
            let next = scan_next(scan, reply);
            &&& next.hub == scan.hub
            &&& next.step is AskConnection || next.step is Probe || next.step is CloseHub
        }),
{
}

/// A hub as it answers the check: whether it opens, what it says of itself, what
/// it says of the device on each port, and how each string descriptor of that
/// device reads.
pub struct HubModel {
    pub opens: ReplyView,
    pub node: ReplyView,
    pub connection: spec_fn(u8) -> ReplyView,
    pub string: spec_fn(u8, u8) -> ReplyView,
}

impl HubModel {
    /// Those of the first `n` string descriptors of the device on `port` that
    /// fail with a general failure.
    pub open spec fn failed_indices(self, port: u8, n: nat) -> Seq<u8>
        decreases n,
    {
        if n == 0 {
            Seq::empty()
        } else {
            let before = self.failed_indices(port, (n - 1) as nat);
            if probe_fails((self.string)(port, n as u8)) {
                before.push(n as u8)
            } else {
                before
            }
        }
    }

    /// What there is to report of `port`: the device on it, if there is one
    /// that is not a hub and any of its string descriptors fails.
    pub open spec fn port_findings(self, path: Seq<char>, port: u8) -> Seq<BrokenView> {
        let failed = self.failed_indices(port, LAST_PROBED_INDEX as nat);
        match port_device((self.connection)(port)) {
            Some((vid, pid)) => if failed.len() == 0 {
                Seq::empty()
            } else {
                seq![
                    BrokenView {
                        vid,
                        pid,
                        hub_path: path,
                        port: port as u32,
                        failed_string_indices: failed,
                    },
                ]
            },
            None => Seq::empty(),
        }
    }

    /// What there is to report of the first `ports` ports.
    pub open spec fn findings(self, path: Seq<char>, ports: nat) -> Seq<BrokenView>
        decreases ports,
    {
        if ports == 0 {
            Seq::empty()
        } else {
            self.findings(path, (ports - 1) as nat) + self.port_findings(path, ports as u8)
        }
    }

    /// What there is to report of the hub: of all its ports, if it opens.
    pub open spec fn report(self, path: Seq<char>) -> Seq<BrokenView> {
        if self.opens.ok {
            self.findings(path, port_count(self.node) as nat)
        } else {
            Seq::empty()
        }
    }
}

/// What there is to report of the first `n` hubs.
pub open spec fn report_of(paths: Seq<Seq<char>>, hubs: Seq<HubModel>, n: nat) -> Seq<BrokenView>
    decreases n,
{
    if n == 0 {
        Seq::empty()
    } else {
        report_of(paths, hubs, (n - 1) as nat) + hubs[n - 1].report(paths[n - 1])
    }
}

/// The answer that the hubs give to the next step of the check.
pub open spec fn scan_answer(hubs: Seq<HubModel>, scan: ScanView) -> ReplyView {
    let hub = hubs[scan.hub as int];
    match scan.step {
        ScanStep::AskNode => hub.node,
        ScanStep::AskConnection { port, .. } => (hub.connection)(port),
        ScanStep::Probe { port, index, .. } => (hub.string)(port, index),
        _ => hub.opens,
    }
}

/// The check after at most `fuel` more steps.
pub open spec fn scan_run(hubs: Seq<HubModel>, scan: ScanView, fuel: nat) -> ScanView
    decreases fuel,
{
    if fuel == 0 || scan.step == ScanStep::Finished {
        scan
    } else {
        scan_run(hubs, scan_next(scan, scan_answer(hubs, scan)), (fuel - 1) as nat)
    }
}

/// No more than so many steps are left of the check.
pub open spec fn scan_steps_left(scan: ScanView) -> int {
    (scan.hub_paths.len() - scan.hub) * 2000 + match scan.step {
        ScanStep::OpenHub => 2000,
        ScanStep::AskNode => 1999,
        ScanStep::AskConnection { port, count } => 6 + 5 * (count - port),
        ScanStep::Probe { port, count, index, .. } => 5 + 5 * (count - port) - index,
        ScanStep::CloseHub => 1,
        ScanStep::Finished => 0,
    }
}

/// What the check has found so far is what there is to report of the hubs and
/// ports behind it.
spec fn scan_on_track(hubs: Seq<HubModel>, scan: ScanView) -> bool {
    let path = scan.hub_paths[scan.hub as int];
    let hub = hubs[scan.hub as int];
    let behind = report_of(scan.hub_paths, hubs, scan.hub);
    &&& hubs.len() == scan.hub_paths.len()
    &&& match scan.step {
        ScanStep::OpenHub => {
            &&& scan.hub < hubs.len()
            &&& scan.broken == behind
        },
        ScanStep::AskNode => {
            &&& scan.hub < hubs.len()
            &&& hub.opens.ok
            &&& scan.broken == behind
        },
        ScanStep::AskConnection { port, count } => {
            &&& scan.hub < hubs.len()
            &&& hub.opens.ok
            &&& count == port_count(hub.node)
            &&& 1 <= port <= count
            &&& scan.broken == behind + hub.findings(path, (port - 1) as nat)
        },
        ScanStep::Probe { port, count, vid, pid, index } => {
            &&& scan.hub < hubs.len()
            &&& hub.opens.ok
            &&& count == port_count(hub.node)
            &&& 1 <= port <= count
            &&& port_device((hub.connection)(port)) == Some((vid, pid))
            &&& 1 <= index <= LAST_PROBED_INDEX
            &&& scan.failed == hub.failed_indices(port, (index - 1) as nat)
            &&& scan.broken == behind + hub.findings(path, (port - 1) as nat)
        },
        ScanStep::CloseHub => {
            &&& scan.hub < hubs.len()
            &&& hub.opens.ok
            &&& scan.broken == behind + hub.report(path)
        },
        ScanStep::Finished => {
            &&& scan.hub == hubs.len()
            &&& scan.broken == behind
        },
    }
}

/// Each step keeps the check on track and leaves fewer to come.
proof fn lemma_scan_step(hubs: Seq<HubModel>, scan: ScanView)
    requires
        scan_on_track(hubs, scan),
        scan.step != ScanStep::Finished,
    ensures
        ({
            let next = scan_next(scan, scan_answer(hubs, scan));
            &&& scan_on_track(hubs, next)
            &&& next.hub_paths == scan.hub_paths
            &&& 0 <= scan_steps_left(next) < scan_steps_left(scan)
        }),
{
    let path = scan.hub_paths[scan.hub as int];
    let hub = hubs[scan.hub as int];
    let next = scan_next(scan, scan_answer(hubs, scan));
    let behind = report_of(scan.hub_paths, hubs, scan.hub);
    assert(report_of(scan.hub_paths, hubs, scan.hub + 1) == behind + hub.report(path));
    match scan.step {
        ScanStep::OpenHub => {
            assert(behind + Seq::<BrokenView>::empty() =~= behind);
        },
        ScanStep::AskNode => {
            assert(behind + Seq::<BrokenView>::empty() =~= behind);
        },
        ScanStep::AskConnection { port, count } => {
            if port_device((hub.connection)(port)) is None {
                assert(hub.findings(path, port as nat) =~= hub.findings(path, (port - 1) as nat));
            }
        },
        ScanStep::Probe { port, count, vid, pid, index } => {
            let failed = hub.failed_indices(port, index as nat);
            assert(failed == if probe_fails((hub.string)(port, index)) {
                scan.failed.push(index)
            } else {
                scan.failed
            });
            if index == LAST_PROBED_INDEX {
                assert(next.broken =~= behind + hub.findings(path, port as nat));
            }
        },
        _ => {},
    }
}

/// A check that is on track ends with everything there is to report.
proof fn lemma_scan_run(hubs: Seq<HubModel>, scan: ScanView, fuel: nat)
    requires
        scan_on_track(hubs, scan),
        0 <= scan_steps_left(scan) <= fuel,
    ensures
        ({
            let end = scan_run(hubs, scan, fuel);
            &&& end.step == ScanStep::Finished
            &&& end.broken == report_of(scan.hub_paths, hubs, hubs.len())
        }),
    decreases fuel,
{
    if scan.step != ScanStep::Finished {
        lemma_scan_step(hubs, scan);
        lemma_scan_run(hubs, scan_next(scan, scan_answer(hubs, scan)), (fuel - 1) as nat);
    }
}

/// The check comes to an end, whatever the hubs answer, and finds exactly the
/// devices with a broken string descriptor, hub by hub and port by port: each
/// connected device that is not a hub and that fails with a general failure to
/// give at least one of its first three string descriptors.
pub proof fn law_preflight_finds_broken_devices(paths: Seq<Seq<char>>, hubs: Seq<HubModel>)
    requires
        hubs.len() == paths.len(),
    ensures
        exists|steps: nat|
            {
                let end = #[trigger] scan_run(hubs, scan_start(paths), steps);
                &&& end.step == ScanStep::Finished
                &&& end.broken == report_of(paths, hubs, hubs.len())
            },
{
    let start = scan_start(paths);
    let steps = scan_steps_left(start) as nat;
    lemma_scan_run(hubs, start, steps);
    let end = scan_run(hubs, start, steps);
    assert(end.step == ScanStep::Finished);
}

/// The check goes hub by hub: it starts at the first, goes on to the next when a
/// hub is closed or does not open, and ends behind the last. Nothing found so far
/// is lost on the way.
pub proof fn law_check_goes_hub_by_hub(scan: ScanView, reply: ReplyView)
    ensures
        scan_start(scan.hub_paths).hub == 0,
        scan_start(scan.hub_paths).hub_paths == scan.hub_paths,
        scan_start(scan.hub_paths).broken.len() == 0,
        scan.hub_paths.len() > 0 ==> scan_start(scan.hub_paths).step == ScanStep::OpenHub,
        scan.hub_paths.len() == 0 ==> scan_start(scan.hub_paths).step == ScanStep::Finished,
        scan_next(scan, reply).hub_paths == scan.hub_paths,
        scan.broken.len() <= scan_next(scan, reply).broken.len() <= scan.broken.len() + 1,
        scan_next(scan, reply).broken.take(scan.broken.len() as int) == scan.broken,
        scan.step == ScanStep::OpenHub && reply.ok ==> scan_next(scan, reply).step
            == ScanStep::AskNode && scan_next(scan, reply).hub == scan.hub,
        scan.step == ScanStep::CloseHub || (scan.step == ScanStep::OpenHub && !reply.ok) ==> ({
            let next = scan_next(scan, reply);
            &&& next.hub == scan.hub + 1
            &&& next.broken == scan.broken
            &&& scan.hub + 1 < scan.hub_paths.len() ==> next.step == ScanStep::OpenHub
            &&& scan.hub + 1 >= scan.hub_paths.len() ==> next.step == ScanStep::Finished
        }),
        scan.step == ScanStep::Finished ==> scan_next(scan, reply) == scan,
{
}

/// On a hub, the check starts at port 1 of as many as the hub says it has; it
/// closes a hub without ports at once.
pub proof fn law_check_starts_at_the_first_port(scan: ScanView, reply: ReplyView)
    requires
        scan.step == ScanStep::AskNode,
    ensures
        scan_next(scan, reply).broken == scan.broken,
        scan_next(scan, reply).hub == scan.hub,
        !reply.ok || reply.buffer.len() <= 6 || reply.buffer[6] == 0 ==> scan_next(scan, reply).step
            == ScanStep::CloseHub,
        reply.ok && reply.buffer.len() > 6 && reply.buffer[6] > 0 ==> scan_next(scan, reply).step
            == (ScanStep::AskConnection { port: 1, count: reply.buffer[6] }),
{
}

/// What comes after a port: the next one, up to the last, and then the hub is
/// closed.
pub proof fn law_check_goes_port_by_port(port: u8, count: u8)
    requires
        1 <= port <= count,
    ensures
        port == count ==> past_port(port, count) == ScanStep::CloseHub,
        port < count ==> (past_port(port, count) matches ScanStep::AskConnection {
            port: next,
            count: same,
        } && next == port + 1 && same == count),
{
}

/// A port without a device to check is passed over.
pub proof fn law_port_without_device_is_passed_over(
    scan: ScanView,
    port: u8,
    count: u8,
    connection: ReplyView,
)
    requires
        scan.step == (ScanStep::AskConnection { port, count }),
        port_device(connection) is None,
    ensures
        scan_next(scan, connection).step == past_port(port, count),
        scan_next(scan, connection).broken == scan.broken,
        scan_next(scan, connection).hub == scan.hub,
{
}

/// A device is asked for its strings 1, 2 and 3 and for no other, and the check
/// then goes on behind its port. It is reported, with its IDs, its hub and its
/// port, if and only if it failed to give one of them, and with exactly those
/// that it failed to give.
pub proof fn law_device_is_asked_for_three_strings(
    scan: ScanView,
    port: u8,
    count: u8,
    connection: ReplyView,
    first: ReplyView,
    second: ReplyView,
    third: ReplyView,
)
    requires
        scan.step == (ScanStep::AskConnection { port, count }),
        port_device(connection) is Some,
    ensures
        ({
            let s1 = scan_next(scan, connection);
            let s2 = scan_next(s1, first);
            let s3 = scan_next(s2, second);
            let s4 = scan_next(s3, third);
            let (vid, pid) = port_device(connection)->0;
            &&& scan_action(s1) == ScanActionView::Control(string_request(port as u32, 1))
            &&& scan_action(s2) == ScanActionView::Control(string_request(port as u32, 2))
            &&& scan_action(s3) == ScanActionView::Control(string_request(port as u32, 3))
            &&& s4.step == past_port(port, count)
            &&& s4.hub == scan.hub
            &&& !probe_fails(first) && !probe_fails(second) && !probe_fails(third) ==> s4.broken
                == scan.broken
            &&& probe_fails(first) || probe_fails(second) || probe_fails(third) ==> {
                let found = s4.broken.last();
                &&& s4.broken.len() == scan.broken.len() + 1
                &&& s4.broken.drop_last() == scan.broken
                &&& found.vid == vid && found.pid == pid && found.port == port
                &&& found.hub_path == scan.hub_paths[scan.hub as int]
                &&& found.failed_string_indices == (if probe_fails(first) {
                    seq![1u8]
                } else {
                    Seq::<u8>::empty()
                }) + (if probe_fails(second) {
                    seq![2u8]
                } else {
                    Seq::<u8>::empty()
                }) + (if probe_fails(third) {
                    seq![3u8]
                } else {
                    Seq::<u8>::empty()
                })
            }
        }),
{
    let s1 = scan_next(scan, connection);
    let s2 = scan_next(s1, first);
    let s3 = scan_next(s2, second);
    let s4 = scan_next(s3, third);
    let indices = (if probe_fails(first) {
        seq![1u8]
    } else {
        Seq::<u8>::empty()
    }) + (if probe_fails(second) {
        seq![2u8]
    } else {
        Seq::<u8>::empty()
    }) + (if probe_fails(third) {
        seq![3u8]
    } else {
        Seq::<u8>::empty()
    });
    if probe_fails(first) || probe_fails(second) || probe_fails(third) {
        assert(s4.broken.last().failed_string_indices =~= indices);
        assert(s4.broken.drop_last() =~= scan.broken);
    }
}

/// Each step asks for its own work, about the hub and the port at hand.
pub proof fn law_check_asks_about_hub_and_port(scan: ScanView, port: u8, count: u8)
    ensures
        scan.step == ScanStep::OpenHub ==> scan_action(scan) == ScanActionView::OpenHub(
            scan.hub_paths[scan.hub as int],
        ),
        scan.step == ScanStep::AskNode ==> scan_action(scan) == ScanActionView::Control(
            node_request(),
        ),
        scan.step == (ScanStep::AskConnection { port, count }) ==> scan_action(scan)
            == ScanActionView::Control(connection_request(port as u32)),
        scan.step == ScanStep::CloseHub ==> scan_action(scan) == ScanActionView::CloseHub,
        scan.step == ScanStep::Finished ==> scan_action(scan) == ScanActionView::Finish,
{
}

/// Which devices there are to report of a port, a hub and all hubs, in terms of
/// the answers: a port counts one device at most, the ports of a hub that opens
/// and the hubs follow each other.
pub proof fn law_report_adds_up(hub: HubModel, path: Seq<char>, port: u8, ports: nat)
    ensures
        ({
            let device = port_device((hub.connection)(port));
            let fails = |index: u8| probe_fails((hub.string)(port, index));
            let found = hub.port_findings(path, port);
            &&& found.len() <= 1
            &&& found.len() == 1 <==> device is Some && (fails(1) || fails(2) || fails(3))
            &&& found.len() == 1 ==> found[0].vid == (device->0).0 && found[0].pid == (device->0).1
            &&& found.len() == 1 ==> found[0].hub_path == path && found[0].port == port
            &&& found.len() == 1 ==> forall|index: u8|
                found[0].failed_string_indices.contains(index) <==> 1 <= index <= 3
                    && #[trigger] fails(index)
        }),
        hub.findings(path, 0).len() == 0,
        hub.findings(path, ports + 1) == hub.findings(path, ports) + hub.port_findings(
            path,
            (ports + 1) as u8,
        ),
        hub.opens.ok && hub.node.ok && hub.node.buffer.len() > 6 ==> hub.report(path)
            == hub.findings(path, hub.node.buffer[6] as nat),
        !hub.opens.ok || !hub.node.ok ==> hub.report(path).len() == 0,
{
    reveal_with_fuel(HubModel::failed_indices, 4);
    let fails = |index: u8| probe_fails((hub.string)(port, index));
    let failed = hub.failed_indices(port, 3);
    let expected = (if fails(1) {
        seq![1u8]
    } else {
        Seq::<u8>::empty()
    }) + (if fails(2) {
        seq![2u8]
    } else {
        Seq::<u8>::empty()
    }) + (if fails(3) {
        seq![3u8]
    } else {
        Seq::<u8>::empty()
    });
    assert(failed =~= expected);
    assert forall|index: u8| failed.contains(index) <==> 1 <= index <= 3 && #[trigger] fails(
        index,
    ) by {
        let a: int = if fails(1) {
            1
        } else {
            0
        };
        let b: int = if fails(2) {
            1
        } else {
            0
        };
        if fails(1) {
            assert(failed[0] == 1);
        }
        if fails(2) {
            assert(failed[a] == 2);
        }
        if fails(3) {
            assert(failed[a + b] == 3);
        }
    }
}

/// A reported device is written with its IDs, its port, its hub and what failed.
pub proof fn law_report_names_the_device(device: BrokenView)
    ensures
        device_text(device) == "VID:"@ + hex4(device.vid) + " PID:"@ + hex4(device.pid)
            + "  port "@ + decimal(device.port as nat) + "  hub: "@ + device.hub_path
            + "  failed indices: "@ + list_text(
            Seq::new(
                device.failed_string_indices.len(),
                |i: int| device.failed_string_indices[i] as nat,
            ),
        ),
{
    assert(device.failed_string_indices.map_values(|i: u8| i as nat) =~= Seq::new(
        device.failed_string_indices.len(),
        |i: int| device.failed_string_indices[i] as nat,
    ));
}

/// What devices, texts and work are taken for is what they hold.
pub proof fn law_check_views_are_faithful(
    device: BrokenDevice,
    devices: Seq<BrokenDevice>,
    texts: Seq<String>,
    path: String,
    request: IoRequest,
)
    ensures
        device@.vid == device.vid && device@.pid == device.pid && device@.port == device.port,
        device@.hub_path == device.hub_path@,
        device@.failed_string_indices == device.failed_string_indices@,
        broken_views(devices).len() == devices.len(),
        forall|i: int| 0 <= i < devices.len() ==> broken_views(devices)[i] == devices[i]@,
        text_views(texts).len() == texts.len(),
        forall|i: int| 0 <= i < texts.len() ==> text_views(texts)[i] == texts[i]@,
        ScanAction::OpenHub(path)@ == ScanActionView::OpenHub(path@),
        ScanAction::Control(request)@ == ScanActionView::Control(request@),
        ScanAction::CloseHub@ == ScanActionView::CloseHub,
        ScanAction::Finish@ == ScanActionView::Finish,
{
}

} // verus!
