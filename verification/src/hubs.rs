//! Listing the USB host controllers, whose root hubs are checked.

use vstd::prelude::*;
use crate::preflight::text_views;
use crate::usb::{IoReply, detail_buffer, device_path};
use crate::usb::DETAIL_MIN_LEN;
use crate::usb::{ReplyView, detail_bytes, detail_path};

verus! {

/// What the listing does next. An index is that of the next interface.
#[derive(Clone, Copy, Debug, PartialEq, Eq, Structural)]
pub enum ListStep {
    /// Open the list of device interfaces.
    OpenList,
    /// Go to an interface.
    Interface { index: u32 },
    /// Ask how long the detail of the interface is.
    AskSize { next: u32 },
    /// Ask for the detail of the interface.
    AskDetail { next: u32, size: u32 },
    /// Close the list.
    CloseList,
    /// Nothing; the listing is over.
    Finished,
}

/// How far the listing has come: the next step and the paths found. Where the
/// system packs its structures, `packed` is set.
pub struct HubListing {
    packed: bool,
    step: ListStep,
    paths: Vec<String>,
}

/// How far the listing has come.
#[verifier::ext_equal]
pub struct ListingView {
    pub packed: bool,
    pub step: ListStep,
    pub paths: Seq<Seq<char>>,
}

impl View for HubListing {
    type V = ListingView;

    closed spec fn view(&self) -> ListingView {
        ListingView { packed: self.packed, step: self.step, paths: text_views(self.paths@) }
    }
}

/// The listing before its first step.
pub open spec fn listing_start(packed: bool) -> ListingView {
    ListingView { packed, step: ListStep::OpenList, paths: Seq::empty() }
}

/// How far the listing has come after an answer. Asking for a length tells the
/// length in `returned`; detail too short for a path is passed over.
pub open spec fn listing_next(listing: ListingView, reply: ReplyView) -> ListingView {
    match listing.step {
        ListStep::OpenList => ListingView {
            step: if reply.ok {
                ListStep::Interface { index: 0 }
            } else {
                ListStep::Finished
            },
            ..listing
        },
        ListStep::Interface { index } => ListingView {
            step: if reply.ok {
                ListStep::AskSize { next: (index + 1) as u32 }
            } else {
                ListStep::CloseList
            },
            ..listing
        },
        ListStep::AskSize { next } => ListingView {
            step: if reply.returned < DETAIL_MIN_LEN {
                ListStep::Interface { index: next }
            } else {
                ListStep::AskDetail { next, size: reply.returned }
            },
            ..listing
        },
        ListStep::AskDetail { next, size } => ListingView {
            step: ListStep::Interface { index: next },
            paths: if reply.ok && detail_path(reply.buffer).len() > 0 {
                listing.paths.push(detail_path(reply.buffer))
            } else {
                listing.paths
            },
            ..listing
        },
        ListStep::CloseList => ListingView { step: ListStep::Finished, ..listing },
        ListStep::Finished => listing,
    }
}

impl HubListing {
    /// Detail that is asked for is long enough to be looked at.
    #[verifier::type_invariant]
    spec fn asks_enough(self) -> bool {
        self.step matches ListStep::AskDetail { size, .. } ==> size >= DETAIL_MIN_LEN
    }

    /// Starts the listing.
    pub fn new(packed: bool) -> (listing: HubListing)
        ensures
            listing@ == listing_start(packed),
    {
        let listing: HubListing = HubListing {
            packed,
            step: ListStep::OpenList,
            paths: Vec::new(),
        };
        assert(listing@ =~= listing_start(packed));
        listing
    }

    /// The step that is taken next.
    pub fn step(&self) -> (step: ListStep)
        ensures
            step == self@.step,
    {
        self.step
    }

    /// The buffer for the detail of the interface, if it is asked for now.
    pub fn detail_request(&self) -> (buffer: Option<Vec<u8>>)
        ensures
            match self@.step {
                ListStep::AskDetail { size, .. } => buffer matches Some(bytes) && bytes@
                    == detail_bytes(size, self@.packed),
                _ => buffer is None,
            },
    {
        proof {
            use_type_invariant(self);
        }
        match self.step {
            ListStep::AskDetail { size, .. } => Some(detail_buffer(size, self.packed)),
            _ => None,
        }
    }

    /// Takes the outcome of a step.
    pub fn advance(self, reply: &IoReply) -> (listing: HubListing)
        requires
            self@.step is Interface && reply.ok ==> self@.step->index < u32::MAX,
        ensures
            listing@ == listing_next(self@, reply@),
    {
        let ghost before = self@.paths;
        let packed: bool = self.packed;
        let mut paths: Vec<String> = self.paths;
        let step: ListStep = match self.step {
            ListStep::OpenList => if reply.ok {
                ListStep::Interface { index: 0 }
            } else {
                ListStep::Finished
            },
            ListStep::Interface { index } => if reply.ok {
                ListStep::AskSize { next: index + 1 }
            } else {
                ListStep::CloseList
            },
            ListStep::AskSize { next } => if reply.returned < DETAIL_MIN_LEN {
                ListStep::Interface { index: next }
            } else {
                ListStep::AskDetail { next, size: reply.returned }
            },
            ListStep::AskDetail { next, .. } => {
                if reply.ok {
                    let path: String = device_path(&reply.buffer);
                    if !path.as_str().is_empty() {
                        paths.push(path);
                        assert(text_views(paths@) =~= before.push(detail_path(reply.buffer@)));
                    }
                }
                ListStep::Interface { index: next }
            },
            ListStep::CloseList => ListStep::Finished,
            ListStep::Finished => ListStep::Finished,
        };
        HubListing { packed, step, paths }
    }

    /// Hands out the paths found.
    pub fn into_paths(self) -> (paths: Vec<String>)
        ensures
            text_views(paths@) == self@.paths,
    {
        self.paths
    }
}

/// A device interface as it answers the listing: the length of its detail, and
/// the detail.
pub struct InterfaceModel {
    pub size: ReplyView,
    pub detail: ReplyView,
}

impl InterfaceModel {
    /// The path of the interface, as a list of at most one: none if the detail
    /// is too short, cannot be had, or holds an empty path.
    pub open spec fn path(self) -> Seq<Seq<char>> {
        let path = detail_path(self.detail.buffer);
        if self.size.returned >= DETAIL_MIN_LEN && self.detail.ok && path.len() > 0 {
            seq![path]
        } else {
            Seq::empty()
        }
    }
}

/// The paths of the first `n` interfaces.
pub open spec fn paths_of(interfaces: Seq<InterfaceModel>, n: nat) -> Seq<Seq<char>>
    decreases n,
{
    if n == 0 {
        Seq::empty()
    } else {
        paths_of(interfaces, (n - 1) as nat) + interfaces[n - 1].path()
    }
}

/// The answer that a system with these interfaces gives to the next step of the
/// listing; `yes` and `no` are any answers that say so.
pub open spec fn listing_answer(
    interfaces: Seq<InterfaceModel>,
    step: ListStep,
    yes: ReplyView,
    no: ReplyView,
) -> ReplyView {
    match step {
        ListStep::Interface { index } => if index < interfaces.len() {
            yes
        } else {
            no
        },
        ListStep::AskSize { next } => interfaces[next - 1].size,
        ListStep::AskDetail { next, .. } => interfaces[next - 1].detail,
        _ => yes,
    }
}

/// The listing after at most `fuel` more steps.
pub open spec fn listing_run(
    interfaces: Seq<InterfaceModel>,
    yes: ReplyView,
    no: ReplyView,
    listing: ListingView,
    fuel: nat,
) -> ListingView
    decreases fuel,
{
    if fuel == 0 || listing.step == ListStep::Finished {
        listing
    } else {
        listing_run(
            interfaces,
            yes,
            no,
            listing_next(listing, listing_answer(interfaces, listing.step, yes, no)),
            (fuel - 1) as nat,
        )
    }
}

/// No more than so many steps are left of the listing.
spec fn listing_steps_left(interfaces: Seq<InterfaceModel>, step: ListStep) -> int {
    match step {
        ListStep::OpenList => (3 * interfaces.len() + 3) as int,
        ListStep::Interface { index } => 3 * (interfaces.len() - index) + 2,
        ListStep::AskSize { next } => 3 * (interfaces.len() - next) + 4,
        ListStep::AskDetail { next, .. } => 3 * (interfaces.len() - next) + 3,
        ListStep::CloseList => 1,
        ListStep::Finished => 0,
    }
}

/// What the listing has found so far are the paths of the interfaces behind it.
spec fn listing_on_track(interfaces: Seq<InterfaceModel>, listing: ListingView) -> bool {
    match listing.step {
        ListStep::OpenList => listing.paths == Seq::<Seq<char>>::empty(),
        ListStep::Interface { index } => index <= interfaces.len() && listing.paths == paths_of(
            interfaces,
            index as nat,
        ),
        ListStep::AskSize { next } => 1 <= next <= interfaces.len() && listing.paths == paths_of(
            interfaces,
            (next - 1) as nat,
        ),
        ListStep::AskDetail { next, size } => 1 <= next <= interfaces.len() && interfaces[next
            - 1].size.returned >= DETAIL_MIN_LEN && listing.paths == paths_of(
            interfaces,
            (next - 1) as nat,
        ),
        _ => listing.paths == paths_of(interfaces, interfaces.len()),
    }
}

/// A listing that is on track ends with the paths of all interfaces.
proof fn lemma_listing_run(
    interfaces: Seq<InterfaceModel>,
    yes: ReplyView,
    no: ReplyView,
    listing: ListingView,
    fuel: nat,
)
    requires
        yes.ok,
        !no.ok,
        interfaces.len() <= u32::MAX,
        listing_on_track(interfaces, listing),
        0 <= listing_steps_left(interfaces, listing.step) <= fuel,
    ensures
        ({
            let end = listing_run(interfaces, yes, no, listing, fuel);
            &&& end.step == ListStep::Finished
            &&& end.paths == paths_of(interfaces, interfaces.len())
        }),
    decreases fuel,
{
    if listing.step != ListStep::Finished {
        let next = listing_next(listing, listing_answer(interfaces, listing.step, yes, no));
        match listing.step {
            ListStep::AskSize { next: after } => {
                if interfaces[after - 1].size.returned < DETAIL_MIN_LEN {
                    assert(paths_of(interfaces, after as nat) =~= paths_of(
                        interfaces,
                        (after - 1) as nat,
                    ));
                }
            },
            ListStep::AskDetail { next: after, .. } => {
                assert(next.paths =~= paths_of(interfaces, after as nat));
            },
            _ => {},
        }
        lemma_listing_run(interfaces, yes, no, next, (fuel - 1) as nat);
    }
}

/// The listing comes to an end and finds the path of every interface that has
/// one, in their order.
pub proof fn law_listing_finds_all_paths(
    interfaces: Seq<InterfaceModel>,
    packed: bool,
    yes: ReplyView,
    no: ReplyView,
)
    requires
        yes.ok,
        !no.ok,
        interfaces.len() <= u32::MAX,
    ensures
        exists|steps: nat|
            {
                let end = #[trigger] listing_run(interfaces, yes, no, listing_start(packed), steps);
                &&& end.step == ListStep::Finished
                &&& end.paths == paths_of(interfaces, interfaces.len())
            },
{
    let start = listing_start(packed);
    let steps = listing_steps_left(interfaces, start.step) as nat;
    lemma_listing_run(interfaces, yes, no, start, steps);
    let end = listing_run(interfaces, yes, no, start, steps);
    assert(end.step == ListStep::Finished);
}

/// A list that was opened is closed before the listing ends.
pub proof fn law_open_list_is_closed(listing: ListingView, reply: ReplyView)
    requires
        listing.step is Interface || listing.step is AskSize || listing.step is AskDetail,
    ensures
        !(listing_next(listing, reply).step is Finished),
{
}

/// The listing goes interface by interface from the first on, until there is none
/// left, and closes the list. Without a list it is over at once.
pub proof fn law_listing_goes_by_interfaces(
    listing: ListingView,
    reply: ReplyView,
    index: u32,
    size: u32,
)
    requires
        index < u32::MAX,
    ensures
        listing_start(listing.packed).step == ListStep::OpenList,
        listing_start(listing.packed).paths.len() == 0,
        listing_start(listing.packed).packed == listing.packed,
        listing_next(listing, reply).packed == listing.packed,
        listing.step == ListStep::OpenList && reply.ok ==> listing_next(listing, reply).step == (
        ListStep::Interface { index: 0 }),
        listing.step == ListStep::OpenList && !reply.ok ==> listing_next(listing, reply).step
            == ListStep::Finished,
        listing.step == (ListStep::Interface { index }) && reply.ok ==> (listing_next(
            listing,
            reply,
        ).step matches ListStep::AskSize { next } && next == index + 1),
        listing.step == (ListStep::Interface { index }) && !reply.ok ==> listing_next(
            listing,
            reply,
        ).step == ListStep::CloseList,
        listing.step == (ListStep::AskSize { next: index }) && reply.returned < 6 ==> listing_next(
            listing,
            reply,
        ).step == (ListStep::Interface { index }),
        listing.step == (ListStep::AskSize { next: index }) && reply.returned >= 6 ==> listing_next(
            listing,
            reply,
        ).step == (ListStep::AskDetail { next: index, size: reply.returned }),
        listing.step == (ListStep::AskDetail { next: index, size }) ==> listing_next(
            listing,
            reply,
        ).step == (ListStep::Interface { index }),
        listing.step == ListStep::CloseList ==> listing_next(listing, reply).step
            == ListStep::Finished,
        listing.step == ListStep::Finished ==> listing_next(listing, reply) == listing,
{
}

/// Detail that comes adds the path in it at the end of those found, unless that
/// path is empty; nothing else changes what was found.
pub proof fn law_only_detail_adds_a_path(listing: ListingView, reply: ReplyView)
    ensures
        listing.step is AskDetail && reply.ok && detail_path(reply.buffer).len() > 0
            ==> listing_next(listing, reply).paths == listing.paths.push(detail_path(reply.buffer)),
        !(listing.step is AskDetail) || !reply.ok || detail_path(reply.buffer).len() == 0
            ==> listing_next(listing, reply).paths == listing.paths,
{
}

/// The paths of the interfaces follow each other, each counting if its detail is
/// at least six bytes long, can be had, and does not hold an empty path.
pub proof fn law_paths_add_up(interfaces: Seq<InterfaceModel>, n: nat)
    requires
        n < interfaces.len(),
    ensures
        paths_of(interfaces, 0).len() == 0,
        ({
            let last = interfaces[n as int];
            let path = detail_path(last.detail.buffer);
            &&& last.size.returned >= 6 && last.detail.ok && path.len() > 0 ==> paths_of(
                interfaces,
                n + 1,
            ) == paths_of(interfaces, n).push(path)
            &&& last.size.returned < 6 || !last.detail.ok || path.len() == 0 ==> paths_of(
                interfaces,
                n + 1,
            ) == paths_of(interfaces, n)
        }),
{
    let path = detail_path(interfaces[n as int].detail.buffer);
    assert(paths_of(interfaces, n) + seq![path] =~= paths_of(interfaces, n).push(path));
    assert(paths_of(interfaces, n) + Seq::<Seq<char>>::empty() =~= paths_of(interfaces, n));
}

} // verus!
