//! The scan of attached USB devices for one that the registry authorizes.
//!
//! The scan is a state machine: each state awaits the result of one action on
//! the host's USB stack, and each result (an event) moves it on. The caller
//! performs the actions and reports the events, so no USB access happens here.
use crate::registry::{holds_device, DeviceConfig, Registry};
use vstd::prelude::*;

verus! {

/// How an authentication attempt ended.
#[derive(Clone, Copy, Debug, PartialEq, Eq, Structural)]
pub enum Outcome {
    /// An attached device is in the registry.
    Found,
    /// Every attached device was looked at and none is in the registry.
    NotFound,
    /// The registry could not be loaded.
    ConfigError,
    /// The USB stack could not be opened.
    UsbContextError,
    /// The attached devices could not be listed.
    EnumerationError,
}

/// What the authentication stack is told.
#[derive(Clone, Copy, Debug, PartialEq, Eq, Structural)]
pub enum Verdict {
    Success,
    AuthError,
}

/// Where a scan stands: the result it waits for.
#[derive(Clone, Copy, Debug, PartialEq, Eq, Structural)]
pub enum ScanState {
    AwaitContext,
    AwaitList,
    AwaitDescriptor,
    /// The descriptor of the current device has been read; its probe is awaited.
    AwaitProbe(DeviceConfig),
    Done(Outcome),
}

/// What the host reports after performing an action.
#[derive(Clone, Copy, Debug, PartialEq, Eq, Structural)]
pub enum ScanEvent {
    ContextOpened,
    ContextFailed,
    Listed,
    ListingFailed,
    /// The next device's identifiers.
    Descriptor(DeviceConfig),
    /// The next device's descriptor could not be read.
    DescriptorFailed,
    /// No device is left in the list.
    Exhausted,
    /// The liveness probe of the current device ended; `true` where the device
    /// opened and listed at least one language within the probe's time bound.
    Probed(bool),
}

/// What the host is asked to do next.
#[derive(Clone, Copy, Debug, PartialEq, Eq, Structural)]
pub enum ScanAction {
    OpenContext,
    ListDevices,
    ReadNextDescriptor,
    /// Open the current device and read its languages, waiting at most
    /// `PROBE_TIMEOUT_MS` milliseconds.
    Probe,
    Finish(Outcome),
}

/// The bound on one device's liveness probe, in milliseconds.
pub const PROBE_TIMEOUT_MS: u64 = 1000;

/// The action that a state waits on.
pub open spec fn awaited_action(s: ScanState) -> ScanAction {
    match s {
        ScanState::AwaitContext => ScanAction::OpenContext,
        ScanState::AwaitList => ScanAction::ListDevices,
        ScanState::AwaitDescriptor => ScanAction::ReadNextDescriptor,
        ScanState::AwaitProbe(_) => ScanAction::Probe,
        ScanState::Done(o) => ScanAction::Finish(o),
    }
}

/// The state after an event. An event that the state does not wait for
/// leaves it as it is; a finished scan stays finished. The probe's result
/// never changes the decision: only the identifiers are compared.
pub open spec fn next_state(
    reg: Map<Seq<char>, DeviceConfig>,
    s: ScanState,
    e: ScanEvent,
) -> ScanState {
    match (s, e) {
        (ScanState::AwaitContext, ScanEvent::ContextOpened) => ScanState::AwaitList,
        (ScanState::AwaitContext, ScanEvent::ContextFailed) => ScanState::Done(
            Outcome::UsbContextError,
        ),
        (ScanState::AwaitList, ScanEvent::Listed) => ScanState::AwaitDescriptor,
        (ScanState::AwaitList, ScanEvent::ListingFailed) => ScanState::Done(
            Outcome::EnumerationError,
        ),
        (ScanState::AwaitDescriptor, ScanEvent::Descriptor(d)) => ScanState::AwaitProbe(d),
        (ScanState::AwaitDescriptor, ScanEvent::DescriptorFailed) => ScanState::AwaitDescriptor,
        (ScanState::AwaitDescriptor, ScanEvent::Exhausted) => ScanState::Done(Outcome::NotFound),
        (ScanState::AwaitProbe(d), ScanEvent::Probed(_)) => if holds_device(reg, d) {
            ScanState::Done(Outcome::Found)
        } else {
            ScanState::AwaitDescriptor
        },
        _ => s,
    }
}

/// The action that `state` waits on.
pub fn awaited(state: ScanState) -> (a: ScanAction)
    ensures
        a == awaited_action(state),
{
    match state {
        ScanState::AwaitContext => ScanAction::OpenContext,
        ScanState::AwaitList => ScanAction::ListDevices,
        ScanState::AwaitDescriptor => ScanAction::ReadNextDescriptor,
        ScanState::AwaitProbe(_) => ScanAction::Probe,
        ScanState::Done(o) => ScanAction::Finish(o),
    }
}

/// Moves a scan on by one event, and says what the host must do next.
pub fn scan_step(registry: &Registry, state: ScanState, event: ScanEvent) -> (r: (
    ScanState,
    ScanAction,
))
    requires
        registry.wf(),
    ensures
        r.0 == next_state(registry@, state, event),
        r.1 == awaited_action(r.0),
{
    let next = match (state, event) {
        (ScanState::AwaitContext, ScanEvent::ContextOpened) => ScanState::AwaitList,
        (ScanState::AwaitContext, ScanEvent::ContextFailed) => ScanState::Done(
            Outcome::UsbContextError,
        ),
        (ScanState::AwaitList, ScanEvent::Listed) => ScanState::AwaitDescriptor,
        (ScanState::AwaitList, ScanEvent::ListingFailed) => ScanState::Done(
            Outcome::EnumerationError,
        ),
        (ScanState::AwaitDescriptor, ScanEvent::Descriptor(d)) => ScanState::AwaitProbe(d),
        (ScanState::AwaitDescriptor, ScanEvent::DescriptorFailed) => ScanState::AwaitDescriptor,
        (ScanState::AwaitDescriptor, ScanEvent::Exhausted) => ScanState::Done(Outcome::NotFound),
        (ScanState::AwaitProbe(d), ScanEvent::Probed(_)) => if registry.contains_device(d) {
            ScanState::Done(Outcome::Found)
        } else {
            ScanState::AwaitDescriptor
        },
        _ => state,
    };
    (next, awaited(next))
}

/// What the authentication stack is told of an outcome: success only where
/// an authorized device was found.
pub fn authentication_verdict(outcome: Outcome) -> (v: Verdict)
    ensures
        v == (if outcome == Outcome::Found {
            Verdict::Success
        } else {
            Verdict::AuthError
        }),
{
    match outcome {
        Outcome::Found => Verdict::Success,
        _ => Verdict::AuthError,
    }
}

/// One attached device as the host reports it in a scan.
#[derive(Clone, Copy, Debug, PartialEq, Eq, Structural)]
pub struct DeviceReport {
    /// Its identifiers, or `None` where its descriptor could not be read.
    pub descriptor: Option<DeviceConfig>,
    /// Whether it answered the liveness probe.
    pub answered: bool,
}

/// The device's identifiers could be read and are in the registry.
pub open spec fn device_matches(reg: Map<Seq<char>, DeviceConfig>, d: DeviceReport) -> bool {
    d.descriptor matches Some(id) && holds_device(reg, id)
}

/// The outcome of a scan over a listed set of devices.
pub open spec fn scan_result(reg: Map<Seq<char>, DeviceConfig>, devices: Seq<DeviceReport>) -> Outcome {
    if exists|i: int| 0 <= i < devices.len() && #[trigger] device_matches(reg, devices[i]) {
        Outcome::Found
    } else {
        Outcome::NotFound
    }
}

/// Runs a whole scan on a host whose USB stack opens and lists `devices`, in
/// that order: `Found` exactly where one of them is in the registry.
pub fn search_devices(config: &Registry, devices: &Vec<DeviceReport>) -> (r: Outcome)
    requires
        config.wf(),
    ensures
        r == scan_result(config@, devices@),
{
    let (state, _) = scan_step(config, ScanState::AwaitContext, ScanEvent::ContextOpened);
    let (mut state, _) = scan_step(config, state, ScanEvent::Listed);
    let mut i: usize = 0;
    while i < devices.len()
        invariant
            config.wf(),
            i <= devices@.len(),
            state == ScanState::AwaitDescriptor,
            forall|k: int| 0 <= k < i ==> !device_matches(config@, #[trigger] devices@[k]),
        decreases devices@.len() - i,
    {
        let event = match devices[i].descriptor {
            Some(d) => ScanEvent::Descriptor(d),
            None => ScanEvent::DescriptorFailed,
        };
        let (next, _) = scan_step(config, state, event);
        let (next, action) = scan_step(config, next, ScanEvent::Probed(devices[i].answered));
        if let ScanAction::Finish(o) = action {
            assert(device_matches(config@, devices@[i as int]));
            return o;
        }
        state = next;
        i = i + 1;
    }
    let (_, action) = scan_step(config, state, ScanEvent::Exhausted);
    match action {
        ScanAction::Finish(o) => o,
        _ => Outcome::NotFound,
    }
}

/// A device in the registry is found, wherever it stands in the list and
/// whatever the other devices are.
pub proof fn lemma_match_found(reg: Map<Seq<char>, DeviceConfig>, devices: Seq<DeviceReport>, i: int)
    requires
        0 <= i < devices.len(),
        devices[i].descriptor matches Some(id) && holds_device(reg, id),
    ensures
        scan_result(reg, devices) == Outcome::Found,
{
    assert(device_matches(reg, devices[i]));
}

/// Where no listed device is in the registry, the scan ends in `NotFound`.
pub proof fn lemma_no_match(reg: Map<Seq<char>, DeviceConfig>, devices: Seq<DeviceReport>)
    requires
        forall|i: int|
            0 <= i < devices.len() ==> (#[trigger] devices[i].descriptor matches Some(id)
                ==> !holds_device(reg, id)),
    ensures
        scan_result(reg, devices) == Outcome::NotFound,
{
    assert forall|i: int| 0 <= i < devices.len() implies !device_matches(reg, #[trigger] devices[i]) by {
        assert(devices[i].descriptor matches Some(id) ==> !holds_device(reg, id));
    }
}

/// An empty registry matches no device: the scan never succeeds vacuously.
pub proof fn lemma_empty_registry_never_matches(devices: Seq<DeviceReport>)
    ensures
        scan_result(Map::empty(), devices) == Outcome::NotFound,
{
    assert forall|i: int| 0 <= i < devices.len() implies !device_matches(
        Map::empty(),
        #[trigger] devices[i],
    ) by {}
}

/// A device whose descriptor cannot be read does not stop the scan: a later
/// device in the registry is still found.
pub proof fn lemma_unreadable_device_skipped(
    reg: Map<Seq<char>, DeviceConfig>,
    devices: Seq<DeviceReport>,
    bad: int,
    good: int,
)
    requires
        0 <= bad < good < devices.len(),
        devices[bad].descriptor is None,
        devices[good].descriptor matches Some(id) && holds_device(reg, id),
    ensures
        scan_result(reg, devices) == Outcome::Found,
{
    assert(device_matches(reg, devices[good]));
}

/// The liveness probe decides nothing: the outcome is the same whichever
/// devices answered it, so a registered device that failed its probe is
/// still found, and a single step of the scan does not look at the probe.
pub proof fn lemma_probe_ignored(
    reg: Map<Seq<char>, DeviceConfig>,
    devices: Seq<DeviceReport>,
    probed: Seq<DeviceReport>,
    id: DeviceConfig,
)
    requires
        probed.len() == devices.len(),
        forall|i: int|
            0 <= i < devices.len() ==> (#[trigger] probed[i]).descriptor == devices[i].descriptor,
    ensures
        scan_result(reg, probed) == scan_result(reg, devices),
        next_state(reg, ScanState::AwaitProbe(id), ScanEvent::Probed(true)) == next_state(
            reg,
            ScanState::AwaitProbe(id),
            ScanEvent::Probed(false),
        ),
{
    if scan_result(reg, devices) == Outcome::Found {
        let i = choose|i: int| 0 <= i < devices.len() && #[trigger] device_matches(reg, devices[i]);
        assert(device_matches(reg, probed[i]));
    }
    if scan_result(reg, probed) == Outcome::Found {
        let i = choose|i: int| 0 <= i < probed.len() && #[trigger] device_matches(reg, probed[i]);
        assert(device_matches(reg, devices[i]));
    }
}

} // verus!
