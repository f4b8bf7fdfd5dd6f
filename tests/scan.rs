use pam_razer::{
    authentication_verdict, awaited, parse_config, parse_registry, scan_step, search_devices,
    DeviceConfig, DeviceReport, Outcome, Registry, ScanAction, ScanEvent, ScanState, Verdict,
};

fn dev(vendor_id: u16, product_id: u16) -> DeviceConfig {
    DeviceConfig { vendor_id, product_id }
}

fn seen(vendor_id: u16, product_id: u16) -> DeviceReport {
    DeviceReport { descriptor: Some(dev(vendor_id, product_id)), answered: true }
}

fn unreadable() -> DeviceReport {
    DeviceReport { descriptor: None, answered: false }
}

fn yubikey_registry() -> Registry {
    parse_registry("[yubikey]\nvendor_id = 0x1050\nproduct_id = 0x0211\n").unwrap()
}

#[test]
fn match_found_anywhere_in_the_list() {
    let reg = yubikey_registry();
    assert!(reg.contains_device(dev(0x1050, 0x0211)));
    let key = seen(0x1050, 0x0211);
    assert_eq!(search_devices(&reg, &vec![key]), Outcome::Found);
    assert_eq!(search_devices(&reg, &vec![seen(1, 1), seen(2, 2), key]), Outcome::Found);
    assert_eq!(search_devices(&reg, &vec![key, seen(1, 1), seen(2, 2)]), Outcome::Found);
    assert_eq!(search_devices(&reg, &vec![seen(3, 4), key, seen(5, 6)]), Outcome::Found);
}

#[test]
fn no_match_gives_not_found() {
    let reg = yubikey_registry();
    let devices = vec![seen(0x1050, 0x0212), seen(0x1051, 0x0211), seen(0x0211, 0x1050)];
    assert_eq!(search_devices(&reg, &devices), Outcome::NotFound);
    assert_eq!(search_devices(&reg, &vec![]), Outcome::NotFound);
}

#[test]
fn empty_registry_never_matches() {
    let reg = parse_config(None).unwrap();
    let devices = vec![seen(0x1050, 0x0211), seen(0, 0), unreadable()];
    assert_eq!(search_devices(&reg, &devices), Outcome::NotFound);
}

#[test]
fn unreadable_device_does_not_abort_scan() {
    let reg = yubikey_registry();
    let devices = vec![unreadable(), seen(7, 7), unreadable(), seen(0x1050, 0x0211)];
    assert_eq!(search_devices(&reg, &devices), Outcome::Found);
}

#[test]
fn failed_probe_still_matches() {
    let reg = yubikey_registry();
    let dead = DeviceReport { descriptor: Some(dev(0x1050, 0x0211)), answered: false };
    assert_eq!(search_devices(&reg, &vec![seen(1, 1), dead]), Outcome::Found);
    let (state, action) = scan_step(&reg, ScanState::AwaitProbe(dev(0x1050, 0x0211)), ScanEvent::Probed(false));
    assert_eq!(state, ScanState::Done(Outcome::Found));
    assert_eq!(action, ScanAction::Finish(Outcome::Found));
}

#[test]
fn end_to_end_alice() {
    let file = "yubikey = { vendor_id = 4176, product_id = 529 }\n";
    let reg = parse_config(Some(file)).unwrap();
    let plugged = vec![seen(1, 1), seen(4176, 529)];
    let outcome = search_devices(&reg, &plugged);
    assert_eq!(outcome, Outcome::Found);
    assert_eq!(authentication_verdict(outcome), Verdict::Success);
    let unplugged = vec![seen(1, 1)];
    let outcome = search_devices(&reg, &unplugged);
    assert_eq!(outcome, Outcome::NotFound);
    assert_eq!(authentication_verdict(outcome), Verdict::AuthError);
}

#[test]
fn scan_steps_through_a_host() {
    let reg = yubikey_registry();
    let s = ScanState::AwaitContext;
    assert_eq!(awaited(s), ScanAction::OpenContext);
    let (s, a) = scan_step(&reg, s, ScanEvent::ContextOpened);
    assert_eq!((s, a), (ScanState::AwaitList, ScanAction::ListDevices));
    let (s, a) = scan_step(&reg, s, ScanEvent::Listed);
    assert_eq!((s, a), (ScanState::AwaitDescriptor, ScanAction::ReadNextDescriptor));
    let (s, a) = scan_step(&reg, s, ScanEvent::DescriptorFailed);
    assert_eq!((s, a), (ScanState::AwaitDescriptor, ScanAction::ReadNextDescriptor));
    let (s, a) = scan_step(&reg, s, ScanEvent::Descriptor(dev(9, 9)));
    assert_eq!((s, a), (ScanState::AwaitProbe(dev(9, 9)), ScanAction::Probe));
    let (s, a) = scan_step(&reg, s, ScanEvent::Probed(true));
    assert_eq!((s, a), (ScanState::AwaitDescriptor, ScanAction::ReadNextDescriptor));
    let (s, a) = scan_step(&reg, s, ScanEvent::Exhausted);
    assert_eq!((s, a), (ScanState::Done(Outcome::NotFound), ScanAction::Finish(Outcome::NotFound)));
    let (s2, a2) = scan_step(&reg, s, ScanEvent::Descriptor(dev(0x1050, 0x0211)));
    assert_eq!((s2, a2), (s, a));
}

#[test]
fn usb_failures_are_distinct_outcomes() {
    let reg = yubikey_registry();
    let (s, a) = scan_step(&reg, ScanState::AwaitContext, ScanEvent::ContextFailed);
    assert_eq!(s, ScanState::Done(Outcome::UsbContextError));
    assert_eq!(a, ScanAction::Finish(Outcome::UsbContextError));
    let (s, a) = scan_step(&reg, ScanState::AwaitList, ScanEvent::ListingFailed);
    assert_eq!(s, ScanState::Done(Outcome::EnumerationError));
    assert_eq!(a, ScanAction::Finish(Outcome::EnumerationError));
}

#[test]
fn unexpected_event_leaves_state() {
    let reg = yubikey_registry();
    let (s, a) = scan_step(&reg, ScanState::AwaitContext, ScanEvent::Exhausted);
    assert_eq!((s, a), (ScanState::AwaitContext, ScanAction::OpenContext));
}

#[test]
fn only_found_grants_access() {
    assert_eq!(authentication_verdict(Outcome::Found), Verdict::Success);
    for o in [Outcome::NotFound, Outcome::ConfigError, Outcome::UsbContextError, Outcome::EnumerationError] {
        assert_eq!(authentication_verdict(o), Verdict::AuthError);
    }
}
