use std::collections::HashMap;

use gotos::pci::{make_address, ClassCode, PciBus};
use gotos::usb::xhci::{
    find_ehci, is_ehci, is_intel_vendor, switch_ehci2xhci, EhciProbe, SwitchAction,
};

fn table() -> PciBus {
    let mut bus = PciBus::new();
    let ehci = ClassCode { base: 0x0c, sub: 0x03, interface: 0x20 };
    let xhci = ClassCode { base: 0x0c, sub: 0x03, interface: 0x30 };
    bus.add_device(0, 20, 0, 0, xhci).unwrap();
    bus.add_device(0, 26, 0, 0, ehci).unwrap();
    bus.add_device(0, 29, 7, 0, ehci).unwrap();
    bus
}

#[test]
fn ehci_probe_visits_ehci_controllers_in_order() {
    let bus = table();
    assert_eq!(
        find_ehci(&bus, 0),
        EhciProbe::ReadVendor { index: 1, address: make_address(26, 26, 0, 0) }
    );
    assert_eq!(
        find_ehci(&bus, 2),
        EhciProbe::ReadVendor { index: 2, address: make_address(29, 29, 7, 0) }
    );
    assert_eq!(find_ehci(&bus, 3), EhciProbe::NotFound);
    assert_eq!(find_ehci(&bus, 100), EhciProbe::NotFound);
    assert_eq!(find_ehci(&PciBus::new(), 0), EhciProbe::NotFound);
}

#[test]
fn ehci_and_intel_tests() {
    assert!(is_ehci(&ClassCode { base: 0x0c, sub: 0x03, interface: 0x20 }));
    assert!(!is_ehci(&ClassCode { base: 0x0c, sub: 0x03, interface: 0x30 }));
    assert!(is_intel_vendor(0x1e31_8086));
    assert!(!is_intel_vendor(0x8086_1022));
}

/// Drives a switch over `regs`, returning the writes made and the outcome.
fn drive(bus: &PciBus, regs: &HashMap<u32, u32>) -> (Vec<(u32, u32)>, Option<(u32, u32)>) {
    let xhc = bus.devices()[0];
    let mut s = switch_ehci2xhci(bus, xhc);
    let mut writes = Vec::new();
    loop {
        match s.action() {
            SwitchAction::Read(a) => s.respond(*regs.get(&a).unwrap_or(&0xffff_ffff)),
            SwitchAction::Write(a, v) => {
                writes.push((a, v));
                s.respond(0);
            }
            SwitchAction::Done(r) => return (writes, r),
        }
    }
}

#[test]
fn switch_copies_port_masks_for_intel_ehci() {
    let bus = table();
    let mut regs = HashMap::new();
    regs.insert(make_address(26, 26, 0, 0), 0x1234_1022); // not Intel
    regs.insert(make_address(29, 29, 7, 0), 0x1e2d_8086); // Intel
    regs.insert(make_address(0, 20, 0, 0xdc), 0x0f);
    regs.insert(make_address(0, 20, 0, 0xd4), 0x3f);
    let (writes, r) = drive(&bus, &regs);
    assert_eq!(
        writes,
        vec![(make_address(0, 20, 0, 0xd8), 0x0f), (make_address(0, 20, 0, 0xd0), 0x3f)]
    );
    assert_eq!(r, Some((0x0f, 0x3f)));
}

#[test]
fn switch_does_nothing_without_intel_ehci() {
    let bus = table();
    let mut regs = HashMap::new();
    regs.insert(make_address(26, 26, 0, 0), 0x1234_1022);
    regs.insert(make_address(29, 29, 7, 0), 0x1234_1106);
    let (writes, r) = drive(&bus, &regs);
    assert!(writes.is_empty());
    assert_eq!(r, None);
}
