use std::collections::HashMap;

use gotos::pci::{
    bar_address, bar_from_halves, class_code_of, header_type_of, is_invalid_vendor_id,
    is_single_function_device, make_address, read_bar, secondary_bus_of, vendor_id_of, BarRead,
    ClassCode, Device, PciBus, PciError, PciScan, ScanAction,
};

#[test]
fn make_address_packs_fields() {
    assert_eq!(make_address(0, 0, 0, 0), 0x8000_0000);
    assert_eq!(make_address(1, 2, 3, 0x0c), 0x8001_130c);
    assert_eq!(make_address(0xff, 31, 7, 0xff), 0x80ff_fffc);
    // the low two bits of the register offset are dropped
    assert_eq!(make_address(0, 0, 0, 0x0b), 0x8000_0008);
}

#[test]
fn make_address_fields_read_back() {
    for (bus, device, function, reg) in [(0u8, 0u8, 0u8, 0u8), (7, 31, 7, 0x18), (200, 5, 3, 0x3d)] {
        let a = make_address(bus, device, function, reg);
        assert_eq!(a >> 31, 1);
        assert_eq!((a >> 16) & 0xff, bus as u32);
        assert_eq!((a >> 11) & 0x1f, device as u32);
        assert_eq!((a >> 8) & 0x7, function as u32);
        assert_eq!(a & 0xff, reg as u32 & 0xfc);
    }
}

#[test]
fn make_address_device_over_31_spills_into_bus() {
    // a device number of 32 sets the lowest bus bit
    assert_eq!(make_address(0, 32, 0, 0), 0x8001_0000);
}

#[test]
fn register_decoders() {
    assert_eq!(vendor_id_of(0x1234_8086), 0x8086);
    assert_eq!(header_type_of(0x00_80_0000), 0x80);
    assert_eq!(header_type_of(0xff_01_ffff), 0x01);
    assert_eq!(
        class_code_of(0x0c03_2001),
        ClassCode { base: 0x0c, sub: 0x03, interface: 0x20 }
    );
    assert_eq!(secondary_bus_of(0x0003_0201), 0x02);
    assert!(is_single_function_device(0x00));
    assert!(is_single_function_device(0x7f));
    assert!(!is_single_function_device(0x80));
    assert!(is_invalid_vendor_id(0xffff));
    assert!(!is_invalid_vendor_id(0x8086));
}

#[test]
fn class_code_matching() {
    let c = ClassCode { base: 0x06, sub: 0x04, interface: 0x00 };
    assert!(c.match_base(0x06));
    assert!(!c.match_base(0x0c));
    assert!(c.match_base_sub(0x06, 0x04));
    assert!(!c.match_base_sub(0x06, 0x00));
    assert!(c.match_base_sub_interface(0x06, 0x04, 0x00));
    assert!(!c.match_base_sub_interface(0x06, 0x04, 0x01));
    assert_eq!(ClassCode { base: 0x0c, sub: 0x03, interface: 0x30 }.packed(), 0x0c0330);
}

#[test]
fn bar_address_of_each_index() {
    assert_eq!(bar_address(0), Ok(0x10));
    assert_eq!(bar_address(5), Ok(0x24));
    assert_eq!(bar_address(6), Err(PciError::IndexOutOfRange { min: 0, max: 5, actual: 6 }));
}

#[test]
fn read_bar_32_bit() {
    assert_eq!(read_bar(0, 0xfebf_0000), Ok(BarRead::Complete(0xfebf_0000)));
    assert_eq!(read_bar(5, 0x0000_e001), Ok(BarRead::Complete(0xe001)));
}

#[test]
fn read_bar_64_bit_needs_upper_half() {
    assert_eq!(
        read_bar(0, 0xfebf_0004),
        Ok(BarRead::NeedsUpper { upper_reg: 0x14, lower: 0xfebf_0004 })
    );
    assert_eq!(bar_from_halves(0x0000_0001, 0xfebf_0004), 0x1_febf_0004);
}

#[test]
fn read_bar_errors() {
    assert_eq!(read_bar(6, 0), Err(PciError::IndexOutOfRange { min: 0, max: 5, actual: 6 }));
    assert_eq!(read_bar(5, 4), Err(PciError::IndexOutOfRange { min: 0, max: 4, actual: 5 }));
}

fn device(n: u8) -> Device {
    Device { bus: 0, device: n, function: 0, header_type: 0, class_code: ClassCode { base: 1, sub: 2, interface: 3 } }
}

#[test]
fn add_device_appends_until_full() {
    let mut bus = PciBus::new();
    assert_eq!(bus.num_device(), 0);
    for n in 0..32u8 {
        let d = device(n);
        assert_eq!(bus.add_device(d.bus, d.device, d.function, d.header_type, d.class_code), Ok(()));
    }
    assert_eq!(bus.num_device(), 32);
    let d = device(99);
    assert_eq!(
        bus.add_device(d.bus, d.device, d.function, d.header_type, d.class_code),
        Err(PciError::DeviceIsFull)
    );
    assert_eq!(bus.num_device(), 32);
    assert_eq!(bus.devices()[31], device(31));
}

/// A configuration space: registers not listed read as all ones.
struct Space(HashMap<u32, u32>);

impl Space {
    fn new() -> Space {
        Space(HashMap::new())
    }
    fn set(&mut self, bus: u8, dev: u8, func: u8, reg: u8, v: u32) {
        self.0.insert(make_address(bus, dev, func, reg), v);
    }
    /// A function with vendor id 0x8086, the given header type and class.
    fn function(&mut self, bus: u8, dev: u8, func: u8, header: u8, class: u32) {
        self.set(bus, dev, func, 0x00, 0x1234_8086);
        self.set(bus, dev, func, 0x0c, (header as u32) << 16);
        self.set(bus, dev, func, 0x08, class);
    }
    fn run(&self, bus: PciBus) -> (PciBus, Result<(), PciError>, usize) {
        let mut scan: PciScan = bus.scan_all_bus();
        let mut reads = 0;
        loop {
            match scan.action() {
                ScanAction::Read(a) => {
                    reads += 1;
                    scan.respond(*self.0.get(&a).unwrap_or(&0xffff_ffff));
                }
                ScanAction::Done(r) => return (scan.into_bus(), r, reads),
            }
        }
    }
}

fn found(bus: &PciBus) -> Vec<(u8, u8, u8)> {
    bus.devices().iter().map(|d| (d.bus, d.device, d.function)).collect()
}

#[test]
fn scan_single_host_bridge_scans_bus_zero() {
    let mut s = Space::new();
    s.function(0, 0, 0, 0x00, 0x0600_0000); // host bridge
    s.function(0, 2, 0, 0x00, 0x0300_0000); // display
    s.function(0, 31, 0, 0x80, 0x0601_0000); // multi-function ISA bridge
    s.function(0, 31, 3, 0x00, 0x0403_0000); // its function 3
    let (bus, r, _) = s.run(PciBus::new());
    assert_eq!(r, Ok(()));
    assert_eq!(found(&bus), vec![(0, 0, 0), (0, 2, 0), (0, 31, 0), (0, 31, 3)]);
    assert_eq!(bus.devices()[2].header_type, 0x80);
    assert_eq!(bus.devices()[3].class_code, ClassCode { base: 4, sub: 3, interface: 0 });
}

#[test]
fn scan_follows_pci_to_pci_bridges() {
    let mut s = Space::new();
    s.function(0, 0, 0, 0x00, 0x0600_0000);
    s.function(0, 1, 0, 0x01, 0x0604_0000); // bridge to bus 5
    s.set(0, 1, 0, 0x18, 0x0005_0500);
    s.function(5, 0, 0, 0x00, 0x0c03_3000); // xHC behind the bridge
    s.function(0, 3, 0, 0x00, 0x0200_0000);
    let (bus, r, _) = s.run(PciBus::new());
    assert_eq!(r, Ok(()));
    // depth first: the bridge's bus before the devices after the bridge
    assert_eq!(found(&bus), vec![(0, 0, 0), (0, 1, 0), (5, 0, 0), (0, 3, 0)]);
}

#[test]
fn scan_multi_function_host_scans_bus_per_function() {
    let mut s = Space::new();
    s.function(0, 0, 0, 0x80, 0x0600_0000); // multi-function host bridge
    s.function(0, 0, 2, 0x00, 0x0600_0000); // its function 2: bus 2
    s.function(2, 4, 0, 0x00, 0x0100_0000);
    let (bus, r, _) = s.run(PciBus::new());
    assert_eq!(r, Ok(()));
    // function 0 of the host serves bus 0, scanned first: the host bridge
    // itself and its function 2; then bus 2
    assert_eq!(found(&bus), vec![(0, 0, 0), (0, 0, 2), (2, 4, 0)]);
}

#[test]
fn scan_multi_function_host_scans_bus_zero() {
    let mut s = Space::new();
    s.function(0, 0, 0, 0x80, 0x0600_0000); // only function 0 of the host answers
    s.function(0, 3, 0, 0x00, 0x0200_0000);
    let (bus, r, _) = s.run(PciBus::new());
    assert_eq!(r, Ok(()));
    assert_eq!(found(&bus), vec![(0, 0, 0), (0, 3, 0)]);
}

#[test]
fn scan_reads_of_an_empty_bus() {
    let mut s = Space::new();
    s.set(0, 0, 0, 0x0c, 0);
    let (bus, r, reads) = s.run(PciBus::new());
    assert_eq!(r, Ok(()));
    assert!(found(&bus).is_empty());
    // the host header, then the vendor id of each of the 32 devices
    assert_eq!(reads, 33);
}

#[test]
fn scan_ends_with_error_when_table_fills() {
    let mut s = Space::new();
    s.function(0, 0, 0, 0x00, 0x0600_0000); // single-function host bridge
    for dev in 1..32u8 {
        s.function(0, dev, 0, 0x80, 0x0200_0000);
        s.function(0, dev, 1, 0x00, 0x0200_0000);
    }
    let (bus, r, _) = s.run(PciBus::new());
    assert_eq!(r, Err(PciError::DeviceIsFull));
    assert_eq!(bus.num_device(), 32);
    // device k's functions 0 and 1 take places 2k - 1 and 2k
    assert_eq!(found(&bus)[31], (0, 16, 0));
}

#[test]
fn scan_first_action_reads_host_header() {
    let scan = PciBus::new().scan_all_bus();
    assert_eq!(scan.action(), ScanAction::Read(make_address(0, 0, 0, 0x0c)));
}

#[test]
fn single_function_device_scans_function_zero_only() {
    let mut s = Space::new();
    s.function(0, 0, 0, 0x00, 0x0600_0000);
    s.function(0, 4, 0, 0x00, 0x0200_0000); // single-function
    s.function(0, 4, 1, 0x00, 0x0200_0000); // never looked at
    let (bus, r, _) = s.run(PciBus::new());
    assert_eq!(r, Ok(()));
    assert_eq!(found(&bus), vec![(0, 0, 0), (0, 4, 0)]);
}
