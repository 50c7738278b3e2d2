use vstd::prelude::*;

verus! {

/// I/O port through which a configuration-space address is selected.
pub const CONFIG_ADDRESS: u16 = 0x0cf8;

/// I/O port through which the selected configuration register is read or written.
pub const CONFIG_DATA: u16 = 0x0cfc;

/// Capacity of the device table of a `PciBus`.
pub const MAX_DEVICES: usize = 32;

/// The class code of a PCI function.
#[derive(Debug, Clone, Copy, PartialEq, Eq, Structural)]
pub struct ClassCode {
    pub base: u8,
    pub sub: u8,
    pub interface: u8,
}

impl ClassCode {
    pub fn match_base(&self, b: u8) -> (r: bool)
        ensures
            r == (self.base == b),
    {
        self.base == b
    }

    pub fn match_base_sub(&self, b: u8, s: u8) -> (r: bool)
        ensures
            r == (self.base == b && self.sub == s),
    {
        self.match_base(b) && self.sub == s
    }

    pub fn match_base_sub_interface(&self, b: u8, s: u8, i: u8) -> (r: bool)
        ensures
            r == (self.base == b && self.sub == s && self.interface == i),
    {
        self.match_base_sub(b, s) && self.interface == i
    }

    /// The class code as the 24-bit number base, sub, interface.
    pub fn packed(&self) -> (v: u32)
        ensures
            v == (self.base as int) * 0x10000 + (self.sub as int) * 0x100 + self.interface as int,
    {
        let (b, s, i) = (self.base as u32, self.sub as u32, self.interface as u32);
        assert(((b << 16u32) | (s << 8u32) | i) == b * 0x10000 + s * 0x100 + i) by (bit_vector)
            requires b < 256, s < 256, i < 256;
        (b << 16) | (s << 8) | i
    }
}

/// What is known of a PCI function found on the bus.
#[derive(Debug, Clone, Copy, PartialEq, Eq, Structural)]
pub struct Device {
    pub bus: u8,
    pub device: u8,
    pub function: u8,
    pub header_type: u8,
    pub class_code: ClassCode,
}

/// Errors of PCI bus handling.
#[derive(Debug, Clone, Copy, PartialEq, Eq, Structural)]
pub enum PciError {
    /// The device table is full.
    DeviceIsFull,
    /// An index lies outside `min..=max`.
    IndexOutOfRange { min: usize, max: usize, actual: usize },
}

/// The configuration address of register `reg_addr` of function `function`
/// of device `device` on bus `bus`: the enable bit, then bus, device and
/// function numbers, then the register offset with its low two bits cleared.
pub open spec fn config_address(bus: u8, device: u8, function: u8, reg_addr: u8) -> u32 {
    (1u32 << 31u32) | ((bus as u32) << 16u32) | ((device as u32) << 11u32) | ((function as u32)
        << 8u32) | ((reg_addr as u32) & 0xfcu32)
}

fn shl(x: u32, bits: u32) -> (r: u32)
    requires
        bits < 32,
    ensures
        r == x << bits,
{
    x << bits
}

/// Builds the 32-bit address written to `CONFIG_ADDRESS` to select a
/// configuration register.
pub fn make_address(bus: u8, device: u8, function: u8, reg_addr: u8) -> (a: u32)
    ensures
        a == config_address(bus, device, function, reg_addr),
{
    shl(1, 31) | shl(bus as u32, 16) | shl(device as u32, 11) | shl(function as u32, 8) | (
    reg_addr as u32 & 0xfc)
}

/// A configuration address keeps each of its parts: for a device number
/// below 32 and a function number below 8, the enable bit is set and bus,
/// device, function and register offset can be read back from their bit
/// fields.
pub proof fn lemma_config_address_fields(bus: u8, device: u8, function: u8, reg_addr: u8)
    requires
        device < 32,
        function < 8,
    ensures
        config_address(bus, device, function, reg_addr) >> 31u32 == 1,
        (config_address(bus, device, function, reg_addr) >> 16u32) & 0xffu32 == bus as u32,
        (config_address(bus, device, function, reg_addr) >> 11u32) & 0x1fu32 == device as u32,
        (config_address(bus, device, function, reg_addr) >> 8u32) & 0x7u32 == function as u32,
        config_address(bus, device, function, reg_addr) & 0xffu32 == (reg_addr as u32) & 0xfcu32,
{
    let b = bus as u32;
    let d = device as u32;
    let f = function as u32;
    let r = reg_addr as u32;
    assert(((1u32 << 31u32) | (b << 16u32) | (d << 11u32) | (f << 8u32) | (r & 0xfcu32)) >> 31u32
        == 1) by (bit_vector)
        requires b < 256, d < 32, f < 8, r < 256;
    assert((((1u32 << 31u32) | (b << 16u32) | (d << 11u32) | (f << 8u32) | (r & 0xfcu32))
        >> 16u32) & 0xffu32 == b) by (bit_vector)
        requires b < 256, d < 32, f < 8, r < 256;
    assert((((1u32 << 31u32) | (b << 16u32) | (d << 11u32) | (f << 8u32) | (r & 0xfcu32))
        >> 11u32) & 0x1fu32 == d) by (bit_vector)
        requires b < 256, d < 32, f < 8, r < 256;
    assert((((1u32 << 31u32) | (b << 16u32) | (d << 11u32) | (f << 8u32) | (r & 0xfcu32))
        >> 8u32) & 0x7u32 == f) by (bit_vector)
        requires b < 256, d < 32, f < 8, r < 256;
    assert(((1u32 << 31u32) | (b << 16u32) | (d << 11u32) | (f << 8u32) | (r & 0xfcu32))
        & 0xffu32 == r & 0xfcu32) by (bit_vector)
        requires b < 256, d < 32, f < 8, r < 256;
}


/// Register offset of the vendor and device ids.
pub const REG_VENDOR_ID: u8 = 0x00;

/// Register offset of the class code and revision.
pub const REG_CLASS_CODE: u8 = 0x08;

/// Register offset of the header type (bits 16 to 23).
pub const REG_HEADER_TYPE: u8 = 0x0c;

/// Register offset of the bus numbers of a PCI-to-PCI bridge.
pub const REG_BUS_NUMBERS: u8 = 0x18;

/// The vendor id held in register 0x00.
pub open spec fn spec_vendor_id(reg: u32) -> u16 {
    (reg & 0xffffu32) as u16
}

/// The header type held in register 0x0c.
pub open spec fn spec_header_type(reg: u32) -> u8 {
    ((reg >> 16u32) & 0xffu32) as u8
}

/// The class code held in register 0x08.
pub open spec fn spec_class_code(reg: u32) -> ClassCode {
    ClassCode {
        base: (reg >> 24u32) as u8,
        sub: (reg >> 16u32) as u8,
        interface: (reg >> 8u32) as u8,
    }
}

/// The secondary bus number held in register 0x18 of a bridge.
pub open spec fn spec_secondary_bus(reg: u32) -> u8 {
    (reg >> 8u32) as u8
}

/// The vendor id held in the value of register 0x00.
pub fn vendor_id_of(reg: u32) -> (id: u16)
    ensures
        id == spec_vendor_id(reg),
        id == reg % 0x10000,
{
    assert((reg & 0xffffu32) as u16 == reg % 0x10000) by (bit_vector);
    (reg & 0xffff) as u16
}

/// The header type held in the value of register 0x0c.
pub fn header_type_of(reg: u32) -> (h: u8)
    ensures
        h == spec_header_type(reg),
        h == (reg / 0x10000) % 0x100,
{
    assert(((reg >> 16u32) & 0xffu32) as u8 == (reg / 0x10000) % 0x100) by (bit_vector);
    ((reg >> 16) & 0xff) as u8
}

/// The class code held in the value of register 0x08.
pub fn class_code_of(reg: u32) -> (c: ClassCode)
    ensures
        c == spec_class_code(reg),
        c.base == reg / 0x100_0000,
        c.sub == (reg / 0x10000) % 0x100,
        c.interface == (reg / 0x100) % 0x100,
{
    assert((reg >> 24u32) as u8 == reg / 0x100_0000) by (bit_vector);
    assert((reg >> 16u32) as u8 == (reg / 0x10000) % 0x100) by (bit_vector);
    assert((reg >> 8u32) as u8 == (reg / 0x100) % 0x100) by (bit_vector);
    ClassCode { base: (reg >> 24) as u8, sub: (reg >> 16) as u8, interface: (reg >> 8) as u8 }
}

/// The secondary bus number held in the value of register 0x18 of a bridge.
pub fn secondary_bus_of(reg: u32) -> (b: u8)
    ensures
        b == spec_secondary_bus(reg),
        b == (reg / 0x100) % 0x100,
{
    assert((reg >> 8u32) as u8 == (reg / 0x100) % 0x100) by (bit_vector);
    (reg >> 8) as u8
}

/// A header type without bit 7 set belongs to a single-function device.
pub fn is_single_function_device(header_type: u8) -> (r: bool)
    ensures
        r == (header_type & 0x80u8 == 0),
{
    (header_type & 0x80) == 0
}

/// Vendor id 0xffff means that no function answers.
pub fn is_invalid_vendor_id(id: u16) -> (r: bool)
    ensures
        r == (id == 0xffff),
{
    id == 0xffff
}

/// The configuration register of base address register `bar_index`.
pub open spec fn spec_bar_address(bar_index: int) -> int {
    0x10 + 4 * bar_index
}

/// Register offset of base address register `bar_index` (BAR0 to BAR5).
pub fn bar_address(bar_index: usize) -> (r: Result<u8, PciError>)
    ensures
        bar_index < 6 ==> r == Ok::<u8, PciError>(spec_bar_address(bar_index as int) as u8),
        bar_index < 6 ==> (r matches Ok(a) && a == 0x10 + 4 * bar_index),
        bar_index >= 6 ==> r == Err::<u8, PciError>(
            PciError::IndexOutOfRange { min: 0, max: 5, actual: bar_index },
        ),
{
    if bar_index >= 6 {
        return Err(PciError::IndexOutOfRange { min: 0, max: 5, actual: bar_index });
    }
    Ok(0x10 + 4 * bar_index as u8)
}

/// What the lower half of a base address register says.
#[derive(Debug, Clone, Copy, PartialEq, Eq, Structural)]
pub enum BarRead {
    /// A 32-bit address: the value of the register is the whole address.
    Complete(u64),
    /// A 64-bit address: its upper half is in register `upper_reg`.
    NeedsUpper { upper_reg: u8, lower: u64 },
}

/// Decodes base address register `bar_index`, whose configuration register
/// held `bar`.  A 32-bit address (bit 2 clear) is complete; a 64-bit one
/// takes the next register as its upper half, which BAR5 does not have.
pub fn read_bar(bar_index: usize, bar: u32) -> (r: Result<BarRead, PciError>)
    ensures
        bar_index >= 6 ==> r == Err::<BarRead, PciError>(
            PciError::IndexOutOfRange { min: 0, max: 5, actual: bar_index },
        ),
        bar_index < 6 && bar & 4 == 0 ==> r == Ok::<BarRead, PciError>(
            BarRead::Complete(bar as u64),
        ),
        bar_index == 5 && bar & 4 != 0 ==> r == Err::<BarRead, PciError>(
            PciError::IndexOutOfRange { min: 0, max: 4, actual: bar_index },
        ),
        bar_index < 5 && bar & 4 != 0 ==> r == Ok::<BarRead, PciError>(
            BarRead::NeedsUpper {
                upper_reg: (spec_bar_address(bar_index as int) + 4) as u8,
                lower: bar as u64,
            },
        ),
        bar_index < 5 && bar & 4 != 0 ==> (r matches Ok(BarRead::NeedsUpper { upper_reg, .. })
            && upper_reg == 0x14 + 4 * bar_index),
{
    let addr = match bar_address(bar_index) {
        Ok(a) => a,
        Err(e) => return Err(e),
    };
    let bar = bar as u64;
    if (bar & 4) == 0 {
        return Ok(BarRead::Complete(bar));
    }
    if bar_index >= 5 {
        return Err(PciError::IndexOutOfRange { min: 0, max: 4, actual: bar_index });
    }
    Ok(BarRead::NeedsUpper { upper_reg: addr + 4, lower: bar })
}

/// The 64-bit address made of the upper half `upper` and the lower half
/// `lower` of a base address register.
pub fn bar_from_halves(upper: u32, lower: u64) -> (a: u64)
    requires
        lower <= u32::MAX,
    ensures
        a == ((upper as u64) << 32u64) | lower,
        a == (upper as int) * 0x1_0000_0000 + lower,
{
    let u = upper as u64;
    assert(((u << 32u64) | lower) == u * 0x1_0000_0000 + lower) by (bit_vector)
        requires u <= 0xffff_ffffu64, lower <= 0xffff_ffffu64;
    u << 32 | lower
}

/// The table of PCI functions found on the bus, in the order found.
pub struct PciBus {
    devices: Vec<Device>,
}

impl PciBus {
    pub closed spec fn view(&self) -> Seq<Device> {
        self.devices@
    }

    /// The table never holds more than `MAX_DEVICES` functions.
    pub open spec fn wf(&self) -> bool {
        self@.len() <= 32
    }

    /// An empty table.
    pub fn new() -> (bus: PciBus)
        ensures
            bus.wf(),
            bus@ == Seq::<Device>::empty(),
    {
        PciBus { devices: Vec::new() }
    }

    /// The functions found so far.
    pub fn devices(&self) -> (d: &[Device])
        ensures
            d@ == self@,
    {
        self.devices.as_slice()
    }

    /// The number of functions found so far.
    pub fn num_device(&self) -> (n: usize)
        ensures
            n == self@.len(),
    {
        self.devices.len()
    }

    /// Starts a scan of all buses that adds what it finds to this table.
    /// Its first read is the header type of the host bridge.
    pub fn scan_all_bus(self) -> (scan: PciScan)
        requires
            self.wf(),
        ensures
            scan.wf(),
            scan@ == (ScanView {
                devices: self@,
                stack: Seq::empty(),
                phase: ScanPhase::Reading(PendingRead::HostHeader),
            }),
    {
        let scan = PciScan {
            bus: self,
            stack: Vec::new(),
            phase: ScanPhase::Reading(PendingRead::HostHeader),
        };
        assert(scan@.stack =~= Seq::<ScanFrame>::empty());
        scan
    }

    /// Appends a function to the table; fails, leaving the table as it was,
    /// when the table is full.
    pub fn add_device(
        &mut self,
        bus: u8,
        device: u8,
        function: u8,
        header_type: u8,
        class_code: ClassCode,
    ) -> (r: Result<(), PciError>)
        requires
            old(self).wf(),
        ensures
            final(self).wf(),
            old(self)@.len() == 32 ==> r == Err::<(), PciError>(PciError::DeviceIsFull),
            old(self)@.len() == 32 ==> final(self)@ == old(self)@,
            old(self)@.len() < 32 ==> r is Ok && final(self)@ == old(self)@.push(
                Device { bus, device, function, header_type, class_code },
            ),
    {
        if self.devices.len() == MAX_DEVICES {
            return Err(PciError::DeviceIsFull);
        }
        self.devices.push(Device { bus, device, function, header_type, class_code });
        Ok(())
    }
}


/// Work that a bus scan still has to do, innermost last.
#[derive(Debug, Clone, Copy, PartialEq, Eq, Structural)]
pub enum ScanFrame {
    /// The host bridge is multi-function: its functions from `next_function`
    /// on (up to 7) still have to be checked, function `f` leading to bus `f`.
    Root { next_function: u8 },
    /// Devices `next_device` to 31 of `bus` still have to be checked.
    Bus { bus: u8, next_device: u8 },
    /// Functions `next_function` to 7 of a multi-function device still have
    /// to be checked.
    Device { bus: u8, device: u8, next_function: u8 },
    /// Function 0 of a device has been scanned; its header type decides
    /// whether the other functions are checked.
    DeviceHeader { bus: u8, device: u8 },
}

/// The configuration register a bus scan waits for, and what it is for.
#[derive(Debug, Clone, Copy, PartialEq, Eq, Structural)]
pub enum PendingRead {
    /// Header type of the host bridge (bus 0, device 0, function 0).
    HostHeader,
    /// Vendor id of function `function` of the host bridge.
    RootVendor { function: u8 },
    /// Vendor id of function 0 of a device.
    BusVendor { bus: u8, device: u8 },
    /// Vendor id of a further function of a multi-function device.
    DeviceVendor { bus: u8, device: u8, function: u8 },
    /// Header type of function 0 of a device whose function 0 was scanned.
    DeviceHeader { bus: u8, device: u8 },
    /// Header type of a function being added.
    FunctionHeader { bus: u8, device: u8, function: u8 },
    /// Class code of a function being added.
    FunctionClass { bus: u8, device: u8, function: u8, header_type: u8 },
    /// Bus numbers of a PCI-to-PCI bridge just added.
    BusNumbers { bus: u8, device: u8, function: u8 },
}

/// Where a bus scan stands.
#[derive(Debug, Clone, Copy, PartialEq, Eq)]
pub enum ScanPhase {
    Reading(PendingRead),
    Finished(Result<(), PciError>),
}

/// What a bus scan asks of its driver next.
#[derive(Debug, Clone, Copy, PartialEq, Eq)]
pub enum ScanAction {
    /// Write this address to `CONFIG_ADDRESS`, read `CONFIG_DATA`, and hand
    /// the value to `PciScan::respond`.
    Read(u32),
    /// The scan is over, with this outcome.
    Done(Result<(), PciError>),
}

/// The state of a bus scan.
pub ghost struct ScanView {
    pub devices: Seq<Device>,
    pub stack: Seq<ScanFrame>,
    pub phase: ScanPhase,
}

/// The configuration address that `p` reads.
pub open spec fn pending_address(p: PendingRead) -> u32 {
    match p {
        PendingRead::HostHeader => config_address(0, 0, 0, REG_HEADER_TYPE),
        PendingRead::RootVendor { function } => config_address(0, 0, function, REG_VENDOR_ID),
        PendingRead::BusVendor { bus, device } => config_address(bus, device, 0, REG_VENDOR_ID),
        PendingRead::DeviceVendor { bus, device, function } => config_address(
            bus,
            device,
            function,
            REG_VENDOR_ID,
        ),
        PendingRead::DeviceHeader { bus, device } => config_address(
            bus,
            device,
            0,
            REG_HEADER_TYPE,
        ),
        PendingRead::FunctionHeader { bus, device, function } => config_address(
            bus,
            device,
            function,
            REG_HEADER_TYPE,
        ),
        PendingRead::FunctionClass { bus, device, function, .. } => config_address(
            bus,
            device,
            function,
            REG_CLASS_CODE,
        ),
        PendingRead::BusNumbers { bus, device, function } => config_address(
            bus,
            device,
            function,
            REG_BUS_NUMBERS,
        ),
    }
}

/// Takes up the innermost remaining work: frames that are done are dropped;
/// the first that is not yields the next read.  `None` when no work is left.
pub open spec fn advance(stack: Seq<ScanFrame>) -> (Seq<ScanFrame>, Option<PendingRead>)
    decreases stack.len(),
{
    if stack.len() == 0 {
        (stack, None)
    } else {
        let rest = stack.drop_last();
        match stack.last() {
            ScanFrame::Root { next_function: f } => if f < 8 {
                (rest.push(ScanFrame::Root { next_function: (f + 1) as u8 }), Some(PendingRead::RootVendor { function: f }))
            } else {
                advance(rest)
            },
            ScanFrame::Bus { bus, next_device: d } => if d < 32 {
                (rest.push(ScanFrame::Bus { bus, next_device: (d + 1) as u8 }), Some(PendingRead::BusVendor { bus, device: d }))
            } else {
                advance(rest)
            },
            ScanFrame::Device { bus, device, next_function: f } => if f < 8 {
                (rest.push(ScanFrame::Device { bus, device, next_function: (f + 1) as u8 }), Some(PendingRead::DeviceVendor { bus, device, function: f }))
            } else {
                advance(rest)
            },
            ScanFrame::DeviceHeader { bus, device } => (rest, Some(PendingRead::DeviceHeader { bus, device })),
        }
    }
}

/// Goes on with the remaining work: the next read, or the end of the scan.
pub open spec fn resume(devices: Seq<Device>, stack: Seq<ScanFrame>) -> ScanView {
    let (rest, next) = advance(stack);
    match next {
        Some(p) => ScanView { devices, stack: rest, phase: ScanPhase::Reading(p) },
        None => ScanView { devices, stack: rest, phase: ScanPhase::Finished(Ok(())) },
    }
}

/// The scan after the register it waits for (`st.phase`) held `value`.
pub open spec fn scan_step(st: ScanView, value: u32) -> ScanView {
    let devices = st.devices;
    let stack = st.stack;
    match st.phase {
        ScanPhase::Finished(_) => st,
        ScanPhase::Reading(p) => match p {
            PendingRead::HostHeader => if spec_header_type(value) & 0x80u8 == 0 {
                resume(devices, stack.push(ScanFrame::Bus { bus: 0, next_device: 0 }))
            } else {
                resume(devices, stack.push(ScanFrame::Root { next_function: 0 }))
            },
            PendingRead::RootVendor { function } => if spec_vendor_id(value) == 0xffff {
                resume(devices, stack)
            } else {
                resume(devices, stack.push(ScanFrame::Bus { bus: function, next_device: 0 }))
            },
            PendingRead::BusVendor { bus, device } => if spec_vendor_id(value) == 0xffff {
                resume(devices, stack)
            } else {
                ScanView {
                    devices,
                    stack: stack.push(ScanFrame::DeviceHeader { bus, device }),
                    phase: ScanPhase::Reading(PendingRead::FunctionHeader { bus, device, function: 0 }),
                }
            },
            PendingRead::DeviceVendor { bus, device, function } => if spec_vendor_id(value)
                == 0xffff {
                resume(devices, stack)
            } else {
                ScanView {
                    devices,
                    stack,
                    phase: ScanPhase::Reading(PendingRead::FunctionHeader { bus, device, function }),
                }
            },
            PendingRead::DeviceHeader { bus, device } => if spec_header_type(value) & 0x80u8
                == 0 {
                resume(devices, stack)
            } else {
                resume(devices, stack.push(ScanFrame::Device { bus, device, next_function: 1 }))
            },
            PendingRead::FunctionHeader { bus, device, function } => ScanView {
                devices,
                stack,
                phase: ScanPhase::Reading(
                    PendingRead::FunctionClass {
                        bus,
                        device,
                        function,
                        header_type: spec_header_type(value),
                    },
                ),
            },
            PendingRead::FunctionClass { bus, device, function, header_type } => {
                let class_code = spec_class_code(value);
                if devices.len() >= 32 {
                    ScanView {
                        devices,
                        stack,
                        phase: ScanPhase::Finished(Err(PciError::DeviceIsFull)),
                    }
                } else {
                    let devices = devices.push(
                        Device { bus, device, function, header_type, class_code },
                    );
                    if class_code.base == 0x06 && class_code.sub == 0x04 {
                        ScanView {
                            devices,
                            stack,
                            phase: ScanPhase::Reading(PendingRead::BusNumbers { bus, device, function }),
                        }
                    } else {
                        resume(devices, stack)
                    }
                }
            },
            PendingRead::BusNumbers { .. } => resume(
                devices,
                stack.push(ScanFrame::Bus { bus: spec_secondary_bus(value), next_device: 0 }),
            ),
        },
    }
}

/// A step of a scan never drops or changes a function found: the table
/// stays as it is or grows by one, and never beyond `MAX_DEVICES`.
pub proof fn lemma_scan_step_keeps_devices(st: ScanView, value: u32)
    requires
        st.devices.len() <= 32,
    ensures
        scan_step(st, value).devices.len() <= 32,
        scan_step(st, value).devices == st.devices || scan_step(st, value).devices == st.devices.push(
            scan_step(st, value).devices.last(),
        ),
{
}

/// Every PCI-to-PCI bridge (class 0x06, sub-class 0x04, whatever its
/// interface byte, so subtractive-decode bridges too) leads the scan to its
/// secondary bus: once the bridge's class register `class_reg` is read
/// (with room left in the table), the bridge is added and the next read is
/// its bus-number register 0x18; once that reads `bus_reg`, the next read
/// is the vendor id of device 0, function 0 on the secondary bus, bits 8 to
/// 15 of `bus_reg`.
pub proof fn lemma_bridge_leads_to_secondary_bus(
    st: ScanView,
    bus: u8,
    device: u8,
    function: u8,
    header_type: u8,
    class_reg: u32,
    bus_reg: u32,
)
    requires
        st.phase == ScanPhase::Reading(
            PendingRead::FunctionClass { bus, device, function, header_type },
        ),
        st.devices.len() < 32,
        (class_reg >> 24u32) as u8 == 0x06,
        (class_reg >> 16u32) as u8 == 0x04,
    ensures
        ({
            let s1 = scan_step(st, class_reg);
            let s2 = scan_step(s1, bus_reg);
            &&& s1.devices == st.devices.push(
                Device {
                    bus,
                    device,
                    function,
                    header_type,
                    class_code: ClassCode {
                        base: 0x06,
                        sub: 0x04,
                        interface: (class_reg >> 8u32) as u8,
                    },
                },
            )
            &&& scan_action(s1) == ScanAction::Read(
                (1u32 << 31u32) | ((bus as u32) << 16u32) | ((device as u32) << 11u32) | ((
                function as u32) << 8u32) | 0x18u32,
            )
            &&& s2.devices == s1.devices
            &&& scan_action(s2) == ScanAction::Read(
                (1u32 << 31u32) | ((((bus_reg >> 8u32) as u8) as u32) << 16u32),
            )
        }),
{
    let secondary = (bus_reg >> 8u32) as u8;
    let rest = st.stack;
    assert(rest.push(ScanFrame::Bus { bus: secondary, next_device: 0 }).drop_last() =~= rest);
    let (b, d, f, s) = (bus as u32, device as u32, function as u32, secondary as u32);
    assert(((1u32 << 31u32) | (b << 16u32) | (d << 11u32) | (f << 8u32) | (0x18u32 & 0xfcu32))
        == ((1u32 << 31u32) | (b << 16u32) | (d << 11u32) | (f << 8u32) | 0x18u32))
        by (bit_vector);
    assert(((1u32 << 31u32) | (s << 16u32) | (0u32 << 11u32) | (0u32 << 8u32) | (0u32 & 0xfcu32))
        == ((1u32 << 31u32) | (s << 16u32))) by (bit_vector);
}

/// What a scan in state `st` asks for.
pub open spec fn scan_action(st: ScanView) -> ScanAction {
    match st.phase {
        ScanPhase::Reading(p) => ScanAction::Read(pending_address(p)),
        ScanPhase::Finished(r) => ScanAction::Done(r),
    }
}

/// A scan of all PCI buses, driven from outside: `action` says which
/// configuration register to read, `respond` takes its value, until the
/// action is `Done`.  Found functions are added to the device table.
pub struct PciScan {
    bus: PciBus,
    stack: Vec<ScanFrame>,
    phase: ScanPhase,
}

impl PciScan {
    pub closed spec fn view(&self) -> ScanView {
        ScanView { devices: self.bus@, stack: self.stack@, phase: self.phase }
    }

    pub open spec fn wf(&self) -> bool {
        self@.devices.len() <= 32
    }

    /// The device table as the scan has filled it so far.
    pub fn bus(&self) -> (b: &PciBus)
        ensures
            b@ == self@.devices,
            b.wf() == self.wf(),
    {
        &self.bus
    }

    /// Ends the scan, handing back the device table.
    pub fn into_bus(self) -> (b: PciBus)
        ensures
            b@ == self@.devices,
            b.wf() == self.wf(),
    {
        self.bus
    }

    /// What the scan asks for next.
    pub fn action(&self) -> (a: ScanAction)
        ensures
            a == scan_action(self@),
    {
        match self.phase {
            ScanPhase::Reading(p) => ScanAction::Read(pending_read_address(p)),
            ScanPhase::Finished(r) => ScanAction::Done(r),
        }
    }

    /// Takes the value of the register the scan waits for.
    pub fn respond(&mut self, value: u32)
        requires
            old(self).wf(),
            old(self)@.phase is Reading,
        ensures
            final(self).wf(),
            final(self)@ == scan_step(old(self)@, value),
    {
        let p = match self.phase {
            ScanPhase::Reading(p) => p,
            ScanPhase::Finished(_) => return ,
        };
        match p {
            PendingRead::HostHeader => {
                // A single-function host bridge means a single bus.
                if is_single_function_device(header_type_of(value)) {
                    self.stack.push(ScanFrame::Bus { bus: 0, next_device: 0 });
                } else {
                    self.stack.push(ScanFrame::Root { next_function: 0 });
                }
                self.resume();
            },
            PendingRead::RootVendor { function } => {
                if !is_invalid_vendor_id(vendor_id_of(value)) {
                    self.stack.push(ScanFrame::Bus { bus: function, next_device: 0 });
                }
                self.resume();
            },
            PendingRead::BusVendor { bus, device } => {
                if is_invalid_vendor_id(vendor_id_of(value)) {
                    self.resume();
                } else {
                    self.stack.push(ScanFrame::DeviceHeader { bus, device });
                    self.phase = ScanPhase::Reading(
                        PendingRead::FunctionHeader { bus, device, function: 0 },
                    );
                }
            },
            PendingRead::DeviceVendor { bus, device, function } => {
                if is_invalid_vendor_id(vendor_id_of(value)) {
                    self.resume();
                } else {
                    self.phase = ScanPhase::Reading(
                        PendingRead::FunctionHeader { bus, device, function },
                    );
                }
            },
            PendingRead::DeviceHeader { bus, device } => {
                if !is_single_function_device(header_type_of(value)) {
                    self.stack.push(ScanFrame::Device { bus, device, next_function: 1 });
                }
                self.resume();
            },
            PendingRead::FunctionHeader { bus, device, function } => {
                let header_type = header_type_of(value);
                self.phase = ScanPhase::Reading(
                    PendingRead::FunctionClass { bus, device, function, header_type },
                );
            },
            PendingRead::FunctionClass { bus, device, function, header_type } => {
                let class_code = class_code_of(value);
                match self.bus.add_device(bus, device, function, header_type, class_code) {
                    Err(e) => {
                        self.phase = ScanPhase::Finished(Err(e));
                    },
                    Ok(()) => {
                        // A PCI-to-PCI bridge leads to its secondary bus.
                        if class_code.match_base_sub(0x06, 0x04) {
                            self.phase = ScanPhase::Reading(
                                PendingRead::BusNumbers { bus, device, function },
                            );
                        } else {
                            self.resume();
                        }
                    },
                }
            },
            PendingRead::BusNumbers { .. } => {
                let secondary_bus = secondary_bus_of(value);
                self.stack.push(ScanFrame::Bus { bus: secondary_bus, next_device: 0 });
                self.resume();
            },
        }
    }

    /// Drops finished frames and waits for the next read, or finishes.
    fn resume(&mut self)
        requires
            old(self).wf(),
        ensures
            final(self).wf(),
            final(self)@ == resume(old(self)@.devices, old(self)@.stack),
    {
        loop
            invariant
                self.wf(),
                self@.devices == old(self)@.devices,
                resume(self@.devices, self@.stack) == resume(old(self)@.devices, old(self)@.stack),
            decreases self.stack@.len(),
        {
            match self.stack.pop() {
                None => {
                    self.phase = ScanPhase::Finished(Ok(()));
                    return ;
                },
                Some(frame) => {
                    match frame {
                        ScanFrame::Root { next_function } => {
                            if next_function < 8 {
                                self.stack.push(ScanFrame::Root { next_function: next_function + 1 });
                                self.phase = ScanPhase::Reading(
                                    PendingRead::RootVendor { function: next_function },
                                );
                                return ;
                            }
                        },
                        ScanFrame::Bus { bus, next_device } => {
                            if next_device < 32 {
                                self.stack.push(ScanFrame::Bus { bus, next_device: next_device + 1 });
                                self.phase = ScanPhase::Reading(
                                    PendingRead::BusVendor { bus, device: next_device },
                                );
                                return ;
                            }
                        },
                        ScanFrame::Device { bus, device, next_function } => {
                            if next_function < 8 {
                                self.stack.push(
                                    ScanFrame::Device { bus, device, next_function: next_function + 1 },
                                );
                                self.phase = ScanPhase::Reading(
                                    PendingRead::DeviceVendor { bus, device, function: next_function },
                                );
                                return ;
                            }
                        },
                        ScanFrame::DeviceHeader { bus, device } => {
                            self.phase = ScanPhase::Reading(PendingRead::DeviceHeader { bus, device });
                            return ;
                        },
                    }
                },
            }
        }
    }
}

/// The configuration address that `p` reads.
pub fn pending_read_address(p: PendingRead) -> (a: u32)
    ensures
        a == pending_address(p),
{
    match p {
        PendingRead::HostHeader => make_address(0, 0, 0, REG_HEADER_TYPE),
        PendingRead::RootVendor { function } => make_address(0, 0, function, REG_VENDOR_ID),
        PendingRead::BusVendor { bus, device } => make_address(bus, device, 0, REG_VENDOR_ID),
        PendingRead::DeviceVendor { bus, device, function } => make_address(
            bus,
            device,
            function,
            REG_VENDOR_ID,
        ),
        PendingRead::DeviceHeader { bus, device } => make_address(bus, device, 0, REG_HEADER_TYPE),
        PendingRead::FunctionHeader { bus, device, function } => make_address(
            bus,
            device,
            function,
            REG_HEADER_TYPE,
        ),
        PendingRead::FunctionClass { bus, device, function, .. } => make_address(
            bus,
            device,
            function,
            REG_CLASS_CODE,
        ),
        PendingRead::BusNumbers { bus, device, function } => make_address(
            bus,
            device,
            function,
            REG_BUS_NUMBERS,
        ),
    }
}

} // verus!
