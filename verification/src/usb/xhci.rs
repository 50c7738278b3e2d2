use vstd::prelude::*;

use crate::pci::{
    config_address, make_address, spec_vendor_id, vendor_id_of, ClassCode, Device, PciBus,
    REG_VENDOR_ID,
};

verus! {

/// Vendor id of Intel.
pub const INTEL_VENDOR_ID: u16 = 0x8086;

/// xHC register: which USB 2.0 ports are routed to the xHC (XUSB2PR).
pub const REG_XUSB2PR: u8 = 0xd0;

/// xHC register: which USB 2.0 ports may be routed to the xHC (XUSB2PRM).
pub const REG_XUSB2PRM: u8 = 0xd4;

/// xHC register: which SuperSpeed ports are enabled (USB3_PSSEN).
pub const REG_USB3_PSSEN: u8 = 0xd8;

/// xHC register: which SuperSpeed ports may be enabled (USB3PRM).
pub const REG_USB3PRM: u8 = 0xdc;

/// Whether a class code is that of an EHCI USB host controller.
pub open spec fn spec_is_ehci(c: ClassCode) -> bool {
    c.base == 0x0c && c.sub == 0x03 && c.interface == 0x20
}

/// Whether a class code is that of an EHCI USB host controller.
pub fn is_ehci(c: &ClassCode) -> (r: bool)
    ensures
        r == spec_is_ehci(*c),
        r == (c.base == 0x0c && c.sub == 0x03 && c.interface == 0x20),
{
    c.match_base_sub_interface(0x0c, 0x03, 0x20)
}

/// Whether the value of register 0x00 names Intel as the vendor.
pub fn is_intel_vendor(reg: u32) -> (r: bool)
    ensures
        r == (spec_vendor_id(reg) == INTEL_VENDOR_ID),
{
    vendor_id_of(reg) == INTEL_VENDOR_ID
}

/// The next step of the search for an Intel EHCI controller.
#[derive(Debug, Clone, Copy, PartialEq, Eq, Structural)]
pub enum EhciProbe {
    /// Device `index` of the table is an EHCI controller: read the register
    /// at `address` and test it with `is_intel_vendor`.
    ReadVendor { index: usize, address: u32 },
    /// No further EHCI controller is in the table.
    NotFound,
}

/// The address of the vendor id read for a candidate EHCI controller: the
/// device number stands in for the bus number too.
pub open spec fn ehci_vendor_address(d: Device) -> u32 {
    config_address(d.device, d.device, d.function, REG_VENDOR_ID)
}

/// From device `start` of the table on, finds the next EHCI controller,
/// whose vendor id is then to be read.
pub fn find_ehci(pci: &PciBus, start: usize) -> (r: EhciProbe)
    ensures
        r == probe_from(pci@, start as int),
        r matches EhciProbe::ReadVendor { index, .. } ==> start <= index < pci@.len(),
{
    let devices = pci.devices();
    let mut i = start;
    while i < devices.len()
        invariant
            devices@ == pci@,
            start <= i,
            probe_from(pci@, start as int) == probe_from(pci@, i as int),
        decreases devices@.len() - i,
    {
        let device = devices[i];
        if is_ehci(&device.class_code) {
            let address = make_address(device.device, device.device, device.function, REG_VENDOR_ID);
            return EhciProbe::ReadVendor { index: i, address };
        }
        i = i + 1;
    }
    EhciProbe::NotFound
}


/// Where the switch of USB ports from EHCI to the xHC stands.
#[derive(Debug, Clone, Copy, PartialEq, Eq)]
pub enum SwitchPhase {
    /// Waiting for the vendor id of EHCI controller `index` of the table,
    /// read at `address`.
    VendorOf { index: usize, address: u32 },
    /// An Intel EHCI controller answered: waiting for the xHC's USB3PRM.
    ReadSuperSpeed,
    /// Writing `superspeed_ports` to the xHC's USB3_PSSEN.
    WriteSuperSpeed { superspeed_ports: u32 },
    /// Waiting for the xHC's XUSB2PRM.
    ReadEhci2Xhci { superspeed_ports: u32 },
    /// Writing `ehci2xhci_ports` to the xHC's XUSB2PR.
    WriteEhci2Xhci { superspeed_ports: u32, ehci2xhci_ports: u32 },
    /// Done: the two port masks written when the ports were switched,
    /// `None` when no Intel EHCI controller was found.
    Finished { switched: Option<(u32, u32)> },
}

/// What the switch asks of its driver next.
#[derive(Debug, Clone, Copy, PartialEq, Eq)]
pub enum SwitchAction {
    /// Read the configuration register at this address and hand its value
    /// to `respond`.
    Read(u32),
    /// Write the value to the configuration register at the address, then
    /// call `respond` (with any value).
    Write(u32, u32),
    /// The switch is over.
    Done(Option<(u32, u32)>),
}

/// The configuration address of register `reg` of the xHC.
pub open spec fn xhc_reg(xhc: Device, reg: u8) -> u32 {
    config_address(xhc.bus, xhc.device, xhc.function, reg)
}

/// The phase that the search from device `start` on leads to.
pub open spec fn probe_phase(p: EhciProbe) -> SwitchPhase {
    match p {
        EhciProbe::ReadVendor { index, address } => SwitchPhase::VendorOf { index, address },
        EhciProbe::NotFound => SwitchPhase::Finished { switched: None },
    }
}

/// What the switch in phase `ph` asks for.
pub open spec fn switch_action(xhc: Device, ph: SwitchPhase) -> SwitchAction {
    match ph {
        SwitchPhase::VendorOf { address, .. } => SwitchAction::Read(address),
        SwitchPhase::ReadSuperSpeed => SwitchAction::Read(xhc_reg(xhc, REG_USB3PRM)),
        SwitchPhase::WriteSuperSpeed { superspeed_ports } => SwitchAction::Write(
            xhc_reg(xhc, REG_USB3_PSSEN),
            superspeed_ports,
        ),
        SwitchPhase::ReadEhci2Xhci { .. } => SwitchAction::Read(xhc_reg(xhc, REG_XUSB2PRM)),
        SwitchPhase::WriteEhci2Xhci { ehci2xhci_ports, .. } => SwitchAction::Write(
            xhc_reg(xhc, REG_XUSB2PR),
            ehci2xhci_ports,
        ),
        SwitchPhase::Finished { switched } => SwitchAction::Done(switched),
    }
}

/// The phase after phase `ph` got `value` (the value of a read; ignored
/// after a write): a vendor id other than Intel's goes on with the search
/// from the next device of the table `pci`.
pub open spec fn switch_step(pci: Seq<Device>, ph: SwitchPhase, value: u32) -> SwitchPhase {
    match ph {
        SwitchPhase::VendorOf { index, .. } => if spec_vendor_id(value) == INTEL_VENDOR_ID {
            SwitchPhase::ReadSuperSpeed
        } else {
            probe_phase(probe_from(pci, index + 1))
        },
        SwitchPhase::ReadSuperSpeed => SwitchPhase::WriteSuperSpeed { superspeed_ports: value },
        SwitchPhase::WriteSuperSpeed { superspeed_ports } => SwitchPhase::ReadEhci2Xhci {
            superspeed_ports,
        },
        SwitchPhase::ReadEhci2Xhci { superspeed_ports } => SwitchPhase::WriteEhci2Xhci {
            superspeed_ports,
            ehci2xhci_ports: value,
        },
        SwitchPhase::WriteEhci2Xhci { superspeed_ports, ehci2xhci_ports } => SwitchPhase::Finished {
            switched: Some((superspeed_ports, ehci2xhci_ports)),
        },
        SwitchPhase::Finished { .. } => ph,
    }
}

/// The search from device `start` of the table on: the first EHCI
/// controller there, with the address its vendor id is read at.
pub open spec fn probe_from(pci: Seq<Device>, start: int) -> EhciProbe
    decreases pci.len() - start,
{
    if start < 0 || start >= pci.len() {
        EhciProbe::NotFound
    } else if spec_is_ehci(pci[start].class_code) {
        EhciProbe::ReadVendor { index: start as usize, address: ehci_vendor_address(pci[start]) }
    } else {
        probe_from(pci, start + 1)
    }
}

/// Switching the USB ports of an Intel chipset from its EHCI controllers to
/// the xHC `xhc`, driven from outside: when one of the EHCI controllers of
/// the table is Intel's, the SuperSpeed ports that may be enabled are
/// enabled and the USB 2.0 ports that may be routed to the xHC are routed.
pub struct Ehci2XhciSwitch<'a> {
    pci: &'a PciBus,
    xhc: Device,
    phase: SwitchPhase,
}

impl<'a> Ehci2XhciSwitch<'a> {
    pub closed spec fn table(&self) -> Seq<Device> {
        self.pci@
    }

    pub closed spec fn xhc(&self) -> Device {
        self.xhc
    }

    pub closed spec fn phase(&self) -> SwitchPhase {
        self.phase
    }

    /// A controller whose vendor id is awaited is in the table.
    pub open spec fn wf(&self) -> bool {
        &&& self.table().len() <= 32
        &&& self.phase() matches SwitchPhase::VendorOf { index, .. } ==> index < self.table().len()
    }

    /// What the switch asks for next.
    pub fn action(&self) -> (a: SwitchAction)
        ensures
            a == switch_action(self.xhc(), self.phase()),
    {
        match self.phase {
            SwitchPhase::VendorOf { address, .. } => SwitchAction::Read(address),
            SwitchPhase::ReadSuperSpeed => SwitchAction::Read(
                make_address(self.xhc.bus, self.xhc.device, self.xhc.function, REG_USB3PRM),
            ),
            SwitchPhase::WriteSuperSpeed { superspeed_ports } => SwitchAction::Write(
                make_address(self.xhc.bus, self.xhc.device, self.xhc.function, REG_USB3_PSSEN),
                superspeed_ports,
            ),
            SwitchPhase::ReadEhci2Xhci { .. } => SwitchAction::Read(
                make_address(self.xhc.bus, self.xhc.device, self.xhc.function, REG_XUSB2PRM),
            ),
            SwitchPhase::WriteEhci2Xhci { ehci2xhci_ports, .. } => SwitchAction::Write(
                make_address(self.xhc.bus, self.xhc.device, self.xhc.function, REG_XUSB2PR),
                ehci2xhci_ports,
            ),
            SwitchPhase::Finished { switched } => SwitchAction::Done(switched),
        }
    }

    /// Takes the value of the register read (any value after a write).
    pub fn respond(&mut self, value: u32)
        requires
            old(self).wf(),
            !(old(self).phase() is Finished),
        ensures
            final(self).wf(),
            final(self).table() == old(self).table(),
            final(self).xhc() == old(self).xhc(),
            final(self).phase() == switch_step(old(self).table(), old(self).phase(), value),
    {
        match self.phase {
            SwitchPhase::VendorOf { index, .. } => {
                if is_intel_vendor(value) {
                    self.phase = SwitchPhase::ReadSuperSpeed;
                    } else {
                    let next = find_ehci(self.pci, index + 1);
                    self.phase = match next {
                        EhciProbe::ReadVendor { index, address } => SwitchPhase::VendorOf {
                            index,
                            address,
                        },
                        EhciProbe::NotFound => SwitchPhase::Finished { switched: None },
                    };
                }
            },
            SwitchPhase::ReadSuperSpeed => {
                self.phase = SwitchPhase::WriteSuperSpeed { superspeed_ports: value };
            },
            SwitchPhase::WriteSuperSpeed { superspeed_ports } => {
                self.phase = SwitchPhase::ReadEhci2Xhci { superspeed_ports };
            },
            SwitchPhase::ReadEhci2Xhci { superspeed_ports } => {
                self.phase = SwitchPhase::WriteEhci2Xhci {
                    superspeed_ports,
                    ehci2xhci_ports: value,
                };
            },
            SwitchPhase::WriteEhci2Xhci { superspeed_ports, ehci2xhci_ports } => {
                self.phase = SwitchPhase::Finished {
                    switched: Some((superspeed_ports, ehci2xhci_ports)),
                };
            },
            SwitchPhase::Finished { .. } => {},
        }
    }
}

/// Starts switching the USB ports to the xHC `xhc_dev`: the first step reads
/// the vendor id of the first EHCI controller of the table, if there is one.
pub fn switch_ehci2xhci<'a>(pci: &'a PciBus, xhc_dev: Device) -> (s: Ehci2XhciSwitch<'a>)
    requires
        pci.wf(),
    ensures
        s.table() == pci@,
        s.xhc() == xhc_dev,
        s.wf(),
        s.phase() == probe_phase(probe_from(pci@, 0)),
{
    let p = find_ehci(pci, 0);
    let phase = match p {
        EhciProbe::ReadVendor { index, address } => SwitchPhase::VendorOf { index, address },
        EhciProbe::NotFound => SwitchPhase::Finished { switched: None },
    };
    Ehci2XhciSwitch { pci, xhc: xhc_dev, phase }
}


/// Whether device `i` of the table is an EHCI controller that names Intel
/// as its vendor in configuration space `cfg`.
pub open spec fn intel_ehci_at(pci: Seq<Device>, cfg: spec_fn(u32) -> u32, i: int) -> bool {
    &&& spec_is_ehci(pci[i].class_code)
    &&& spec_vendor_id(cfg(ehci_vendor_address(pci[i]))) == INTEL_VENDOR_ID
}

/// Whether some device of the table is an Intel EHCI controller.
pub open spec fn has_intel_ehci(pci: Seq<Device>, cfg: spec_fn(u32) -> u32) -> bool {
    exists|i: int| 0 <= i < pci.len() && #[trigger] intel_ehci_at(pci, cfg, i)
}

/// What holds of every phase a switch driven by configuration space `cfg`
/// reaches: a vendor id is read only of an EHCI controller, at its address,
/// after no earlier one was Intel's; the ports are switched only when an
/// Intel EHCI controller is in the table, and each mask written is the one
/// read from the register before it; the switch ends without switching only
/// when no Intel EHCI controller is in the table.
pub open spec fn switch_inv(
    pci: Seq<Device>,
    xhc: Device,
    cfg: spec_fn(u32) -> u32,
    ph: SwitchPhase,
) -> bool {
    let ss = cfg(xhc_reg(xhc, REG_USB3PRM));
    let e2x = cfg(xhc_reg(xhc, REG_XUSB2PRM));
    match ph {
        SwitchPhase::VendorOf { index, address } => {
            &&& index < pci.len()
            &&& probe_from(pci, index as int) == (EhciProbe::ReadVendor { index, address })
            &&& forall|j: int| 0 <= j < index ==> !#[trigger] intel_ehci_at(pci, cfg, j)
        },
        SwitchPhase::ReadSuperSpeed => has_intel_ehci(pci, cfg),
        SwitchPhase::WriteSuperSpeed { superspeed_ports } => has_intel_ehci(pci, cfg)
            && superspeed_ports == ss,
        SwitchPhase::ReadEhci2Xhci { superspeed_ports } => has_intel_ehci(pci, cfg)
            && superspeed_ports == ss,
        SwitchPhase::WriteEhci2Xhci { superspeed_ports, ehci2xhci_ports } => has_intel_ehci(
            pci,
            cfg,
        ) && superspeed_ports == ss && ehci2xhci_ports == e2x,
        SwitchPhase::Finished { switched: Some((s, e)) } => has_intel_ehci(pci, cfg) && s == ss
            && e == e2x,
        SwitchPhase::Finished { switched: None } => forall|j: int|
            0 <= j < pci.len() ==> !#[trigger] intel_ehci_at(pci, cfg, j),
    }
}

/// The phase a switch reaches from `ph` after `n` steps, its reads answered
/// from configuration space `cfg`; a finished switch stays as it is.
pub open spec fn switch_run(
    pci: Seq<Device>,
    xhc: Device,
    cfg: spec_fn(u32) -> u32,
    ph: SwitchPhase,
    n: nat,
) -> SwitchPhase
    decreases n,
{
    if n == 0 || ph is Finished {
        ph
    } else {
        let value = match switch_action(xhc, ph) {
            SwitchAction::Read(a) => cfg(a),
            _ => 0,
        };
        switch_run(pci, xhc, cfg, switch_step(pci, ph, value), (n - 1) as nat)
    }
}

/// What the search from device `start` on finds.
proof fn lemma_probe_from(pci: Seq<Device>, start: int)
    requires
        0 <= start,
        pci.len() <= 32,
    ensures
        probe_from(pci, start) matches EhciProbe::ReadVendor { index, address } ==> {
            &&& start <= index < pci.len()
            &&& spec_is_ehci(pci[index as int].class_code)
            &&& address == ehci_vendor_address(pci[index as int])
            &&& probe_from(pci, index as int) == probe_from(pci, start)
            &&& forall|j: int| start <= j < index ==> !spec_is_ehci(#[trigger] pci[j].class_code)
        },
        probe_from(pci, start) is NotFound ==> forall|j: int|
            start <= j < pci.len() ==> !spec_is_ehci(#[trigger] pci[j].class_code),
    decreases pci.len() - start,
{
    if start < pci.len() && !spec_is_ehci(pci[start].class_code) {
        lemma_probe_from(pci, start + 1);
    }
}

/// The phase a search result leads to satisfies `switch_inv` when no
/// controller before the search's start is an Intel EHCI controller.
proof fn lemma_probe_phase_inv(
    pci: Seq<Device>,
    xhc: Device,
    cfg: spec_fn(u32) -> u32,
    start: int,
)
    requires
        0 <= start,
        pci.len() <= 32,
        forall|j: int| 0 <= j < start ==> !#[trigger] intel_ehci_at(pci, cfg, j),
    ensures
        switch_inv(pci, xhc, cfg, probe_phase(probe_from(pci, start))),
{
    lemma_probe_from(pci, start);
    match probe_from(pci, start) {
        EhciProbe::ReadVendor { index, address } => {
            assert forall|j: int| 0 <= j < index implies !#[trigger] intel_ehci_at(pci, cfg, j) by {
                if j >= start {
                    assert(!spec_is_ehci(pci[j].class_code));
                }
            }
        },
        EhciProbe::NotFound => {
            assert forall|j: int| 0 <= j < pci.len() implies !#[trigger] intel_ehci_at(
                pci,
                cfg,
                j,
            ) by {
                if j >= start {
                    assert(!spec_is_ehci(pci[j].class_code));
                }
            }
        },
    }
}

/// Each step of a switch driven by `cfg` keeps `switch_inv`.
proof fn lemma_switch_step_inv(
    pci: Seq<Device>,
    xhc: Device,
    cfg: spec_fn(u32) -> u32,
    ph: SwitchPhase,
)
    requires
        pci.len() <= 32,
        switch_inv(pci, xhc, cfg, ph),
        !(ph is Finished),
    ensures
        switch_inv(
            pci,
            xhc,
            cfg,
            switch_step(
                pci,
                ph,
                match switch_action(xhc, ph) {
                    SwitchAction::Read(a) => cfg(a),
                    _ => 0,
                },
            ),
        ),
{
    match ph {
        SwitchPhase::VendorOf { index, address } => {
            lemma_probe_from(pci, index as int);
            let value = cfg(address);
            if spec_vendor_id(value) == INTEL_VENDOR_ID {
                assert(intel_ehci_at(pci, cfg, index as int));
            } else {
                assert forall|j: int| 0 <= j < index + 1 implies !#[trigger] intel_ehci_at(
                    pci,
                    cfg,
                    j,
                ) by {
                    if j == index {
                        assert(!intel_ehci_at(pci, cfg, index as int));
                    }
                }
                lemma_probe_phase_inv(pci, xhc, cfg, index + 1);
            }
        },
        _ => {},
    }
}

/// A switch driven by any configuration space `cfg` keeps to `switch_inv`
/// in every phase it reaches: it writes only when an Intel EHCI controller
/// answered, at the address the search uses (the device number standing
/// for the bus number too); the mask written to USB3_PSSEN is the one read
/// from USB3PRM and the mask written to XUSB2PR the one read from XUSB2PRM;
/// and it ends without switching only when no Intel EHCI controller is in
/// the table.
pub proof fn lemma_switch_ehci2xhci(
    pci: Seq<Device>,
    xhc: Device,
    cfg: spec_fn(u32) -> u32,
    n: nat,
)
    requires
        pci.len() <= 32,
    ensures
        switch_inv(pci, xhc, cfg, switch_run(pci, xhc, cfg, probe_phase(probe_from(pci, 0)), n)),
{
    lemma_probe_phase_inv(pci, xhc, cfg, 0);
    lemma_switch_run_inv(pci, xhc, cfg, probe_phase(probe_from(pci, 0)), n);
}

/// How many steps a switch in phase `ph` takes at most before it finishes.
pub open spec fn switch_steps_left(pci: Seq<Device>, ph: SwitchPhase) -> nat {
    match ph {
        SwitchPhase::VendorOf { index, .. } => (pci.len() - index + 4) as nat,
        SwitchPhase::ReadSuperSpeed => 4,
        SwitchPhase::WriteSuperSpeed { .. } => 3,
        SwitchPhase::ReadEhci2Xhci { .. } => 2,
        SwitchPhase::WriteEhci2Xhci { .. } => 1,
        SwitchPhase::Finished { .. } => 0,
    }
}

/// A switch driven by any configuration space `cfg` finishes: after as
/// many steps as the table has devices, and five more, it is done.
pub proof fn lemma_switch_ehci2xhci_finishes(
    pci: Seq<Device>,
    xhc: Device,
    cfg: spec_fn(u32) -> u32,
)
    requires
        pci.len() <= 32,
    ensures
        switch_run(pci, xhc, cfg, probe_phase(probe_from(pci, 0)), (pci.len() + 5) as nat) is Finished,
{
    lemma_probe_phase_inv(pci, xhc, cfg, 0);
    lemma_switch_run_finishes(pci, xhc, cfg, probe_phase(probe_from(pci, 0)), (pci.len() + 5) as nat);
}

proof fn lemma_switch_run_finishes(
    pci: Seq<Device>,
    xhc: Device,
    cfg: spec_fn(u32) -> u32,
    ph: SwitchPhase,
    n: nat,
)
    requires
        pci.len() <= 32,
        switch_inv(pci, xhc, cfg, ph),
        n >= switch_steps_left(pci, ph),
    ensures
        switch_run(pci, xhc, cfg, ph, n) is Finished,
    decreases n,
{
    if n > 0 && !(ph is Finished) {
        lemma_switch_step_inv(pci, xhc, cfg, ph);
        let value = match switch_action(xhc, ph) {
            SwitchAction::Read(a) => cfg(a),
            _ => 0,
        };
        let next = switch_step(pci, ph, value);
        if let SwitchPhase::VendorOf { index, .. } = ph {
            lemma_probe_from(pci, index + 1);
        }
        assert(switch_steps_left(pci, next) < switch_steps_left(pci, ph));
        lemma_switch_run_finishes(pci, xhc, cfg, next, (n - 1) as nat);
    }
}

proof fn lemma_switch_run_inv(
    pci: Seq<Device>,
    xhc: Device,
    cfg: spec_fn(u32) -> u32,
    ph: SwitchPhase,
    n: nat,
)
    requires
        pci.len() <= 32,
        switch_inv(pci, xhc, cfg, ph),
    ensures
        switch_inv(pci, xhc, cfg, switch_run(pci, xhc, cfg, ph, n)),
    decreases n,
{
    if n > 0 && !(ph is Finished) {
        lemma_switch_step_inv(pci, xhc, cfg, ph);
        let value = match switch_action(xhc, ph) {
            SwitchAction::Read(a) => cfg(a),
            _ => 0,
        };
        lemma_switch_run_inv(pci, xhc, cfg, switch_step(pci, ph, value), (n - 1) as nat);
    }
}


/// The search finds exactly the controllers of class 0x0c, sub-class 0x03,
/// interface 0x20 (EHCI; not UHCI, OHCI or xHCI): from `start` on, the first
/// device of the table with that class code, read at the address made of
/// its device number (standing for the bus number too), its function
/// number and register 0; no search result skips or takes another device.
pub proof fn lemma_find_ehci_class(pci: Seq<Device>, start: int)
    requires
        0 <= start,
        pci.len() <= 32,
    ensures
        probe_from(pci, start) matches EhciProbe::ReadVendor { index, address } ==> {
            &&& start <= index < pci.len()
            &&& pci[index as int].class_code.base == 0x0c
            &&& pci[index as int].class_code.sub == 0x03
            &&& pci[index as int].class_code.interface == 0x20
            &&& address == (1u32 << 31u32) | ((pci[index as int].device as u32) << 16u32) | ((
            pci[index as int].device as u32) << 11u32) | ((pci[index as int].function as u32)
                << 8u32)
            &&& forall|j: int|
                start <= j < index ==> !(#[trigger] pci[j].class_code.base == 0x0c
                    && pci[j].class_code.sub == 0x03 && pci[j].class_code.interface == 0x20)
        },
        probe_from(pci, start) is NotFound ==> forall|j: int|
            start <= j < pci.len() ==> !(#[trigger] pci[j].class_code.base == 0x0c
                && pci[j].class_code.sub == 0x03 && pci[j].class_code.interface == 0x20),
{
    lemma_probe_from(pci, start);
    if let EhciProbe::ReadVendor { index, address } = probe_from(pci, start) {
        let d = pci[index as int];
        let (dv, f) = (d.device as u32, d.function as u32);
        assert(((1u32 << 31u32) | (dv << 16u32) | (dv << 11u32) | (f << 8u32) | (0u32 & 0xfcu32))
            == ((1u32 << 31u32) | (dv << 16u32) | (dv << 11u32) | (f << 8u32))) by (bit_vector);
    }
}

} // verus!
