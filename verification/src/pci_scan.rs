use vstd::prelude::*;

use crate::pci::{
    advance, config_address, pending_address, resume, scan_step, spec_class_code,
    spec_header_type, spec_secondary_bus, spec_vendor_id, ClassCode, Device, PciError, PendingRead,
    ScanFrame, ScanPhase, ScanView, REG_BUS_NUMBERS, REG_CLASS_CODE, REG_HEADER_TYPE,
    REG_VENDOR_ID,
};

verus! {

// The recursive bus scan: scanning a bus checks each of its 32 devices;
// scanning a device scans its function 0 and, for a multi-function device,
// each further function that answers; scanning a function adds it to the
// table and, for a PCI-to-PCI bridge, scans the bridge's secondary bus.
// A full table ends the whole scan with an error.  Each function returns
// the table and whether it ended without error.  `fuel` bounds the depth of
// bridges; 32 is enough for any configuration space, as each bridge takes a
// place in the table.

/// The value of a configuration register in configuration space `cfg`.
pub open spec fn cfg_reg(cfg: spec_fn(u32) -> u32, bus: u8, device: u8, function: u8, reg: u8) -> u32 {
    cfg(config_address(bus, device, function, reg))
}

/// Scanning function `f` of device `d` on bus `b`.
pub open spec fn spec_scan_function(
    cfg: spec_fn(u32) -> u32,
    devs: Seq<Device>,
    b: u8,
    d: u8,
    f: u8,
    fuel: nat,
) -> (Seq<Device>, bool)
    decreases fuel, 0int, 0int,
{
    let header_type = spec_header_type(cfg_reg(cfg, b, d, f, REG_HEADER_TYPE));
    let class_code = spec_class_code(cfg_reg(cfg, b, d, f, REG_CLASS_CODE));
    if devs.len() >= 32 {
        (devs, false)
    } else {
        let devs = devs.push(Device { bus: b, device: d, function: f, header_type, class_code });
        if class_code.base == 0x06 && class_code.sub == 0x04 {
            if fuel == 0 {
                (devs, false)
            } else {
                spec_scan_bus(
                    cfg,
                    devs,
                    spec_secondary_bus(cfg_reg(cfg, b, d, f, REG_BUS_NUMBERS)),
                    0,
                    (fuel - 1) as nat,
                )
            }
        } else {
            (devs, true)
        }
    }
}

/// Scanning functions `f` to 7 of device `d` on bus `b`, skipping those
/// that do not answer.
pub open spec fn spec_scan_functions(
    cfg: spec_fn(u32) -> u32,
    devs: Seq<Device>,
    b: u8,
    d: u8,
    f: int,
    fuel: nat,
) -> (Seq<Device>, bool)
    decreases fuel, 1int, 8 - f,
{
    if f < 0 || f >= 8 {
        (devs, true)
    } else if spec_vendor_id(cfg_reg(cfg, b, d, f as u8, REG_VENDOR_ID)) == 0xffff {
        spec_scan_functions(cfg, devs, b, d, f + 1, fuel)
    } else {
        let (devs, ok) = spec_scan_function(cfg, devs, b, d, f as u8, fuel);
        if !ok {
            (devs, false)
        } else {
            spec_scan_functions(cfg, devs, b, d, f + 1, fuel)
        }
    }
}

/// Scanning device `d` on bus `b`.
pub open spec fn spec_scan_device(
    cfg: spec_fn(u32) -> u32,
    devs: Seq<Device>,
    b: u8,
    d: u8,
    fuel: nat,
) -> (Seq<Device>, bool)
    decreases fuel, 2int, 0int,
{
    let (devs, ok) = spec_scan_function(cfg, devs, b, d, 0, fuel);
    if !ok {
        (devs, false)
    } else if spec_header_type(cfg_reg(cfg, b, d, 0, REG_HEADER_TYPE)) & 0x80u8 == 0 {
        (devs, true)
    } else {
        spec_scan_functions(cfg, devs, b, d, 1, fuel)
    }
}

/// Scanning devices `d` to 31 of bus `b`, skipping those that do not answer.
pub open spec fn spec_scan_bus(
    cfg: spec_fn(u32) -> u32,
    devs: Seq<Device>,
    b: u8,
    d: int,
    fuel: nat,
) -> (Seq<Device>, bool)
    decreases fuel, 3int, 32 - d,
{
    if d < 0 || d >= 32 {
        (devs, true)
    } else if spec_vendor_id(cfg_reg(cfg, b, d as u8, 0, REG_VENDOR_ID)) == 0xffff {
        spec_scan_bus(cfg, devs, b, d + 1, fuel)
    } else {
        let (devs, ok) = spec_scan_device(cfg, devs, b, d as u8, fuel);
        if !ok {
            (devs, false)
        } else {
            spec_scan_bus(cfg, devs, b, d + 1, fuel)
        }
    }
}

/// Scanning the buses named by functions `f` to 7 of a multi-function host
/// bridge, skipping the functions that do not answer.
pub open spec fn spec_scan_root(
    cfg: spec_fn(u32) -> u32,
    devs: Seq<Device>,
    f: int,
    fuel: nat,
) -> (Seq<Device>, bool)
    decreases fuel, 4int, 8 - f,
{
    if f < 0 || f >= 8 {
        (devs, true)
    } else if spec_vendor_id(cfg_reg(cfg, 0, 0, f as u8, REG_VENDOR_ID)) == 0xffff {
        spec_scan_root(cfg, devs, f + 1, fuel)
    } else {
        let (devs, ok) = spec_scan_bus(cfg, devs, f as u8, 0, fuel);
        if !ok {
            (devs, false)
        } else {
            spec_scan_root(cfg, devs, f + 1, fuel)
        }
    }
}

/// Scanning all buses: bus 0 alone when the host bridge is a single-function
/// device, else the bus of each of its functions 0 to 7 that answers,
/// function `f` serving bus `f`.
pub open spec fn spec_scan_all(cfg: spec_fn(u32) -> u32, devs: Seq<Device>) -> (Seq<Device>, bool) {
    if spec_header_type(cfg_reg(cfg, 0, 0, 0, REG_HEADER_TYPE)) & 0x80u8 == 0 {
        spec_scan_bus(cfg, devs, 0, 0, 32)
    } else {
        spec_scan_root(cfg, devs, 0, 32)
    }
}

/// A scan state after `n` reads answered from configuration space `cfg`;
/// a finished scan stays as it is.
pub open spec fn scan_run(st: ScanView, cfg: spec_fn(u32) -> u32, n: nat) -> ScanView
    decreases n,
{
    if n == 0 {
        st
    } else {
        match st.phase {
            ScanPhase::Reading(p) => scan_run(
                scan_step(st, cfg(pending_address(p))),
                cfg,
                (n - 1) as nat,
            ),
            ScanPhase::Finished(_) => st,
        }
    }
}

/// Where a scan that has done the work of one of the functions above stands:
/// on success, it goes on with the work below (`rest`); on a full table it
/// has ended with an error.
pub open spec fn reached(v: ScanView, out: (Seq<Device>, bool), rest: Seq<ScanFrame>) -> bool {
    if out.1 {
        v == resume(out.0, rest)
    } else {
        v.devices == out.0 && v.phase == ScanPhase::Finished(Err(PciError::DeviceIsFull))
    }
}

proof fn lemma_run_add(st: ScanView, cfg: spec_fn(u32) -> u32, n1: nat, n2: nat)
    ensures
        scan_run(st, cfg, n1 + n2) == scan_run(scan_run(st, cfg, n1), cfg, n2),
    decreases n1,
{
    if n1 > 0 {
        match st.phase {
            ScanPhase::Reading(p) => {
                lemma_run_add(scan_step(st, cfg(pending_address(p))), cfg, (n1 - 1) as nat, n2);
                assert((n1 + n2 - 1) as nat == ((n1 - 1) as nat + n2));
            },
            ScanPhase::Finished(_) => {
                lemma_run_finished(st, cfg, n2);
                lemma_run_finished(st, cfg, n1 + n2);
            },
        }
    }
}

proof fn lemma_run_finished(st: ScanView, cfg: spec_fn(u32) -> u32, n: nat)
    requires
        st.phase is Finished,
    ensures
        scan_run(st, cfg, n) == st,
{
}

proof fn lemma_run_one(st: ScanView, cfg: spec_fn(u32) -> u32, p: PendingRead)
    requires
        st.phase == ScanPhase::Reading(p),
    ensures
        scan_run(st, cfg, 1) == scan_step(st, cfg(pending_address(p))),
{
    assert(scan_run(scan_step(st, cfg(pending_address(p))), cfg, 0) == scan_step(
        st,
        cfg(pending_address(p)),
    ));
}

/// Popping a frame: `advance` looks at the frame on top of `rest`.
proof fn lemma_advance_push(rest: Seq<ScanFrame>, top: ScanFrame)
    ensures
        advance(rest.push(top)) == (match top {
            ScanFrame::Root { next_function: f } => if f < 8 {
                (rest.push(ScanFrame::Root { next_function: (f + 1) as u8 }), Some(PendingRead::RootVendor { function: f }))
            } else {
                advance(rest)
            },
            ScanFrame::Bus { bus, next_device: d } => if d < 32 {
                (rest.push(ScanFrame::Bus { bus, next_device: (d + 1) as u8 }), Some(PendingRead::BusVendor { bus, device: d }))
            } else {
                advance(rest)
            },
            ScanFrame::Device { bus, device, next_function: f } => if f < 8 {
                (rest.push(ScanFrame::Device { bus, device, next_function: (f + 1) as u8 }), Some(PendingRead::DeviceVendor { bus, device, function: f }))
            } else {
                advance(rest)
            },
            ScanFrame::DeviceHeader { bus, device } => (rest, Some(PendingRead::DeviceHeader { bus, device })),
        }),
{
    assert(rest.push(top).drop_last() =~= rest);
}


/// Driving the scan from a read of a function's header type does the work
/// of `spec_scan_function`.
proof fn lemma_function(
    cfg: spec_fn(u32) -> u32,
    devs: Seq<Device>,
    stack: Seq<ScanFrame>,
    b: u8,
    d: u8,
    f: u8,
    fuel: nat,
) -> (n: nat)
    requires
        devs.len() <= 32,
        devs.len() + fuel >= 32,
    ensures
        reached(
            scan_run(
                ScanView {
                    devices: devs,
                    stack,
                    phase: ScanPhase::Reading(PendingRead::FunctionHeader { bus: b, device: d, function: f }),
                },
                cfg,
                n,
            ),
            spec_scan_function(cfg, devs, b, d, f, fuel),
            stack,
        ),
        devs.len() <= spec_scan_function(cfg, devs, b, d, f, fuel).0.len() <= 32,
    decreases fuel, 0int, 0int,
{
    let out = spec_scan_function(cfg, devs, b, d, f, fuel);
    let st0 = ScanView {
        devices: devs,
        stack,
        phase: ScanPhase::Reading(PendingRead::FunctionHeader { bus: b, device: d, function: f }),
    };
    let header_type = spec_header_type(cfg_reg(cfg, b, d, f, REG_HEADER_TYPE));
    let class_code = spec_class_code(cfg_reg(cfg, b, d, f, REG_CLASS_CODE));
    let p1 = PendingRead::FunctionClass { bus: b, device: d, function: f, header_type };
    let st1 = ScanView { devices: devs, stack, phase: ScanPhase::Reading(p1) };
    lemma_run_one(st0, cfg, PendingRead::FunctionHeader { bus: b, device: d, function: f });
    assert(scan_run(st0, cfg, 1) == st1);
    let st2 = scan_step(st1, cfg_reg(cfg, b, d, f, REG_CLASS_CODE));
    lemma_run_one(st1, cfg, p1);
    lemma_run_add(st0, cfg, 1, 1);
    assert(scan_run(st0, cfg, 2) == st2);
    if devs.len() >= 32 {
        return 2;
    }
    let devs2 = devs.push(Device { bus: b, device: d, function: f, header_type, class_code });
    if class_code.base == 0x06 && class_code.sub == 0x04 {
        let p2 = PendingRead::BusNumbers { bus: b, device: d, function: f };
        assert(st2 == ScanView { devices: devs2, stack, phase: ScanPhase::Reading(p2) });
        let secondary = spec_secondary_bus(cfg_reg(cfg, b, d, f, REG_BUS_NUMBERS));
        let st3 = scan_step(st2, cfg_reg(cfg, b, d, f, REG_BUS_NUMBERS));
        assert(st3 == resume(devs2, stack.push(ScanFrame::Bus { bus: secondary, next_device: 0 })));
        lemma_run_one(st2, cfg, p2);
        lemma_run_add(st0, cfg, 2, 1);
        let n = lemma_bus(cfg, devs2, stack, secondary, 0, (fuel - 1) as nat);
        lemma_run_add(st0, cfg, 3, n);
        3 + n
    } else {
        2
    }
}

/// Driving the scan from a `Bus` frame on top of `rest` does the work of
/// `spec_scan_bus`.
proof fn lemma_bus(
    cfg: spec_fn(u32) -> u32,
    devs: Seq<Device>,
    rest: Seq<ScanFrame>,
    bus: u8,
    d: u8,
    fuel: nat,
) -> (n: nat)
    requires
        devs.len() <= 32,
        devs.len() + fuel >= 32,
        d <= 32,
    ensures
        reached(
            scan_run(resume(devs, rest.push(ScanFrame::Bus { bus, next_device: d })), cfg, n),
            spec_scan_bus(cfg, devs, bus, d as int, fuel),
            rest,
        ),
        devs.len() <= spec_scan_bus(cfg, devs, bus, d as int, fuel).0.len() <= 32,
    decreases fuel, 3int, 32 - d,
{
    lemma_advance_push(rest, ScanFrame::Bus { bus, next_device: d });
    if d >= 32 {
        return 0;
    }
    let st0 = resume(devs, rest.push(ScanFrame::Bus { bus, next_device: d }));
    let next = rest.push(ScanFrame::Bus { bus, next_device: (d + 1) as u8 });
    let p0 = PendingRead::BusVendor { bus, device: d };
    assert(st0 == ScanView { devices: devs, stack: next, phase: ScanPhase::Reading(p0) });
    lemma_run_one(st0, cfg, p0);
    let st1 = scan_step(st0, cfg_reg(cfg, bus, d, 0, REG_VENDOR_ID));
    if spec_vendor_id(cfg_reg(cfg, bus, d, 0, REG_VENDOR_ID)) == 0xffff {
        assert(st1 == resume(devs, next));
        let n = lemma_bus(cfg, devs, rest, bus, (d + 1) as u8, fuel);
        lemma_run_add(st0, cfg, 1, n);
        return 1 + n;
    }
    let s1 = next.push(ScanFrame::DeviceHeader { bus, device: d });
    assert(st1 == ScanView {
        devices: devs,
        stack: s1,
        phase: ScanPhase::Reading(PendingRead::FunctionHeader { bus, device: d, function: 0 }),
    });
    let n1 = lemma_function(cfg, devs, s1, bus, d, 0, fuel);
    lemma_run_add(st0, cfg, 1, n1);
    let (devs2, ok) = spec_scan_function(cfg, devs, bus, d, 0, fuel);
    if !ok {
        assert(spec_scan_device(cfg, devs, bus, d, fuel) == (devs2, false));
        return 1 + n1;
    }
    lemma_advance_push(next, ScanFrame::DeviceHeader { bus, device: d });
    let st2 = resume(devs2, s1);
    let p2 = PendingRead::DeviceHeader { bus, device: d };
    assert(st2 == ScanView { devices: devs2, stack: next, phase: ScanPhase::Reading(p2) });
    lemma_run_one(st2, cfg, p2);
    let st3 = scan_step(st2, cfg_reg(cfg, bus, d, 0, REG_HEADER_TYPE));
    lemma_run_add(st0, cfg, 1 + n1, 1);
    assert(scan_run(st0, cfg, 2 + n1) == st3);
    if spec_header_type(cfg_reg(cfg, bus, d, 0, REG_HEADER_TYPE)) & 0x80u8 == 0 {
        assert(st3 == resume(devs2, next));
        assert(spec_scan_device(cfg, devs, bus, d, fuel) == (devs2, true));
        assert(spec_scan_bus(cfg, devs, bus, d as int, fuel) == spec_scan_bus(
            cfg,
            devs2,
            bus,
            d + 1,
            fuel,
        ));
        let n2 = lemma_bus(cfg, devs2, rest, bus, (d + 1) as u8, fuel);
        lemma_run_add(st0, cfg, 2 + n1, n2);
        2 + n1 + n2
    } else {
        assert(st3 == resume(devs2, next.push(ScanFrame::Device { bus, device: d, next_function: 1 })));
        let n2 = lemma_functions(cfg, devs2, next, bus, d, 1, fuel);
        lemma_run_add(st0, cfg, 2 + n1, n2);
        let (devs3, ok3) = spec_scan_functions(cfg, devs2, bus, d, 1, fuel);
        assert(spec_scan_device(cfg, devs, bus, d, fuel) == (devs3, ok3));
        if !ok3 {
            return 2 + n1 + n2;
        }
        let n3 = lemma_bus(cfg, devs3, rest, bus, (d + 1) as u8, fuel);
        lemma_run_add(st0, cfg, 2 + n1 + n2, n3);
        2 + n1 + n2 + n3
    }
}

/// Driving the scan from a `Device` frame on top of `rest` does the work of
/// `spec_scan_functions`.
proof fn lemma_functions(
    cfg: spec_fn(u32) -> u32,
    devs: Seq<Device>,
    rest: Seq<ScanFrame>,
    bus: u8,
    d: u8,
    f: u8,
    fuel: nat,
) -> (n: nat)
    requires
        devs.len() <= 32,
        devs.len() + fuel >= 32,
        f <= 8,
    ensures
        reached(
            scan_run(
                resume(devs, rest.push(ScanFrame::Device { bus, device: d, next_function: f })),
                cfg,
                n,
            ),
            spec_scan_functions(cfg, devs, bus, d, f as int, fuel),
            rest,
        ),
        devs.len() <= spec_scan_functions(cfg, devs, bus, d, f as int, fuel).0.len() <= 32,
    decreases fuel, 1int, 8 - f,
{
    lemma_advance_push(rest, ScanFrame::Device { bus, device: d, next_function: f });
    if f >= 8 {
        return 0;
    }
    let st0 = resume(devs, rest.push(ScanFrame::Device { bus, device: d, next_function: f }));
    let next = rest.push(ScanFrame::Device { bus, device: d, next_function: (f + 1) as u8 });
    let p0 = PendingRead::DeviceVendor { bus, device: d, function: f };
    assert(st0 == ScanView { devices: devs, stack: next, phase: ScanPhase::Reading(p0) });
    lemma_run_one(st0, cfg, p0);
    let st1 = scan_step(st0, cfg_reg(cfg, bus, d, f, REG_VENDOR_ID));
    if spec_vendor_id(cfg_reg(cfg, bus, d, f, REG_VENDOR_ID)) == 0xffff {
        assert(st1 == resume(devs, next));
        let n = lemma_functions(cfg, devs, rest, bus, d, (f + 1) as u8, fuel);
        lemma_run_add(st0, cfg, 1, n);
        return 1 + n;
    }
    assert(st1 == ScanView {
        devices: devs,
        stack: next,
        phase: ScanPhase::Reading(PendingRead::FunctionHeader { bus, device: d, function: f }),
    });
    let n1 = lemma_function(cfg, devs, next, bus, d, f, fuel);
    lemma_run_add(st0, cfg, 1, n1);
    let (devs2, ok) = spec_scan_function(cfg, devs, bus, d, f, fuel);
    if !ok {
        return 1 + n1;
    }
    let n2 = lemma_functions(cfg, devs2, rest, bus, d, (f + 1) as u8, fuel);
    lemma_run_add(st0, cfg, 1 + n1, n2);
    1 + n1 + n2
}

/// Driving the scan from a `Root` frame on top of `rest` does the work of
/// `spec_scan_root`.
proof fn lemma_root(
    cfg: spec_fn(u32) -> u32,
    devs: Seq<Device>,
    rest: Seq<ScanFrame>,
    f: u8,
    fuel: nat,
) -> (n: nat)
    requires
        devs.len() <= 32,
        devs.len() + fuel >= 32,
        f <= 8,
    ensures
        reached(
            scan_run(resume(devs, rest.push(ScanFrame::Root { next_function: f })), cfg, n),
            spec_scan_root(cfg, devs, f as int, fuel),
            rest,
        ),
        devs.len() <= spec_scan_root(cfg, devs, f as int, fuel).0.len() <= 32,
    decreases fuel, 4int, 8 - f,
{
    lemma_advance_push(rest, ScanFrame::Root { next_function: f });
    if f >= 8 {
        return 0;
    }
    let st0 = resume(devs, rest.push(ScanFrame::Root { next_function: f }));
    let next = rest.push(ScanFrame::Root { next_function: (f + 1) as u8 });
    let p0 = PendingRead::RootVendor { function: f };
    assert(st0 == ScanView { devices: devs, stack: next, phase: ScanPhase::Reading(p0) });
    lemma_run_one(st0, cfg, p0);
    let st1 = scan_step(st0, cfg_reg(cfg, 0, 0, f, REG_VENDOR_ID));
    if spec_vendor_id(cfg_reg(cfg, 0, 0, f, REG_VENDOR_ID)) == 0xffff {
        assert(st1 == resume(devs, next));
        let n = lemma_root(cfg, devs, rest, (f + 1) as u8, fuel);
        lemma_run_add(st0, cfg, 1, n);
        return 1 + n;
    }
    assert(st1 == resume(devs, next.push(ScanFrame::Bus { bus: f, next_device: 0 })));
    let n1 = lemma_bus(cfg, devs, next, f, 0, fuel);
    lemma_run_add(st0, cfg, 1, n1);
    let (devs2, ok) = spec_scan_bus(cfg, devs, f, 0, fuel);
    if !ok {
        return 1 + n1;
    }
    let n2 = lemma_root(cfg, devs2, rest, (f + 1) as u8, fuel);
    lemma_run_add(st0, cfg, 1 + n1, n2);
    1 + n1 + n2
}


/// The scan of all buses does what the recursive scan `spec_scan_all` says:
/// driven with the values of any configuration space `cfg`, from any table
/// that is not over full, it finishes after finitely many reads, holding
/// the functions that the recursive scan finds, in the same order, and
/// ending with an error exactly when the recursive scan does (a full table).
pub proof fn lemma_scan_all_bus(cfg: spec_fn(u32) -> u32, devs: Seq<Device>) -> (n: nat)
    requires
        devs.len() <= 32,
    ensures
        ({
            let end = scan_run(
                ScanView {
                    devices: devs,
                    stack: Seq::empty(),
                    phase: ScanPhase::Reading(PendingRead::HostHeader),
                },
                cfg,
                n,
            );
            let out = spec_scan_all(cfg, devs);
            &&& end.devices == out.0
            &&& end.phase == ScanPhase::Finished(
                if out.1 {
                    Ok(())
                } else {
                    Err(PciError::DeviceIsFull)
                },
            )
        }),
{
    let empty = Seq::<ScanFrame>::empty();
    let st0 = ScanView {
        devices: devs,
        stack: empty,
        phase: ScanPhase::Reading(PendingRead::HostHeader),
    };
    lemma_run_one(st0, cfg, PendingRead::HostHeader);
    let st1 = scan_step(st0, cfg_reg(cfg, 0, 0, 0, REG_HEADER_TYPE));
    assert(advance(empty) == (empty, None::<PendingRead>));
    let n1 = if spec_header_type(cfg_reg(cfg, 0, 0, 0, REG_HEADER_TYPE)) & 0x80u8 == 0 {
        assert(st1 == resume(devs, empty.push(ScanFrame::Bus { bus: 0, next_device: 0 })));
        lemma_bus(cfg, devs, empty, 0, 0, 32)
    } else {
        assert(st1 == resume(devs, empty.push(ScanFrame::Root { next_function: 0 })));
        lemma_root(cfg, devs, empty, 0, 32)
    };
    lemma_run_add(st0, cfg, 1, n1);
    1 + n1
}


/// A function that is not a PCI-to-PCI bridge is scanned as `add_device`
/// adds it: after the reads of its header type and class code, the scan
/// has appended it to the table and goes on with the work below, or, with
/// the table full, has ended with `DeviceIsFull` and the table unchanged.
/// No bus is scanned for it.
pub proof fn lemma_scan_function_non_bridge(
    cfg: spec_fn(u32) -> u32,
    devs: Seq<Device>,
    stack: Seq<ScanFrame>,
    b: u8,
    d: u8,
    f: u8,
)
    requires
        !({
            let c = spec_class_code(cfg_reg(cfg, b, d, f, REG_CLASS_CODE));
            c.base == 0x06 && c.sub == 0x04
        }),
    ensures
        ({
            let end = scan_run(
                ScanView {
                    devices: devs,
                    stack,
                    phase: ScanPhase::Reading(PendingRead::FunctionHeader { bus: b, device: d, function: f }),
                },
                cfg,
                2,
            );
            let added = Device {
                bus: b,
                device: d,
                function: f,
                header_type: spec_header_type(cfg_reg(cfg, b, d, f, REG_HEADER_TYPE)),
                class_code: spec_class_code(cfg_reg(cfg, b, d, f, REG_CLASS_CODE)),
            };
            if devs.len() < 32 {
                end == resume(devs.push(added), stack)
            } else {
                end.devices == devs && end.phase == ScanPhase::Finished(
                    Err(PciError::DeviceIsFull),
                )
            }
        }),
        forall|fuel: nat|
            #[trigger] spec_scan_function(cfg, devs, b, d, f, fuel) == (if devs.len() < 32 {
                (
                    devs.push(
                        Device {
                            bus: b,
                            device: d,
                            function: f,
                            header_type: spec_header_type(cfg_reg(cfg, b, d, f, REG_HEADER_TYPE)),
                            class_code: spec_class_code(cfg_reg(cfg, b, d, f, REG_CLASS_CODE)),
                        },
                    ),
                    true,
                )
            } else {
                (devs, false)
            }),
{
    let p0 = PendingRead::FunctionHeader { bus: b, device: d, function: f };
    let st0 = ScanView { devices: devs, stack, phase: ScanPhase::Reading(p0) };
    let header_type = spec_header_type(cfg_reg(cfg, b, d, f, REG_HEADER_TYPE));
    let p1 = PendingRead::FunctionClass { bus: b, device: d, function: f, header_type };
    let st1 = ScanView { devices: devs, stack, phase: ScanPhase::Reading(p1) };
    lemma_run_one(st0, cfg, p0);
    lemma_run_one(st1, cfg, p1);
    lemma_run_add(st0, cfg, 1, 1);
}

/// A PCI-to-PCI bridge, whatever its interface byte, is added and then its
/// secondary bus (bits 8 to 15 of its register 0x18) is scanned from
/// device 0, with the bridge in the table.
pub proof fn lemma_scan_function_bridge(
    cfg: spec_fn(u32) -> u32,
    devs: Seq<Device>,
    b: u8,
    d: u8,
    f: u8,
    fuel: nat,
)
    requires
        devs.len() < 32,
        fuel > 0,
        (cfg(config_address(b, d, f, 0x08)) >> 24u32) as u8 == 0x06,
        (cfg(config_address(b, d, f, 0x08)) >> 16u32) as u8 == 0x04,
    ensures
        spec_scan_function(cfg, devs, b, d, f, fuel) == spec_scan_bus(
            cfg,
            devs.push(
                Device {
                    bus: b,
                    device: d,
                    function: f,
                    header_type: ((cfg(config_address(b, d, f, 0x0c)) >> 16u32) & 0xffu32) as u8,
                    class_code: ClassCode {
                        base: 0x06,
                        sub: 0x04,
                        interface: (cfg(config_address(b, d, f, 0x08)) >> 8u32) as u8,
                    },
                },
            ),
            (cfg(config_address(b, d, f, 0x18)) >> 8u32) as u8,
            0,
            (fuel - 1) as nat,
        ),
{
}

/// A single-function device (bit 7 of the header type of its function 0
/// clear) is scanned as its function 0 alone.
pub proof fn lemma_scan_device_single_function(
    cfg: spec_fn(u32) -> u32,
    devs: Seq<Device>,
    b: u8,
    d: u8,
    fuel: nat,
)
    requires
        spec_header_type(cfg_reg(cfg, b, d, 0, REG_HEADER_TYPE)) & 0x80u8 == 0,
    ensures
        spec_scan_device(cfg, devs, b, d, fuel) == spec_scan_function(cfg, devs, b, d, 0, fuel),
{
}

} // verus!
