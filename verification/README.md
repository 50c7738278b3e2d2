# gotos

The logic of a small x86-64 hobby kernel, verified with Verus.

- `src/graphics.rs`: pixel colours, the `PixelWriter` trait (pixels, and the
  rest of a writer's state, which drawing keeps), the RGB and BGR frame-buffer
  writers (a frame buffer is modelled as its bytes), filled and outlined
  rectangles.
- `src/font.rs`: the bitmap font, glyph lookup, drawing characters and strings.
- `src/console.rs`: the 80 by 25 text console with scrolling; its meaning is
  the spec function `put_chars`.
- `src/mouse.rs`: the mouse cursor shape and moving the cursor.
- `src/desktop.rs`: the desktop drawn at boot.
- `src/pci.rs`: configuration addresses and registers, base address registers,
  the device table, and the bus scan as a machine that asks for one register
  read at a time.
- `src/pci_scan.rs`: the recursive scan the machine is proved to perform.
- `src/usb/xhci.rs`: switching USB ports from an Intel EHCI controller to the
  xHC, as a machine that asks for one register read or write at a time.

`app/` holds the kernel around it: the entry point, the heap, port I/O, the
hardware frame buffer, the C++ USB driver, and `printk!`.
