# bootloader

The logic of a small x86 BIOS bootloader and its test kernel, verified with Verus.

- `src/` is the verified library: disk address packets and their memory image, the plan that
  reads the kernel in packets of at most 0x7F blocks, the memory routines (`memcpy`,
  `memmove`, `memset`, `memcmp`, `bcmp`, `strlen`) over a flat byte array, the control register
  values and register operations of mode switches (protected, unreal and long mode), the mode
  tokens, and the bytes sent to the BIOS teletype and the VGA text buffer.
- `app/` is the bare-metal side: the BIOS interrupts, control register accesses, raw memory
  copies and the jump to the kernel, each fed by the library.
- `tests/` runs the library on concrete inputs.
