# sia32

Verified code-generation facilities for the SIA32 16-bit-instruction, 32-bit
integer architecture, written in Verus.

`src/` is the verified library:

- `regs` — the sixteen architectural registers, their ABI roles, and the
  register-allocation environment (regalloc2 register sets).
- `encode`, `m7` — exact instruction encodings; the M7 multiply/divide/bit
  group with its decoder, disassembler and arithmetic reference model.
- `abi_contract`, `abi` — the compiler ABI: argument and return placement,
  frame layout, prologue/epilogue and callee-save sequences, call clobbers.
- `i64_prep` — the two-word representation of 64-bit values and pair arithmetic.
- `consts` — balanced base-128 digits for building 32-bit constants.
- `label`, `buffer`, `reloc` — label fixups, the code buffer, and the absolute
  32-bit relocation.
- `inst`, `emit`, `operands` — machine instructions, their emission into a
  code buffer, and the register operands each one reports.
- `effect` — what the emitted register-to-register words do to the sixteen
  registers: the two-address, comparison and immediate-add expansions
  compute on their operands' values and change no register but the
  destination and the scratch register r12.
- `lower`, `backend` — the instructions produced by the lowering rules and the
  target's properties.
- `isle` — the table of ISLE compilation units of the build.

Laws proved about the library are public proof functions named `lemma_*`.

`tests/` exercises the library on concrete values; `app/` holds the
file-system expansion of ISLE inputs and user-facing messages.
