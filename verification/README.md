# chip8

A CHIP-8 virtual machine whose behaviour is proved with Verus.

- `src/opcode.rs`: the instruction set and the decoding of instruction words.
- `src/semantics.rs`: the mathematical model of the machine (`MachineState`)
  and the meaning of every instruction, of a cycle and of the screen's text.
- `src/machine.rs`: `Chip8Machine`, whose operations are proved against the model.
- `src/laws.rs`: properties that span instructions and cycles.
- `src/entropy.rs`: the random bytes of CXNN, drawn from the `rand` crate.
- `app/`: a terminal runner and the WebAssembly bindings.
