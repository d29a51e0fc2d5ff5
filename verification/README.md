# cairo_vm_core

The core of a virtual machine for Cairo programs, verified with Verus: registers, memory, operands
and their deduction, builtins, hints and steps.

- `bigint`: integers of any size. `num_bigint` does the arithmetic.
- `modular`: division modulo a number.
- `relocatable`: addresses, and the values that cells and registers hold.
- `memory`: segments of cells, each of which is written at most once.
- `instruction`, `decoder`: instructions, and the words that encode them.
- `run_context`: the registers and the addresses that they give operands.
- `builtin_runner`: builtins, which deduce the values of cells.
- `hint_processor`: hints, which run before instructions.
- `vm_core`: the machine.
- `errors`, `messages`: what can go wrong, and what is said of it.
- `model`, `auto_deduction`: the machine mathematically; the contracts speak of these.
- `laws`: what holds of the machine as a whole.

Builtins and hints are given by whoever uses the machine. An implementation of `BuiltinRunner` or
`HintProcessor` says with the trait's `spec` functions what it does; what is proved of the machine
rests on that being so.
