# robowar

The logic of a robot-battle game, verified with Verus: robots run small
assembly programs on a virtual machine.

- `src/` is the verified library:
  - `text`, `chars`, `strings`: source positions and the scanner's primitive
    parsers (literal strings, regular expressions, names, labels, integers);
  - `parser`: the assembly language (labels and instructions with
    comma-separated arguments), read into a program of machine instructions;
  - `assembler`, `compile_time_expression`: the assembler's instructions,
    whose operands may name labels and compile-time values, expressions
    with their grammar and evaluation, and the assembly of a program (labels
    get addresses, definitions are evaluated, names are replaced by values);
    floating-point arithmetic in expressions is done by a function that the
    caller supplies;
  - `conversion`: integers read as the nearest double, by its bits;
  - `language`, `vm`: the instruction set and the virtual machine; a step
    carries out integer instructions itself and hands floating-point work
    (values held by their bits) to its caller;
  - `emulator`: an earlier machine of which only `Nop` runs;
  - `ecs`, `component_system`, `user_data_map`: entity storage;
  - `math`, `geom`: vectors, rectangles, rays, circles, angles, colours;
  - `web`: the records that the game's web services exchange.
- `app/` is the command-line runner: it reads a program, steps the machine
  and does the floating-point arithmetic that the library leaves to it; it
  also holds the table of named colours (`colors.rs`), as `RGBAu8` values
  and as their floating-point forms.
- `tests/` exercise the library on concrete values.
