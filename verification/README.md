# skerry

Error enums per function, checked at compile time. A function lists the
errors it can return (`e![ErrA, *OtherFnError]`, where `*` pulls in every
error of another function's enum); the macros or the build-time generator
turn each list into an enum named after the function, without repeated
variants, with conversions into and out of the global error enum.

This crate is the verified core:

- `naming`, `text`, `order`, `lists`: names in CamelCase and snake_case,
  strings, the order of generated variants, removing repeats.
- `tokens`, `paths`, `signature`, `items`: the plain models of tokens,
  paths, signatures and module items, and the grammars the macros read.
- `macros`, `fn_attrs`, `marking`, `berrors`: what each macro decides from
  its input.
- `definitions`, `tables`, `resolve`, `writer`, `generate`, `scanner`,
  `hashing`: the generator, from the marked signatures it reads to the file
  it writes.
- `runtime`: what generated code uses at compile time.
- `laws`: facts about the whole, proved.

`app/` holds what stands around it: conversions from `syn` values, the
token output of the macros, and the generator's file handling.
