# Tenkai

The rules of a delivery control plane, written in Verus and proved.

- `src/` is the library. Each module holds the types of one concern, the spec
  functions that say what its rules are, the executable functions that are
  proved against them, and the laws that relate them as public proof functions.
- `tests/` runs the library on concrete values.
- `app/` is the host side: files, processes, clocks, encodings, and the flows
  over a store that the host supplies.

## Contracts

A function that can refuse returns `Result<_, Error>`, and its contract is an
equation: `refusal(result) == reason`, where `reason` is a spec function that
gives `None` exactly where the function succeeds and the text of the refusal
otherwise. What a success returns stands beside it.

Documents are parsed and written by the host. Where an encoding is hashed, signed
or compared, the function takes the encoded bytes.

## What is trusted

The digests, signatures and encodings of `crypto`, the version rules of
`version`, the time zones of `maintenance/calendar` and a few functions of the
standard library on text are called through items whose contracts are not
proved here. Each of them says above its declaration what it claims.
