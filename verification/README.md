# marginfi (verified core)

The decision logic of the marginfi lending program and of its command-line client, written in
Verus and proved against its contracts.

- `src/` is the verified library. Each module states what its functions compute over
  mathematical models (`int`, `Seq`, spec functions) and proves the code meets it. Account
  loading, oracle reads, cross-program calls and transfers stay with the caller, which hands the
  library plain values and acts on the answer.
- `tests/` runs the library on concrete values.
- `app/` is the `mfi` command-line client's profile management: it reads and writes the profile
  files and lets the library decide.

Fixed-point multiplication, division, rounding and integer conversion are done by the `fixed`
crate; their behaviour is stated on the wrappers in `src/fixed_point.rs`.
