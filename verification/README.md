# snarkvm_lite

A Verus library, with its proofs, for:

- `modulus`, `field_element`: environments, each fixing a prime field with a
  modulus below 2^32 (the environment `Mersenne31`, of modulus 2^31 - 1, comes
  with a proof that it is prime), and exact field arithmetic over any of them:
  addition, subtraction, negation, multiplication, and inversion by the
  extended Euclidean algorithm.
- `circuit`: circuit field and boolean variables with their modes, circuit
  types, constraint counts and evaluated rank-1 constraints.
- `div_flagged`: flagged division, which yields `(a / b, false)` for a nonzero
  divisor and `(0, true)` for a zero one, as a circuit gadget: its outputs, the
  constraints it enforces (proved satisfied by its assignment, and proved to
  determine the outputs), what it adds to a circuit, the cost table of the
  operation (proved never to match what it adds), and its output mode.
- `identifier`: the syntax of function identifiers.
- `authorize`: authorization of a call to a program function, and of public
  `credits.aleo` calls; signing and evaluation are supplied by the caller.
- `verify_deployment`: the edition check of a deployment against the programs
  that a process holds, ahead of the deployment's own verification, which the
  caller supplies.

The tests under `tests/` exercise every public function on concrete values.
