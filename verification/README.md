# gambit

Mutant generation for Solidity, with its logic verified by Verus.

`src/` is the verified library:

- `text`, `paths`, `util`, `literal`: characters and lines, path arithmetic,
  operator names and remappings, decimal literals.
- `mutation`, `solidity`, `operators`, `mutator`: the model of a resolved
  program, the mutation operators, and how the mutator walks the model's
  functions and statements, applies the operators to each node and falls
  back to the fallback operators.
- `cli`, `config`, `params`, `pipeline`: run parameters and how they are
  resolved, grouped by output directory, sampled and validated.
- `filter`: random down-sampling.
- `compile`, `source`, `mutant_writer`, `summary`, `test_util`: the solc
  command line, line and column lookup, what is written for a run, and the
  summary of a finished run.

`app/` is the command line tool around it: argument and configuration
parsing, parsing Solidity with solang into the library's model (which lists
statements and expression nodes in the order solang visits them), running
solc, and all file input and output.
