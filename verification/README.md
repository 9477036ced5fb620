# arc

`arc` sets up NVIDIA GPU environments on Linux: it inspects the machine,
decides which driver and CUDA Toolkit packages fit, shows the plan, and runs it
after confirmation. `arc status` and `arc doctor` report readiness and
diagnose failures.

The decisions are made by a library verified with Verus; the executable around
it reads the machine and runs commands.

## Layout

- `src/` — the verified library.
  - `model/` — devices, operating systems, commands, operation plans, profiles
    and the diagnostic model.
  - `platform/` — package-manager commands, OS identification, and the
    execution of a plan as a state machine (which command to run next, and what
    a failure reports).
  - `providers/nvidia/` — GPU generations, driver classification, repository
    targets, driver policy, installation recipes and planning, upgrades,
    uninstallation, runtime state and `arc doctor`'s checks and fixes.
  - `ui/` — the text of `arc status`, `arc doctor` and operation plans.
  - `commands/`, `cli.rs` — command outcomes and argument resolution.
- `app/` — the executable: argument parsing, probing the machine, prompts,
  styled output and running commands.
- `tests/` — tests of the library.

Laws of the library are stated as public proof functions whose names begin
with `law_`.
