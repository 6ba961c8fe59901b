# scx_control

Verified logic for running `sched_ext` schedulers: the loader daemon that starts
and switches them, the command-line client that talks to it, and the terminal
interface that shows and drives them.

## Layout

- `src/` is the library, verified by Verus but for the few items that stand for
  calls into `std` and other crates (see below).
  - `sched`, `power_profiles`: schedulers, modes, names.
  - `loader`, `runner`, `monitor`: the daemon's requests and holds, the worker and
    the process runner, scheduling by load.
  - `args`, `cli`, `report`, `ctl`: arguments, and the commands as conversations
    with the loader.
  - `backend`, `connect`, `driver`: what a scheduler-management backend is, how the
    loader's is connected to, and access to one with a ghost record of requests and
    answers.
  - `input`, `notices`, `screen`, `app`, `refresh`, `actions`, `keys`, `event_loop`:
    the state of the terminal interface and everything that changes it.
  - `history`, `conduct`: what holds of the interface as a whole.
  - `kernel`, `logs`: the kernel's view, and journal output.
  - `text`: text functions with exact contracts.
- `tests/` runs the library.
- `app/` is the programs around it: bus, processes, terminal and clock.

## How to read the contracts

A function that needs the backend takes it through `driver::Driver`, whose record
says what was asked and what came back. Its contract relates the state before, the
state after and the requests that were recorded in between. Functions named
`take_…` are given an answer and say what each answer leads to.

Two things about the record are not in a contract. `peek_label` and
`peek_capabilities` ask for display only and are not recorded. And that each other
method of `Driver` makes the one call that it records, and no more, is seen by
reading its body: the contracts say that the recorded answer is one that the
backend may give to that request, not how often it was called.

Calls into `std` and other crates that have no contract of their own stand behind
items marked `external_body` or behind `assume_specification`; the comment above
each says what is taken on trust.
