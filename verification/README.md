# remo_server

The decision core of an agent server, written in Verus: conversion of protocol
messages, and the mailbox that persists, claims, runs, retries and reconciles run
dispatches.

## How it is laid out

- `src/` is the library, proved by Verus.
  - `message`, `message_convert`: messages and their conversion.
  - `activation`, `run`, `dispatch`, `delivery`, `runtime`, `error`: the data that
    the mailbox works on.
  - `mailbox`: submission, preparation, execution, cancelling, decisions, live and
    pending delivery, signals, recovery, lifecycle, and the events it authors.
  - `text`, `lists`, `ids`, `json`: what the rest is built on.
- `app/` is ordinary Rust around it: the stores, the executor and the event
  publisher as async traits, the loops that drive the library, and `main`.
- `tests/` runs the library against stores in memory.

## How the mailbox is written

Nothing in `src/` waits or performs I/O. An operation of the mailbox is a value
with a step. The step names the one thing that is due; the driver performs it and
hands the reply to `advance`, and the contract of `advance` says which step comes
next. `expects` tells whether a reply fits the step, and is what a driver asks
before it calls `advance`.

Properties of whole operations are stated over the steps that were due and the
replies to them, as public proof functions beside the operation: for instance that
a run is durably queued before it starts, that a barrier blocks a submit before
anything is interrupted, that no submission is lost where many run on one thread at
the same time, or that an execution ends with the release of its worker.

## What is taken on trust

Two outside crates are called from `src/`. `ids` takes fresh ids from `uuid`, and
states only their form, not that they are unique. `json` reads flags from and
copies values of `serde_json`.
