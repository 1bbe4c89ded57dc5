# EtherCAT master protocol core

An allocation-bounded EtherCAT master core whose protocol logic is verified
with Verus: wire encoding and parsing, the RX index table and frame pool,
process-data layouts and Domains with their staging pages, frame plans and
multi-rate schedules, the cyclic receive engine, control requests, the
mailbox, CoE SDO transfers, AL state transitions, distributed clocks, PDO
and mapping configuration, DMA descriptor rings, the configuration arena,
the Domain registry with its transactional SII projection and segment
datagram registration, the bus scan, the scheduled Domain bank, and the
production scheduler's service selection.

Not here:

- The scheduled Domain bank's port-driven DC, control and mailbox cycles
  (`submit_dc_and_control`, `submit_dc_and_mailbox`,
  `run_dc_and_mailbox_cycle`, `submit_due_process_inputs` and the
  `receive_with_dc*` family) and the production scheduler's cycle
  (`run_cycle`, `enqueue_due`, `ensure_request_matches`). They are built
  on master, control-pool, startup and request-matching operations that
  this crate does not have; the bank holds its per-cycle receive steps
  (`begin_due`, `accept`, `finish_due`) and the scheduler its selection.
- SII parsing and projection: registration takes an already validated
  projection as plain values (`SiiProjection`).
- The SPSC ring's split producer and consumer halves; the ring is used
  through one exclusive owner.

Layout:

- `src/` — the verified library, one module per protocol concern. Each
  public function states its result in `ensures` over spec functions and
  views; properties that span several calls are public proof functions.
- `tests/` — executable tests of the library.
- `app/` — typed memory for arena spans (`TypedArena`), which needs raw
  pointers.
