# acheron_daemon

The verified core of a remapping daemon for the Razer Tartarus Pro keypad.

- `src/` — the library, verified with Verus:
  - `input`, `config`, `amap`, `sorted`, `ids`: the input model, the stored
    configuration (Profiles, Layers, Bindings, Chords, deep stages, Axis
    assignments, the Macro and Stepper libraries) and the collections it is
    kept in;
  - `rules`: the structural rules a configuration satisfies and `validate`;
  - `edit`: `plan`, the config transaction, and `reconcile_teardowns`;
  - `properties`: what holds of every committed edit;
  - `executor`: the Action compiler, the held-key classifier and the
    held-key bookkeeping of a firing;
  - `injector`: the raw output events and the injector task's decisions;
  - `dispatch`: the dispatch task's routing, Layer switching, teardown and
    command-answering decisions.
- `app/` — the async tasks around it: the injector task that owns the
  `uinput` devices, the firing and Toggle tasks, and the persisting wrapper
  around `plan`.
- `tests/` — the test suite.
