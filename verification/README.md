# mimium_plugin_core

The decisions of the mimium CLAP plugin, verified with Verus: the knob bank, the `Control!`
slot table (plugin and compiler worker), the editor session and its messages, the stored
state, the compiler worker's request and reply, the editor's navigation policy, and the
packaging task's arguments, plans and command lines.

- `src/`: the verified library. `text` holds the string model and its lemmas; `params`,
  `control`, `worker`, `program`, `state`, `settings`, `ui`, `navigation`, `examples` and
  `packaging` hold the logic, each with its contracts and laws.
- `tests/`: tests on concrete values.
- `app/`: the plugin around the library (clack host callbacks, the wry web view, the worker
  process, files and environment, floating-point knob values, audio), the compiler worker
  program and the packaging program. Verus does not see it.
