# CSSwitch

CSSwitch runs a local translation proxy and a sandboxed program behind it, on this
machine or on a Linux server that it reaches over `ssh` or WSL.

- `src/` is the library: what the desktop service, the helper on a server and the login
  prompt decide and compute. Every public function carries a contract that Verus proves. The
  few functions of other crates that it calls stand behind wrappers whose contracts are
  believed; each says so above it.
- `tests/` runs the library on concrete values.
- `app/` is the program: files, processes, sockets, and the shapes in which values are
  stored and sent. Loops that alternate with the outside world ask the library for the
  next step.

The names of the program that runs in the sandbox are read from `product.json`, and the
sources of models from `templates.json`. Both belong to an installation and lie beside
`proxy/` and `scripts/`; `CSSWITCH_PRODUCT` can name another place for the first.

- `product.json` is an object with `program` (the command), `title` (what it is called),
  `families` (what the names of its main models begin with) and `model` (the model with
  which a key is tried). Without it the desktop service does not start, and the helper
  refuses the commands that concern the sandbox.
- `templates.json` is a list of objects with `id`, `name`, `category`, `api_format`, `adapter`
  and `base_url`, and, where they differ from an empty default, `base_url_editable`,
  `requires_model_override`, `builtin_models`, `website_url`, `icon`, `icon_color` and
  `thinking_policy`. Without it there are no templates.
