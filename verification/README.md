# beam

The logic of Beam, a desktop HTTP client, as a library whose behaviour is
stated in contracts and proved with Verus.

- `src/` is the verified library. Each public function states what it
  returns or changes; the laws that span several calls (undo then redo,
  a stale request completion changing nothing, a save waiting for edits to
  stop, a cache staying within its cap, ...) are public proof functions
  beside the code they speak of.
- The calls into `serde_json` (parsing and pretty-printing JSON) and
  `regex` (the variable pattern of text fields) stand behind small trusted
  wrappers in `src/json.rs` and `src/pattern.rs`; the clock is read behind
  wrappers in `src/clock.rs`. A few std functions that vstd does not
  specify stand behind wrappers too: `String::push` and the case mappings
  `str::to_lowercase`/`to_uppercase` in `src/text.rs`,
  `char::is_alphanumeric` in `src/completion.rs`, and `Path::join` in
  `src/environment.rs`. Their doc comments say what is believed of each.
- `tests/` runs the library on concrete values.
- `app/` is the thin program around it: the timer loop that drives the
  debounced request save, the hand-over of an outgoing request (decided
  by `outgoing_request` in `src/outgoing.rs`) to `reqwest`, and what
  needs floating point or the build environment.

Modules, roughly from the bottom up: `text` (character sequences, trimming,
searching), `json`, `xml`, `pattern`, `clock`, `models` and `types` (the
request and collection data), `body` (body kinds and formatting), `curl`,
`template` and `completion` (template variables), `auth` (the
authentication editor), `outgoing` (what is sent for a request), `execution` and
`response` (request runs and the response pane), `environment`,
`request_save`, `editor_cache`, `import`, `workspace_dialog`,
`command_palette`, `key_bindings`, `icon`, `floating_element`, and the
editing widgets `managed_text_input`, `custom_text_input`,
`request_panel` and `collections`.
