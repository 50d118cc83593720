# snaptext

The verified core of SnapText, a desktop OCR and translation workbench: capture or import
an image, recognize its text, translate it with a configured provider, and keep a history.

- `src/` is the library, written in Verus. Each public function carries a contract, and
  `src/laws.rs` states the properties that span several functions.
  - `config`, `hotkey`, `urls`: the configuration, its normalization and its checks.
  - `history`: the newest-first history with its retention limit, and restoring it.
  - `translate`, `providers`, `pipeline`: request limits, provider plans, request bodies,
    reply parsing, and the step from OCR lines to a history record.
  - `detection`, `recognition`, `ocr`: connected text regions of a detection mask, CTC
    decoding, box geometry, reading order and model files.
  - `payload`, `screenshot`: image payloads and data URLs, capture regions.
  - `cloud_auth`, `codec`: the cloud device identity and request signing.
  - `capabilities`, `commands`, `desktop`, `events`, `state`: the decisions of the desktop
    shell: capability reports, command guards, shortcut routing, window placement.
- `tests/` exercises the library.
- `app/` is the program around it: configuration and identity files, the SQLite history,
  HTTP calls to the providers, and the floating-point ends of the OCR pipeline.
