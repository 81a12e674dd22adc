# elevenlabs_cli

A command-line client for the ElevenLabs API whose decision-making core is
verified with Verus.

- `src/` is the verified library. Every function states its behaviour in
  `requires` / `ensures` over mathematical models (`Seq<char>` for text, a
  `Json` model for JSON values) and Verus proves the bodies against them:
  API-key precedence and masking, dialogue input parsing and limits, request
  bodies and queries, NDJSON splitting and base64 audio reassembly,
  pronunciation-dictionary rules, knowledge-base attachment, phone and
  WhatsApp validation, voice-name resolution, and music form fields.
  Public `proof fn lemma_*` items state the library-wide laws (the saved key
  wins over the environment, only the first `:` splits a rule, a chosen voice
  always matches the wanted name, stripping keeps everything but the audio).
- Calls into outside crates (`base64`, `toml`, `std` path and string
  routines) go through small trusted wrappers whose contracts are documented
  next to them.
- `app/` is the unverified shell: argument parsing (clap), configuration
  files (figment, toml, directories), HTTP (reqwest), terminal output, and
  conversions between `serde_json` values and the library's `JsonValue`.
- `tests/` runs the library on concrete values.
