# handy_enhance

The transcript-enhancement layer of a dictation app: a small local model
edits a finished transcript into what the speaker meant to write, and the
layer hands back either that rewrite or, whenever anything looks wrong, the
original text untouched.

`src/` is the library, verified with Verus:

- `text`, `words` — character-level string operations and the content-word
  model the guards and the meaning check compare.
- `prompt` — the system prompt for a set of options, and the mechanical
  guards (`sanity_check`) that refuse empty, truncated, padded, chatty or
  invented rewrites.
- `verify` — the optional second pass: its prompt, reading its one-word
  verdict, and deciding which edits are worth checking.
- `enhance` — the pass itself, generic over any `Backend`, with the fallback
  rules stated over what the backend replied.
- `engine`, `protocol` — the inference engine's choices (threads, context
  window, GPU fallback, token loop, reasoning-block removal) and the sidecar
  messages.
- `catalog`, `manager`, `commands` — the model catalog lookups, model
  resolution, the download registry and progress tally, and what each settings
  change does to the resident model.

`app/` is the host around it: llama.cpp inference, Hugging Face downloads, the
catalog and settings files, JSON on the sidecar wire, and the settings
commands. `tests/` runs the library on concrete cases.
