# Noma

Local push-to-talk dictation: hold a key, speak, release, and the text lands
in the focused app. Nothing leaves the machine.

This crate is in two parts.

- `src/` is the library, written in Verus and proved against its contracts:
  the text stage (fillers, spoken commands, custom vocabulary,
  capitalization), the settings and the dictation history, the model
  catalog and download bookkeeping, the talk key, the dictation loop's
  decisions, and the overlay's and mascot's logic.
- `app/` is the program around it: the keyboard hook, the microphone, the
  speech engine, the clipboard, the files, the network, and the windows.
  It tells the library what happened and does what it is told.

| Module | What it decides |
|---|---|
| `text` | What a raw transcript becomes: `process`, `render`, the spoken commands |
| `config` | What the settings mean; which dictations the history keeps, and how its file is framed |
| `model` | The catalog, where an archive comes from, when a download reports, sizes for people |
| `asr` | Transcripts, the recognizer's configuration, and an engine that may not be loaded yet |
| `audio` | Which microphone a configured name picks |
| `hotkey` | Which key the `hotkey` setting names, and which keyboard messages are a press or a release |
| `inject` | Whether and how text is given to the focused window |
| `session` | The dictation loop, as a state machine from events to actions |
| `hud` | What the pill shows and for how long; the mascot's frames, pokes and drags |
| `chars` | Characters and strings, with their Unicode properties |

`tests/` runs the library on concrete inputs.
