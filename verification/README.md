# Edge TTS Studio

A desktop studio that turns text and subtitle tracks into MP3 speech, and recordings into
subtitles. It speaks with the online Edge voices, with a local Qwen3 model or with the voice of a
recording, and recognises speech with a local Whisper model.

The studio is split in two.

- `src/` is the library: everything that the studio decides and computes. Every function has a
  contract, and Verus proves that its body keeps it. What it takes from outside crates and from the
  standard library without proof is marked as such and described where it stands.
- `app/` is the program around it: the window, the worker thread, files, the network, processes and
  the arithmetic on floating-point samples. It expects three files in a folder `assets` beside the
  program: `indextts_prepare.py`, `indextts_bridge.py` and `whisper-large-v3-turbo-config.json`.

## Modules of the library

| Module | What it holds |
| --- | --- |
| `text`, `file_names` | searching, splitting and building texts; names and extensions |
| `subtitles` | SRT, WebVTT, ASS and LRC files; text encodings |
| `asr`, `asr_laws`, `round_trip` | from recognised speech to cues; subtitle export and reading it back |
| `timeline_audio`, `subtitle_pipeline` | laying clips onto a timeline |
| `media_decoding`, `audio_player` | which track of a file is read; playing audio |
| `qwen_local`, `model_files`, `indextts` | the local engines, their files and their settings |
| `download_control`, `system_proxy` | pausing and cancelling downloads; the proxy of the system |
| `voices`, `voice_order`, `ui_text` | the voices of the service; texts of the window |
| `studio`, `worker_events`, `requests`, `window`, `labels`, `studio_laws` | the state of the studio, what changes it and what is shown of it |
| `worker`, `worker_reports` | what the worker decides and what it reports |

Texts are modelled as sequences of characters and times as numbers of milliseconds. The bits of
floating-point numbers are carried as integers where a decision depends on their order.
