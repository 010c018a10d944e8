# bilibili_transcript

A tool that downloads Bilibili videos and audio, turns them into text (the
video's own subtitles when they fit, else a Whisper service), and asks an
OpenAI-compatible service for a summary.

- `src/` is the library, verified with Verus: link and cookie parsing, the
  requests sent to Bilibili, Whisper and the summary service and the reading
  of their replies, the yt-dlp and ffmpeg command lines and the reading of
  their output, the choice of download formats and subtitle tracks, the
  transcript document, configuration defaults and migration, the run log and
  the registry of running tasks and the step functions that decide each
  background task. Calls into `regex`, `chrono`, `base64` and
  `std::path` sit in `src/outside.rs` behind small trusted functions.
- `app/` is the command-line program around it: HTTP, processes, files,
  SQLite, the configuration file, logging and the task runner.
- `tests/` runs the library on concrete values.
