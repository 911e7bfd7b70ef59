# TinyVox core

TinyVox is a Windows dictation assistant: hold F9 to dictate, and the
transcript is corrected with a personal dictionary, cleaned by a language
model and typed into the focused window; F10 starts a voice-command agent
that can read the last dictation and add dictionary entries.

- `src/` is the verified library: the dictation and voice state machines,
  the correction dictionary and its whole-word replacement, dictation
  statistics and streaks over the Gregorian calendar, cleanup validation and
  the cleanup pipeline's choice, tool requests, the Gemini Live message
  reading, microphone activity tracking, PCM and WAV encoding, the retry
  schedule of transcription requests, and the hotkey and overlay logic.
- `app/` is the program around it: audio devices, HTTP and WebSocket
  clients, the Windows hotkey, overlay, clipboard injection and credential
  store, the JSON files, and the main loop.
- `tests/` runs the library on concrete cases.
