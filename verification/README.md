# voicebot

A Discord bot that reads chat messages aloud with the VOICEVOX speech
engine and plays a music queue. The library under `src/` is verified with
Verus; `app/` wires it to Discord (poise, serenity), the voice driver
(songbird) and the engine's C API.

- `src/text.rs`: decimal rendering of numbers and joining of lines.
- `src/music.rs`: track data, the queue listing, shuffling behind the
  playing track (rand), the delete command's decision, the play command's
  yt-dlp arguments and confirmation embed.
- `src/voice.rs`: per-guild voice styles (dashmap), which messages are
  spoken, when the bot leaves its channel, the voice commands' texts.
- `src/voicevox.rs`: engine errors, the loaded model files, and which model
  file speaks each style, read from the models' `metas.json`.
