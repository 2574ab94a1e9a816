# giribeat

A terminal music composer: a prompt goes to a language model (Cerebras or
Cohere), which answers with a JSON pattern of notes and drum hits; the
pattern is synthesized, written as a WAV file and played through an external
audio player. With a target duration, a whole song is composed section by
section.

The crate is written in Verus. `src/` is the verified library:

- `cli` – the options of a run, the provider's defaults, which API key is used
  (`--api-key`, the provider's variable, then `GIRIBEAT_API_KEY`), and the
  target length (`--duration`, else a duration written in the prompt).
- `llm` – the prompts, the messages sent, the text taken from a reply, the
  error messages, and the reduction of a reply to its JSON object (with
  laws: an object framed by brace-free prose is recovered exactly, whatever
  white space or code fence surrounds it; reduction is idempotent).
- `plan` – how many sections a song gets, how long each is, which, and the
  arrangement that fills the target length by repeating the verse–chorus
  pair and closes a full plan with bridge → chorus → outro (laws: 5 to 12
  unique sections, equal 4-bar phrases, the arrangement reaches the target,
  each section counted by its own length, and overshoots by less than one
  pair).
- `song` – section prompts, the next prompt of song mode (one call per
  section, in plan order), the tempo carried over from the first section,
  and the saved song: a WAV file of the arranged song for a `.wav` path,
  one JSON document of all sections otherwise.
- `duration` – target durations ("5m", "3min", "2:30", "300") and the
  duration written in a prompt ("3 minutes of dark ambient drone").
- `notes` – drum names, pitch names with octaves (MIDI numbers), waveforms.
- `numerals` – decimal numerals read as `str::parse` and written as `Display`.
- `synth` – the envelope's shape and the noise generator.
- `wav` – the WAV container (laws: length, header fields, samples read back).
- `player` – which audio players are tried, in what order, which one is
  used, and with what arguments.
- `text` – Unicode white space, trimming, searching over character ranges.

`app/` is the program around it: argument parsing, HTTP calls, the
floating-point synthesizer, files and audio playback.
