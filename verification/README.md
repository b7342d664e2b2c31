# Stentor

Real-time voice transcription with Whisper: a daemon with a GTK dialog, voice
activity detection and output to the windows of a Kitty terminal.

The logic is a library written in Verus, under `src/`. Every function states in its
contract what it returns, and Verus proves it. The programs `stentord` and
`stentorctl` around it, under `app/`, do the input and output.

## The library

| Module | What it holds |
|--------|---------------|
| `recording` | A recording session: when audio is transcribed, confirmed and handed over |
| `spans` | Spans of chunks, and how they cover a recording |
| `transcript`, `transcription` | Text from the model, its file and its language |
| `audio`, `pulse`, `mic_mute` | Voice activity, samples, sources, and waiting for PulseAudio |
| `dialog` | What the dialog shows, and what keys and clicks do |
| `daemon`, `daemon_app` | Commands, answers, sessions, and what becomes of their messages |
| `kitty` | Kitty's protocol, its windows as slots, and the handler that colours them |
| `color`, `palette`, `slot_images` | Colours, tints and pictures for slots |
| `config`, `defaults` | Settings and patterns for windows |
| `text`, `json` | Characters, numbers and JSON values |

## What is proved

Contracts are stated over views: a string is the sequence of its characters, a
session is a value with its chunks and windows. Besides the contracts there are laws,
as public proof functions. Some of them:

- The windows that are confirmed and the rest at the end cover every chunk of a
  recording exactly once, each starting where the one before it ended, and only audio
  older than the lag is confirmed while recording (`recording`, `spans`).
- Confirmed text is only ever added to, and silence ends a recording at the first
  chunk that the settings allow (`recording`).
- Text reaches the output command once for every slot that waits for it, and windows
  that took a colour are changed back when the session ends (`daemon_app`).
- The shortcuts do the same wherever they are pressed (`dialog`).
- A frame around a command is found again, and a free slot is none that was found
  (`kitty`).
- The microphone is left as it was found (`mic_mute`).

## What is trusted

Calls into other crates stand behind small wrappers whose contracts are believed:
`serde_json` for JSON (`json`), `regex` for patterns (`config`), `image` for pictures
(`slot_images`), and a few functions of the standard library (`text`, `dialog`). The
doc comment of each wrapper says what it claims.
