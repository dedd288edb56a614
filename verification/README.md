# whisrs

The core of a voice dictation daemon, verified with Verus.

- `src/transcription` cuts a long recording into requests while it is being
  captured (`split`, `chunked_batch`), cleans up the replies (`reply`), and
  states what holds of every run (`laws`, `chunking`).
- `src/audio` holds the recording's format and loudness.
- `src/tray` decides what the system tray shows and does: icons, menu, tooltip,
  retries, the notification after copying, the edited configuration document,
  and the steps by which it is saved.
- `app` is the daemon's side: the asynchronous loop around a transcription
  backend, the StatusNotifierItem service, the clipboard and the files.
