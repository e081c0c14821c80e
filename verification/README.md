# ytdlp_core

The core of a desktop front end for yt-dlp and ffmpeg: the task model and its
status machine, configuration and per-site proxies, the argument lists handed
to yt-dlp and ffmpeg, the reading of what those tools print (progress and error lines,
volumedetect lines, and the yt-dlp and ffprobe JSON documents), output naming,
merge planning, tool downloads with digest checks, and login cookie handling.

- `src/` is the library, written in Verus. Each public function carries a
  contract, and the properties that span several functions are stated as
  public proof functions (`law_*`) next to the code they speak of. Calls into
  outside crates (sha2, zip, url, uuid) and a few std functions (path
  joining and extensions among them) stand behind
  small trusted wrappers whose doc comments say what is assumed of them.
- `app/` is ordinary Rust around the library: process spawning, file and
  network I/O, turning JSON text into the library's document values with
  serde, floating point measurements, and the command layer that drives
  tasks.
- `tests/` runs the library on concrete values.
