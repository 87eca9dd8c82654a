# droid_chatter

Droid sounds (BD-1, D-O, astromech, BB-8, Chopper, mouse droid, probe droid,
R2) built from a directory of WAV files laid out as
`sounds/<droid>[/<mood>]/<file>.wav`.

- `src/` is the verified library. It states which paths a request looks at
  (`resolve`, `letter_candidates`), selects the files by the file system's
  answers (`select_existing`, `file_plan`, `is_installed`), turns the result
  into a `Playback` plan (`bd1`, `astro`, `do_`, `bb8`, ...), decodes WAV bytes
  with hound and joins the clips of the found files from what a caller-supplied
  loader returned for each (`audio_of_found`, `get_audio_data`), and reads the sound
  package's archive with flate2 and tar into the files to extract
  (`sound_package_files`), and names the phrases of a directory's files
  (`phrase_names`). The file system's answers themselves depend on the
  disk and are taken as they come.
- `app/` carries the decisions out: it reads files, plays plans with rodio,
  writes WAV files with hound, lists directories with walkdir, downloads the
  sound package with reqwest and writes its files.
- `tests/` runs the library against a sounds directory built in a temporary
  directory.
