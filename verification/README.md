# mvre

Move files using regexes. The library under `src/` takes every decision and
is verified with Verus: which paths are searched (`walk`), which move and to
where (`pattern`, `paths`, `plan`), what happens on a collision or in
interactive mode (`rename`, `answer`), hidden files (`walk`, `windows`) and the log level (`options`). Compiled regular expressions carry what they were compiled from (`compiled`).
The program under `app/` parses the command line, lists directories, asks
the user and moves the files as the library directs.
