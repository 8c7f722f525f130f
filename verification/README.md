# timr

A command-line time tracker: tasks have a name and a colour, stretches of
work on them are started and stopped, listed per day, drawn as a pie chart,
and shown live in a small web view.

* `src/` is the verified library:
  * `text` — character-level string work (trimming, unsigned number parsing,
    decimal rendering, substring replacement), each against a `Seq<char>` spec;
  * `task`, `task_instance` — tasks, colours (`rrggbb`), stretches of work and
    their chart slices;
  * `controller` — the rules deciding whether a task may be created, started
    or stopped, and the reading of database rows into tasks;
  * `cli` — the command line: program directory, command table and the
    decision of which command the arguments ask for;
  * `config` — the settings and the web server's addresses;
  * `web` — what the web endpoints take and answer;
  * `laws` — properties proved across calls.
* `app/` is the program around it: the terminal, the SQLite database, the
  environment, the web server and the chart drawing.
* `tests/` runs the library on concrete values.
