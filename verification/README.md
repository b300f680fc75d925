# yubikey_notifier

A macOS scdaemon wrapper that plays a sound and shows a notification while a
YubiKey waits for a touch. gpg-agent starts it in place of the real scdaemon;
it forwards the Assuan protocol both ways and watches for the commands that
need a touch (`PKSIGN`, `PKDECRYPT`, `PKAUTH`).

Layout:

- `src/` is the library, verified with Verus:
  - `text.rs`: whitespace, lines and fields, stated over `Seq<char>`;
  - `config.rs`: the `key=value` configuration file, with the proof that a
    saved configuration loads back unchanged;
  - `setup.rs`: reading `gpgconf`'s raw output and planning the edits of
    `gpg-agent.conf`, with the proofs that uninstalling undoes a setup and
    that uninstalling twice writes the same file;
  - `proxy.rs`: touch and completion detection and the state machine that
    decides when the alert starts and stops, with the proof of the order of
    a whole session's reports;
  - `alert.rs`: the rhythm of the alert's bursts;
  - `sound.rs`, `event.rs`, `cli.rs`: sound names, reported events and the
    command line.
- `app/` is the program around it: threads, pipes, timers, files, processes.
- `tests/` runs the library on concrete inputs.
