# nixpkgs PR build bot

A Telegram bot that builds the packages touched by a nixpkgs pull request: send it
`/pr <number> <packages> -<excluded packages>` or a link to the pull request, and it
cherry-picks the pull request's commits onto a local checkout, builds the packages named
in the commit subjects plus the ones you listed, and answers with the result (long logs
go to a paste service). `/full <number>` builds every package whose output paths the pull
request changes, as nixpkgs-review does.

## Layout

- `src/` is the library, verified with Verus. It holds the bot's decisions on what it reads
  and the order of the steps of a build:
  - `command.rs`: reading chat messages as commands, line by line (links to pull requests
    mean `/pr`).
  - `state.rs`: bookkeeping of running builds (a bounded number of slots, one build per
    pull request, one build at a time on the nixpkgs checkout, the status message).
  - `pr_flow.rs`: the steps of one build as a state machine (base check, admission,
    cherry-picks that stop at the first conflict, package list, build, cleanup).
  - `replies.rs`: the introduction and the notices about a build.
  - `full_build.rs`: the packages of a full build, from package listings taken before and
    after the pull request is applied.
  - `packages.rs`: the packages to build (brace expansion of requested names, names from
    commit subjects, the final sorted list with exclusions).
  - `pr_build.rs`: the supported base branches, cherry-pick outcomes, the `nix-shell`
    arguments, and the replies to successful and failed builds.
  - `paste_log.rs`: picking failures out of build logs, titles, annotations, truncation,
    and the link returned by the paste service.
  - `text.rs`: the character-sequence operations the above are stated in.
  - `trusted.rs`: the calls into `brace-expand`, `strip-ansi-escapes`, `serde_json` and
    `String::from_utf8_lossy`, each with the contract it is believed to meet.
- `app/` is the program: Telegram polling, git, jj and Nix processes, HTTP requests, and
  the waiting for a turn on the nixpkgs checkout (which `state.rs` grants to one build at a
  time).
- `tests/` exercises the library on concrete values.

## Configuration

The program reads `TELEGRAM_BOT_TOKEN` and the `NIXPKGS_PR_BUILD_BOT_*` variables
(`NIXPKGS_DIRECTORY`, `SUDO_PASSWORD`, `NIX_USER`, `CORES`, `JOBS`, `TASKS`, `WASTEBIN`,
`CONTACT`, `DESCRIPTION`).
