# mailroom

The logic of a self-hosted mail server's tooling, verified with Verus:

- `config` — mailbox and domain model, Postfix vmailbox and Dovecot
  passwd entries, OpenDKIM tables, per-mailbox Sieve scripts, the Dovecot
  mailbox layout, and the typed category rules with their evaluator and
  Sieve emitter.
- `templates` — the branded email document model, HTML escaping, themes,
  the HTML and plain-text renderers and the prebuilt documents (alerts,
  bounces, notices).
- `calendar` — RFC 5545 parsing (unfolding, property lines, components,
  events, tasks, alarms), writing (escaping, folding) and the UID-keyed
  merge.
- `orchestrator` — the mail daemon's decisions: configuration, reading a
  delivered message, router commands, notifications, scheduled sends and
  the operator-edited Jinja templates.
- `bounce` — rewriting a Postfix delivery-status report into a branded
  one that keeps the machine-readable parts.
- `tools` — argument parsing and decisions of the command-line tools.

Each public function states its result in its `ensures`; the laws that
relate several functions are public proof functions named `law_*`.
Calls into chrono, mail-parser, cron, minijinja and a few std functions
stand behind `#[verifier::external_body]` wrappers whose doc comments say
what is taken on trust.

`app/` holds the programs around the library (daemon, admin tool, bounce
filter, alert and document renderers): I/O, SMTP, SQLite, file watching,
the system clock and command-line parsing. The library's calendar writer,
merge and cron functions take the current time as an argument (`_at`).
`tests/` runs the library on concrete values.
