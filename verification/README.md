# oci-sniper-rs

An Oracle Cloud instance launcher with a Telegram bot, whose decision logic
is written in Verus and proved against its contracts.

- `src/` is the verified library:
  - `config` — the configuration sections, their defaults, per-chat language
    preferences, the launch-mode choice and webhook changes;
  - `ini` — the OCI credentials file parser and profile selection;
  - `oci` — the launch payload, the free-tier launch planner, GET request
    targets and OCI answers;
  - `signing` — OCI HTTP request signing (RSA-SHA256) through `rsa`, `sha2`
    and `base64`;
  - `i18n` — message catalogs with locale fallback and `{name}` placeholders;
  - `bot` — bot command parsing, replies, HTML escaping, webhook token, URL
    and listen address;
  - `logging` — choosing log files by age and cutting the newest one's tail;
  - `app` — API test error classification and reports, diagnostics, bot start;
  - `cli`, `keyed`, `text` — command-line values, a small ordered map and
    string helpers with their specifications.
- `app/` is the `oci-sniper` program around it: argument parsing, TOML and
  JSON files, HTTP calls, the Telegram client, the log directory and the
  runtime lock.
- `tests/` runs the library on concrete values.
