# ntucool

A client library for NTU COOL (the Canvas LMS of National Taiwan University),
written in Verus: its logic is executable Rust with `requires`/`ensures`
contracts that Verus proves.

## Layout

- `src/` — the verified library.
  - `client.rs`, `session.rs`, `saml.rs`, `credentials.rs`, `config.rs`:
    requests and pagination, the session and its expiry, the SAML/ADFS login
    as a state machine, stored credentials, the `write_level` policy.
  - `assignments.rs`, `submit_flow.rs`, `submissions.rs`: the submission
    preflight (every risk and its severity), the write-level check, and the write path as
    a state machine (checks, preflight, uploads, post).
  - `listings.rs`, `courses.rs`, `modules.rs`, `files.rs`, `paths.rs`,
    `attachments.rs`, `text.rs`: what the command line lists and exports.
  - `pdf.rs`, `search.rs`: page ranges, page selection, PDF text search
    within a file and across a course, fuzzy ranking.
  - `file_server.rs`: serving cached files to an MCP client, by copying them
    or under opaque expiring tokens.
  - `tui.rs`, `tui_app.rs`, `views.rs`, `screens.rs`, `dashboard.rs`,
    `fuzzy_select.rs`, `browser.rs`: the terminal UI as a state machine from
    key to next state and effect, and what each screen shows.
  - `strs.rs`, `num.rs`, `cache.rs`, `types.rs`, `error.rs`, `cli_args.rs`:
    shared string and number helpers, caches and plain data types.
- `tests/` — tests of the library on concrete values.
- `app/` — the program around it: argument parsing, HTTP, files, the
  terminal. It performs the requests and effects the library asks for and
  hands back the replies.

Calls into outside crates (chrono, scraper, regex, textwrap, html-escape,
urlencoding, fuzzy-matcher, rand) sit behind small trusted wrappers whose
contracts say what those crates document; everything above them is proved.

Laws the library promises are stated as public `law_*` proof functions next
to the functions they speak of.
