# patch_hub

The logic of a terminal client for reviewing Linux kernel patches that are
sent to the mailing lists archived on lore.kernel.org, and for running kw
(kworkflow) builds and deploys, written in Verus with its behaviour stated
as contracts and proved.

## Layout

- `src/` — the verified library.
  - `lore/` — feed pages and their index of representative patches, patch
    metadata, mbox splitting, reply templates, the lore service and its
    caches, the HTTP URL scheme.
  - `lore_session.rs`, `lore_api_client.rs`, `lore_response.rs`,
    `mailing_list.rs`, `patch.rs` — the session that pages through a
    list's feed, the lore client and the data it hands out.
  - `kw/` — kw's argument vectors and reserved options, remote
    configuration, job lifecycle, readiness checks before a build or a
    deploy, and the history of applied patchsets.
  - `render/`, `render_prefs.rs` — patch and cover previews through
    external renderers.
  - `logger.rs` — the in-memory log buffer and its garbage collection.
  - `model/` — bookmarked patchsets.
  - `pattern.rs`, `text.rs`, `infra.rs` — regular expressions, string
    helpers, and the traits through which the library reaches the file
    system, the shell and the network.
- `tests/` — tests of the library on concrete values, with fakes for the
  file system, the shell and the network.
- `app/` — the program around the library: command-line handling, the
  real file system, shell and HTTP client, JSON and XML codecs, and the
  actors that run jobs and requests.

Public proof functions (`lemma_*`) state the laws the library keeps across
calls, such as what reading the apply history back gives after a record
was recorded into it (`lemma_record_then_read`, over the history that
`FileKwHistoryStore::updated` produces), or that bookmarking twice is
bookmarking once.
