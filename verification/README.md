# folio_metadata

The metadata side of a comic library server, as a verified library: how
provider records (ComicVine, Metron) become one generic shape, how a
candidate is matched and ranked, what an apply would change and what it
writes, how several providers' values are merged into one composite, and
how a sidecar (ComicInfo / MetronInfo) is composed from the stored values.
Every public function states its result in its contract, over spec
functions, and the verifier proves the bodies against them.

## Layout

- `src/` — the library, all of it verified:
  - `text`, `unicode`: characters, trimming, words, integer text; the
    Unicode calls (`nfkd`, lowercase, alphanumeric) behind trusted wrappers.
  - `identifier`, `field`, `cache`, `refresh`, `match_outcome`: the stable
    keys stored in the database, with round-trip laws.
  - `title_norm`, `matcher`, `ratcliff`, `phash`: title keys, edit
    distance, matching-block counts, cover hashes and the Hamming ladder.
  - `provider`, `comicvine`, `metron`: provider responses mapped to
    candidates and generic metadata; HTTP status and envelope errors.
  - `apply`, `diff`, `writers`: the apply decision matrix, its preview,
    the write plans and the precedence rules of stored values.
  - `merge`, `composite`: per-field choice among providers and the merged
    detail of a composite apply.
  - `orchestrator`, `auto_split`, `range_map`, `drift`, `completeness`,
    `sidecar_compose`, `rate_limit`, `middleware`: search pre-filters and
    the gap guard, alternate-series detection, range targets, drift
    summaries, completeness tiers, sidecar fields, token buckets, CSP and
    nonces.
- `tests/` — tests that run the compiled library with the real outside
  crates linked.
- `app/` — what the verifier does not take: floating-point scoring and
  ratios, the perceptual (DCT) cover hash, decimal issue ranges, and the
  serde forms of stored values.
