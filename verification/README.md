# netpix_client

The filtering and naming logic of a network-capture viewer's client,
verified with Verus.

- `src/filter_system/` — the filter language shared by every table: tokens,
  lexer, parser (`prefix:value` filters joined by `AND`, `OR`, `NOT` and
  parentheses, read left to right), numeric comparisons and errors.  The
  parser's laws (parentheses, `NOT`, `AND`, `OR`, left-to-right reading)
  are proof functions in `parser.rs`.
- `src/app/tables/` — one filter language per table, with what each filter
  keeps; which rows a table shows for the text in its filter box
  (`row_filter.rs`, `packets_table.rs`) and in which order (`row_order.rs`,
  a stable sort); the candidate pairs that STUN traffic reveals, the
  state each reaches and what the connectivity panel lists
  (`ice_candidates_table/`); the Info text of the MPEG-TS overview; the
  details column of RTCP packets.
- `src/streams/` — stream aliases (`A`, `B`, ..., `AA`, ...), substream
  aliases and the time span of a stream's packets.
- `src/packet.rs` — the plain values that the filters read of captured
  packets.
- `src/text.rs` — character-level helpers; trimming is verified and
  Unicode case mapping is reached through small trusted wrappers whose
  results are named (their ASCII behaviour is stated).
- `app/` — a command-line check of filter expressions, the comparisons of
  stream bitrates, durations and rates (made on `f64` values and handed to
  the library's stream filters as outcomes), and the colours.
- `tests/` — scenarios for every table and for the laws.
