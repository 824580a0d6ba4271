# grpc_ebcdic

A collector for EBCDIC extracts. It decodes fixed-width records with the layout
that describes them, a COBOL copybook, a layout message or a JSON layout, and
hands out one typed row per record the moment the record's last byte arrives.

- `src/` is the library, written in Verus. Every function carries a contract
  over plain models (sequences of characters, mathematical integers), and the
  `laws`, `runs` and `cards` modules prove what holds of several functions
  together, and over any run of calls: that the rows do not depend on how the
  input is cut into chunks, that the trailer counts what happened, that fields
  never overlap, that every record is folded into the document or counted as
  dropped, that every document is linked in both directions.
- `tests/` runs the library on concrete values.
- `app/` is the gRPC server around it: wire messages, JSON, sockets, signals.

## Modules

| Module | What it holds |
|---|---|
| `text` | characters and strings, and the numbers written in them |
| `codepages`, `codec` | the EBCDIC tables, decoding and encoding |
| `decode` | text, packed, zoned and binary fields |
| `copybook` | the compiler for the flat subset of COBOL data descriptions |
| `layout` | the three layout forms and their validation |
| `stream` | the incremental walk over the bytes |
| `document_fold` | the projection of a parse into one document |
| `service`, `metrics` | who is let in, how a stream opens and ends, the counters |
| `proto` | the values the service speaks in |
| `error` | the one failure type and its status codes |

## A parse

A stream opens with its options. `EbcdicGrpc::open` settles the code page and
the layout and gives a `ParseSession` with the first event, the layout;
`EbcdicGrpc::try_open` takes any first message. Each
message goes to `accept`; `next_event` gives the rows it completed. At the end
of the input `finish` gives the trailer, preceded by the document when the
options ask for one.

What the library takes on trust is small: the `Debug` rendering of text, the
case mapping of characters, `char::from_u32` and `String::push`.
