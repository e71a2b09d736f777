# spark_regexp_extract

Spark's `regexp_extract(str, regexp[, idx])` over `arrow` columns: group `idx` of the first match of a
regular expression, row by row. The library is written in Rust and verified with Verus.

- `src/extract.rs`: whole columns, the reading of a row, and the mathematical outcome of a call
- `src/pattern.rs`: the `regex` crate, the text of a group, and the cache of the pattern compiled last
- `src/column.rs`, `src/builder.rs`: `arrow` columns of strings, read and written
- `src/function.rs`: name, signature and return field, as a query engine asks for them
- `src/invoke.rs`: the call on the values of a query engine, with scalars repeated to columns
- `src/error.rs`, `src/text.rs`: failures and their messages
- `src/laws.rs`: what holds of the function as a whole
- `app/`: the implementation of DataFusion's scalar function trait around the library

Functions marked `external_body` and `assume_specification` items say what is relied upon in `arrow`,
`regex` and DataFusion; everything else is proved.
