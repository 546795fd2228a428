# transport_aws_kinesis

Amazon Kinesis Data Streams as a transport: put a Stream as one record, read a
shard on from where it last stopped. A stream and its shard are a Location.

- `src/` is the library, verified with Verus. It decides: which call to make
  and what it carries, what a reply means, where a Location stands in its
  shard, and, for the far end of a loopback, what a request is answered.
  `src/laws.rs` states what holds between the two ends.
- `app/` carries the calls out over an HTTP technology that the host supplies.
- `tests/` runs both ends against each other.

Bytes go to base64 and back by the `base64` crate, and documents are
`serde_json` values; what is taken from either is stated in `src/encoding.rs`
and `src/document.rs`.
