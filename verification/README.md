# health-dsl

Declarative service health checks, verified with Verus.

- `src/` is the verified library: statuses and their aggregation, check
  declarations and their validation, the outcome each check records for how
  its body ended (result, timeout or panic), the report, and its JSON text.
  The library is generic over what a check body is; it only carries bodies.
- `app/` runs check bodies as async closures under `tokio` timeouts, all
  checks concurrently, and hands the library one event per check. It also
  holds the serde forms of the report and the error type with `Display`.
- `tests/` exercises the library on concrete values.

Check details are a `StringMap`: a map from strings to strings kept as a
vector of pairs in ascending key order, each key once, with a later value for
a key replacing the earlier one. It stands where a `BTreeMap<String, String>`
would, because its contents can be stated and proved over plain sequences of
texts.

The report's JSON text is framed in `src/`: objects, key order (ascending, as
in `serde_json`'s default map), numbers and booleans. String literals, keys
included, are escaped by `serde_json` itself. A `serde_json::Map` cannot stand
in `src/` with a stated content, because its values are `serde_json::Value`s,
which no contract can look into.

`HealthRegistry::debug_text` and `StringMap::debug_text` give the names-only
and map-shaped debug texts; the `Debug` impls themselves are derived.
