# palsphere

Checks npm packages and Go modules against the OSV vulnerability database and
recommends whether to block, review or allow a version.

- `src/` is the verified library:
  - `types.rs`: ecosystems, severities, recommendations and the result records;
    reading an ecosystem name.
  - `text.rs`: decimal rendering, ASCII case folding, line splitting, blank lines.
  - `advisory.rs`: from OSV records to vulnerabilities (severity, fixed versions).
  - `version.rs`: release order of version strings.
  - `checker.rs`: highest severity, recommendation, risk score, check summaries,
    version comparison, the search for a safe version, and their laws.
  - `registry.rs`: registry addresses and package metadata.
  - `mcp.rs`: the decisions and answers of the JSON-RPC tool server.
  - `clock.rs`: writing the time of a check in RFC 3339 form (chrono).
- `app/` is the command-line program and the tool server: HTTP, JSON, stdio and the clock
  around the library.
- `tests/` exercises the library on concrete values.
