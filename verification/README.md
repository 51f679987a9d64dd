# houseflow

The server configuration of a smart-home hub, verified with Verus.

- `src/types.rs` — structures, rooms, devices, users, permissions; identifiers
  are UUIDs held as `u128`.
- `src/config.rs` — the configuration, its lookups (`get_user`,
  `get_user_by_email`, `get_device`, `get_room`, `get_permission`,
  `get_user_devices`), `validate`, and the proved laws that tie
  `validate` to the references of the configuration and `get_permission` to
  `get_user_devices`.
- `src/secrets.rs` — signing keys: the hexadecimal form of 32 random bytes.
- `src/token.rs` — the token refresh request, answer and error, with the
  HTTP status of each error.
- `src/search.rs` — first-match search (`find`) and its lemmas.
- `src/text.rs` — the hyphenated form of a UUID and hexadecimal text.
- `app/` — reading `server.toml`, the serde and thiserror forms of the types,
  and sampling secrets from a caller's random generator.
