# cloudflare_auth

The logic of a small authentication service for Cloudflare Workers (email and
password accounts, HS256 session tokens, registered applications with
secrets, a redirect login with one-time codes, avatars and application icons),
written in Verus and proved against its contracts.

- `src/` is the verified library. Each module states what its functions
  return over mathematical models (`Seq`, `int`, spec functions) and proves it.
  Calls into outside crates (PBKDF2, HMAC, base64, JSON, URL parsing, image
  decoding, random bytes, the Worker clock) sit behind small trusted wrappers
  whose doc comments say what is claimed of them.
- `tests/` runs the library on concrete values.
- `app/` is the Worker itself: routing glue, D1 and R2 storage, request and
  response conversion, configuration and logs. It calls the library for every
  decision and checks each `requires` before the call.

Some laws the library proves:

- `time::lemma_parse_format_roundtrip`: parsing the text `format_unix_iso`
  writes gives back the time (from year 0 on).
- `password::hash_password`: a stored hash checks against its password.
- `password::verify_token_at`: a token that `sign_token_at` issued is accepted,
  with its session id, until it expires.
- `validate::serialize_redirect_uris`: reading the stored list back gives the
  cleaned list.
- `authorize::lemma_code_lifetime`, `session::lemma_session_lifetime`: a code
  or a session lives exactly as long as its stored expiry says.
