# goose-ffi2

A C interface for LLM completions, for use from Kotlin, Java, C++ and other
languages through FFI, with its logic verified by Verus.

- `src/` is the verified library: decoding C strings (`text`), JSON values as
  plain data (`json`), building tools and their JSON input schemas from C
  definitions (`tool`), extensions and
  their prefixed tool names (`extension`), messages and roles (`message`,
  `role`), choosing how a provider is made (`provider`), and checking a
  completion request and the result handed back (`ffi`). `batch` holds the
  reading of lists where the first failure stops.
- `app/` holds the C functions themselves (raw pointers, the shared Tokio
  runtime), the completion call to the provider, the system prompt, and the
  conversion of the library's JSON values to and from serde_json.
- `tests/` exercises the library.
