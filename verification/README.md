# UPnP media server

A UPnP media server that shares folders of audio files. It announces itself by SSDP, answers searches,
lets clients browse the shared folders through the ContentDirectory service, and serves the files and
their album art over HTTP.

- `src/` is the library. It holds the decisions: which advertisements answer a search, what browsing an
  object shows, where a requested file lies, which bytes of it are sent, what is announced when. Every
  function states what it does in `requires` and `ensures`. Verus proves it of all but the few that
  wrap a call into another crate (`base64`, `uuid`, `mime_guess`, `headers`, `mime`) or into std
  (`String::from_utf8`, `String::push`): what is believed of those calls stands in `codec.rs`,
  `device_id.rs`, `mime_type.rs`, `media.rs`, `soap.rs` and `text.rs`, each with a comment that says what
  is claimed. The types of two outside errors are declared in `error.rs`. The modules
  `laws.rs` state what holds of several functions together.
- `app/` is the program around it: configuration, sockets, HTTP, templates and the file system.
- `tests/` runs the library on concrete values.

A configuration file names the device and the folders:

```toml
id = "550e8400-e29b-41d4-a716-446655440000"
hostname = "192.168.0.2"
port = 8080

[folders]
Music = "/srv/music"
```
