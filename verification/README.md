# meow_core

Verified cores of a proxy, written in Verus:

- `simple_obfs`: the server side of the simple-obfs stream codecs, which dress
  a byte stream up as HTTP/1.1 or as TLS. `http` and `tls` hold the codecs,
  `http_laws` and `tls_laws` what they do to whole streams.
- `dialer`: the dialers that reach a proxy server, directly or through another
  proxy.
- `vmess`: the decisions of the VMess outbound adapter.
- `text`, `smol`: the text that the dialers put together, and the string type
  that holds it.

The library performs no I/O. Each core is told what happened and answers with
what to do next; `app/` carries the answers out over async streams.
