# aliyun-sts-rust-sdk

A client for the Alibaba Cloud STS `AssumeRole` API, which hands out a
temporary access key pair (for example so that a browser can upload large
files to OSS with the `ali-oss` library).

The request logic is a Verus-verified library under `src/`:

- `policy` — access policies and their JSON form;
- `sts` — the `AssumeRole` request and answer, its form fields, and the
  put-object shortcut (a policy allowing `oss:*` on one object);
- `signing`, `client` — ACS3-HMAC-SHA256 signing: form strings, canonical
  query and headers, canonical request, string to sign, signature, and the
  headers and URL of the request that goes out;
- `headers`, `sort`, `text`, `encoding`, `crypto`, `clock` — the pieces
  these are built from (an ordered header map, a stable sort by key, string
  helpers, hex/percent/JSON encodings, SHA-256 and HMAC-SHA256, the request
  date and nonce);
- `laws` — properties proved over all inputs (canonical headers are exactly
  the signed ones in strictly increasing order, the canonical query is a
  sorted permutation of the query, what the signed request's headers hold,
  that the access key secret changes the signature and nothing else, how
  object keys are sanitised).

The request date and nonce are computed by verified functions from a clock
reading (`iso_8601_of_timestamp`, `signature_nonce_of`); only the reading
itself and chrono's rendering of a timestamp are outside calls. Reading the
clock cannot fail silently: where the system clock reads a time
before the Unix epoch, or one whose date cannot be written, the functions
that sign with the current time return `None`.

`app/` holds the HTTP side: serde-derived copies of the public types, and
an async `StsClient` with `do_request`, `assume_role` and
`sts_for_put_object` that sends what the library signs with `reqwest`.

```rust
let client = StsClient::new("sts.aliyuncs.com", &access_key_id, &access_key_secret);
let credentials = client
    .sts_for_put_object(&arn, "my-bucket", "path/to/file.zip", 3600)
    .await?;
```
