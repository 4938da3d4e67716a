# Secure Database

A focused persistence boundary for PostgreSQL: broker-mediated access, protected
fields that are encrypted before they are stored, and peers that are attested
before they are trusted. The logic is written in Verus and proved; the program
around it does the input and output.

## Layout

- `src/` — the verified library. Each function states what it returns in its
  contract, and the public proof functions state what holds of the library as a
  whole.
- `app/` — the program: environment, files, PostgreSQL, TLS, gRPC, Halo2 circuits
  and the command line. It hands the library plain values and carries out what
  the library decides.
- `tests/` — tests of the library on concrete values.

| Modules | Subject |
| --- | --- |
| `config`, `pool` | connection settings, pools, lease rotation, extensions |
| `secret_broker_client`, `broker_config`, `channel`, `endpoint`, `pem` | set-up of the broker client and its channel |
| `certificate`, `ra_tls`, `peer` | attestation and identity of peers |
| `crypto`, `encoding`, `envelope`, `protection`, `tor_auth` | protected fields, sessions and access tickets |
| `field`, `zk` | commitments, proof tasks and the checks on stored proofs |
| `tee`, `attestation`, `admin` | report data, attestation records, administration |
| `error`, `json`, `string_set`, `text`, `time` | shared vocabulary |

## What is proved

- Protected fields hold canonical payloads only: plaintext is sealed, retired
  formats are refused, and what is read back is what was stored.
- A sealed value is bound to its schema version, table, field, record and
  purpose. No two protected fields of any records share a context.
- Static credentials, plain connections and relaxed attestation are explicit
  choices; none is selected silently.
- Accepted peers are attested, and meet the measurement policy and the list of
  subjects. A policy file is taken as it is written or refused.
- Proof tasks carry witnesses that satisfy their statements (of digests, where the
  two are equal), and bundles are held to the context that they are verified in.

Cryptography, parsers of outside formats and the operating system's random
numbers are trusted: the library calls them through small functions whose doc
comments say what is taken on trust.
