# spectra

Lookups of Brazilian public records (company registry, postal codes,
telephone area codes, banks, DNS, certificates, RDAP, IP metadata, exchange rates,
municipalities, holidays, books, customs codes) behind one command, every source answering
in the same envelope, and offline validation of CPF and CNPJ check digits.

The library under `src/` is verified with Verus:

- `util`, `order`: text helpers (digits, trimming, decimal and hexadecimal text) and a sort by key.
- `validate`: CPF and CNPJ check digits, and the offline document check.
- `ipaddr`: IPv4 and IPv6 addresses in text, parsed and written back.
- `engine`: telling a query's kind by its shape, picking sources by kind.
- `source`, `sources/`: what each source asks for a query and how it judges the answers.
- `model`, `verify`, `error`, `http`: outcomes, source health, errors, HTTP status and JSON body.
- `wasm`: the number-and-width check used by the browser page.

`app/main.rs` is the command-line program: arguments, HTTP over `ureq`, threads and output.
