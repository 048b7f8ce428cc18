# gelder

Invoicing for freelancers: invoices and estimates, their lifecycle (paid,
waived, canceled, reopened, converted), publication as signed links, the SVG
picture of an invoice, and the canonical profile shared with sibling apps.

The library under `src/` is verified with Verus; every public function states
what it returns in its `ensures`, and the properties that span functions are
proved as `lemma_*` proof functions.

- `model` — the records (invoice, statuses, payout identity, profile).
- `lifecycle` — creation, publication links, status changes, estimate
  conversion, payment polling decisions.
- `svg`, `money`, `calendar`, `numbers`, `text` — the invoice picture, amounts,
  dates from epoch milliseconds (proved against the Gregorian calendar), decimal
  notation, XML escaping.
- `slug`, `profile` — canonical-profile field slugs and the save rules.
- `keys`, `payout` — signing keys held as plain bytes (hex, secp256k1 validity)
  and the payout identity steps.
- `clock`, `string_map` — record ids and timestamps; a text-keyed map.

`app/` is the Tauri shell: file storage, gateway calls, and the commands the
front end invokes. `tests/` runs the library on concrete values.
