# matrix-crypto-core

The decisions of a Matrix crypto bridge, written in Verus: executable Rust whose
behaviour is stated in contracts and proved.

An encryption machine (`matrix-sdk-crypto`) holds the keys; a product carries its
requests to the homeserver and hands the answers back. What stands between the
two is here:

- `registry`, `ledger`, `state`, `pump`: which request goes out when. A batch is
  handed out in the order it was produced in; what a batch supersedes is
  forgotten. `registry_laws` states what holds of the registry as a whole.
- `requests`, `responses`: what is sent for each kind of request, which answers
  are believed, and what an answer settles about this account.
- `session`: encrypting, decrypting, syncing and sharing keys.
- `recovery`: an identity's private keys in the account data, under a key that a
  passphrase opens. What was set up is recovered.
- `backup`, `vault`, `history`, `attachment`: backups, key files, history bundles
  and sealed attachments.
- `json`, `text`, `identifiers`, `machine`: what the others are written with.

The library touches no store and no network. Calls on the machine that need one
are made by `app/`, which hands the library plain values and acts on the plain
values it gets back. Calls that only compute (parsing, key derivation, sealing)
are made in `src/` through functions marked `external_body`; the comment above
each names the outside function and says what is taken on trust.
