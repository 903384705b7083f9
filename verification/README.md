# acdp

The client and publishing rules of a protocol for sharing signed, immutable
contexts between agents through registries, as a library whose behaviour is
stated in contracts and proved with Verus.

What it decides:

- how a key revocation is read, which boundary a set of revocations gives, and
  what a revoked key can still vouch for (`key_revocation`, `revocation`);
- whether a registry takes a publication in, and under which identifiers
  (`validator`);
- whether a retrieved context is verified, and how far (`verified`, `report`,
  `policy`);
- how revocations are searched for, within which limits, and what is remembered
  of a search (`discovery`, `lineage_walk`, `budget`, `revocation_cache`);
- how requests to a registry are addressed, limited and repeated (`registry`,
  `search`);
- which contexts of other registries are resolved and how far their ancestors
  are followed (`cross_registry`, `derived_walk`).

Work that takes the network, a clock or cryptography is done outside. A
verification, a search, a walk or a resolution is a value that says what it
needs next (`action`) and takes what came of it (`advance`); its contract says
what it will come to, whatever the answers are. Facts that hold over several
calls are public proof functions whose names begin with `law_`.

`text`, `time`, `json`, `types`, `error` and `assoc` hold what these modules
share. Calls into `chrono`, `serde_json`, `url`, `urlencoding` and `uuid` stand
in `time`, `json`, `registry` and `validator`, each behind one small function
whose contract is believed and not proved.

`tests/` runs the library on values. `app/` drives it over HTTP.
