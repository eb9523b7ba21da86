# trade_pass_nft

A registry of soulbound trading passes for Soroban (Stellar), verified with
Verus. An administrator sets the registry up, issues at most one
non-transferable pass per wallet, and may revoke passes (records are kept for
audit). Anyone may check whether a wallet holds an active pass.

Layout:

- `src/address.rs`: wallets and contracts, identified by their strkey bytes.
- `src/pass.rs`: passes, their status, and the error codes of refused requests.
- `src/ledger.rs`: the mathematical model: the registry's state and what each
  request does to it.
- `src/contract.rs`: the registry; every request is verified to behave as the
  model says, and a refused request changes nothing.
- `src/laws.rs`: properties across requests (reachable states stay
  consistent, passes are soulbound and kept, only the administrator may
  issue, revoke or hand over the role, a registry is set up once, ...).
- `app/lib.rs`: the Soroban contract: ledger storage, authorization, the
  ledger clock, events and logs, around the verified registry.
