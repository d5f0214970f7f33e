# sigverify

Signature verification of shreds and of consensus certificates, as a validator does it between
receiving them and passing them on. The library under `src/` is verified with Verus; `app/` runs it
with threads, channels, the ledger and the banks.

## Shreds

A round takes packet batches and decides which of their shreds are passed on.

- `packets`: packet batches, and which of their packets are marked for discard.
- `deduper`: drops shreds that were received before.
- `leaders`: finds the leaders whose signatures the shreds have to carry.
- `retransmitter`: checks the signature of the node that retransmitted a shred.
- `workers`: what a worker does with a batch, and how the results are put together.
- `shreds`: passes verified shreds on, to be retransmitted and to be stored.
- `pipeline`: the rounds.
- `stats`: the counters.

What only the ledger, the banks or the cluster can tell of a packet comes in as plain facts.

## Certificates

- `certificate`: what certificates certify, and how much stake they need.
- `seen_certs`: a set of certificate types.
- `bls_cert_sigverify`: verifies one certificate of each type that was not seen before.
- `stateless_cert_sigverify`: verifies every certificate, and checks the stake behind it.
- `receiver`: reads a consensus message.

## What is trusted

Functions marked `external_body` and `assume_specification` items state what outside functions do.
Each says in its doc comment which function that is and what is claimed of it. Everything else is
proved.
