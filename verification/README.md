# mm

A market maker for Binance Spot over FIX-SBE that can hedge its fills at a second
venue. The protocol and the trading rules are a library that Verus verifies; the
program around it holds the sockets, the sidecar process, the logs and the
floating-point estimators.

## Layout

* `src/sbe` - the wire codec: frames, encoders, decoders.
* `src/fix` - the session layer: timestamps, the signed Logon, sequence numbers,
  the wait for the answer to a Logon, the read loop.
* `src/maker` - the trading rules: client order ids, pausing, placing and
  replacing orders, reports and fills, netting of hedges, the tick.
* `src/sidecar.rs`, `src/perp.rs` - the lines of the hedging sidecar and the
  messages of the perpetual feed.
* `src/clock.rs`, `src/text.rs`, `src/search.rs` - the clock, numbers as text,
  searching in bytes.
* `app` - the program.
* `tests` - tests of the library.

## How it works

* **Quoting.** Prices are set around the fair value, which is the middle of the
  traded book without our own quotes. One side is quoted at a time. A full fill,
  or the limit of the position, turns to the other side. A side from which an
  order was cancelled cools down before it is quoted again.
* **Pausing.** A sharp move of the anchor market or of the perpetual, or a burst of
  one-sided trades, pauses quoting and cancels everything, once for each pause.
  Each signal has an upper threshold that starts a pause and a lower one that ends
  it.
* **Hedging.** Fills of the two sides cancel each other out; what is left is hedged
  once it reaches a minimum. Hedges are switched off (`HEDGING_ENABLED`).

## Environment

`BINANCE_API_KEY`, `BINANCE_ED25519_KEY_PATH`, `BINANCE_FIX_SENDER`; the sidecar
reads `LIGHTER_BASE_URL`, `LIGHTER_API_KEY_PRIVATE_KEY`, `LIGHTER_ACCOUNT_INDEX`
and `LIGHTER_API_KEY_INDEX`.
