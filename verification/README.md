# spread_circuit

Spread arbitrage between the exchanges of HyperEVM (PRJX, HyperSwap, KittenSwap) and the order
book of HyperLiquid, for any number of token/USDC pairs. A trade swaps on chain first and hedges
on the order book second; whenever the outcome of a leg is in doubt, the pair stops and leaves a
record for people to act on.

## Layout

- `src/` is the library. It makes every decision and does no input or output, and Verus proves
  each function against its contract.
  - `double`, `bignum`, `decimal`, `text`: binary floating point by exact integer arithmetic,
    reading and printing decimal numerals, strings.
  - `config`: the settings, their validation, and the redaction of endpoint addresses.
  - `evm`, `liquid`: amounts, addresses and receipts on chain; markets, orders and replies of the
    exchange.
  - `actors`: pricing, the engine of a pair, the traders, the watchers, reconnecting, the price
    writer and the supervisor. Where a decision alternates with outside work, it is a state
    machine: it says what to do next and is told what came of it.
  - `metrics`, `db`, `types`: what is counted, what is recorded, and what is passed around.
- The `laws` modules hold what is true of the library as a whole, such as that a swap is sent only
  after its record was stored, or that a rejected order is tried again at most once.
- `app/` is the program around the library: the clock, the environment, sockets, the database, the
  chain and the exchange.
- `tests/` runs the library on concrete values.
