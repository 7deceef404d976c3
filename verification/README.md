# dipsniper

A token sniping bot for EVM chains: a chat bot where users manage wallets and
trade settings, and a trading server that takes buy requests on a Unix socket,
sends the buy from each of the user's wallets and watches the open trades.

## Layout

- `src/` is the verified library (Verus). Its public functions carry
  contracts that Verus proves, and its small private helpers are verified
  too. The calls into outside crates (key handling, hex, checksummed
  addresses, random bytes, the regex and uuid crates, `String::push`) go
  through a few wrappers whose contracts are assumed, not proved; each says
  in its doc comment what it claims of the call. The modules:
  - `config`: the configuration and its network lookups;
  - `wallet`: private keys, checksummed addresses, a key's address;
  - `text`, `strmap`: string helpers and an insertion-ordered string map;
  - `document`, `models`, `queries`: stored records, their document form and
    the filters and updates that the store's queries send;
  - `monitor`, `trading`, `events`: the open-trade index, the decisions of a
    buy and the answers of the event socket;
  - `menu`, `helper`: what the bot shows and decides, pair listings,
    signature lookups.
- `app/` is the program around it: configuration file, database, chain
  providers, the socket server and the chat bot. Values that are floats are
  handled there; the library holds them by their bit patterns.
- `tests/` exercises the library on concrete values.
