# exchange-connection-hub

Connections from a trading system to market-data venues: a NinjaTrader binary
feed (length-prefixed frames over TCP) and generic WebSocket feeds of JSON
messages, a registry of connection factories, a connection manager with health
tracking, and a reconnection policy with exponential backoff.

`src/` is the library, verified with Verus:

- `types` — identifiers, configurations, market data values, statuses;
- `json` — JSON documents as plain values (parsed by `serde_json`);
- `protocols` — the NinjaTrader and WebSocket message formats, connection state,
  factories, statistics and the reconnection policy;
- `registry` — one factory per exchange; a WebSocket exchange without a factory
  of its own is served by the generic WebSocket factory;
- `manager` — one connection per exchange, with its health;
- `adapters` — what the market-data bridge publishes and reports;
- `assoc` — sequences of keys and values read as maps.

`app/` holds the sockets, streams, channels, async interface and the example
binary; `tests/` runs the library on concrete inputs.
