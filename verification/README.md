# eve_metrade

The trading logic of EVE Metrade, a desktop helper for hauling goods between
EVE Online market hubs, written in Verus and proved against its contracts.

- `src/` is the verified library: market tick prices (`ticks`), order-book
  depth and route analysis (`market`), checks of our own sell orders
  (`orders`), first-in-first-out cost basis (`fifo`), recent traded volume
  (`history`), the list filters (`filters`), the refresh job and batch
  (`jobs`, `refresh`), ESI reply handling (`esi`), EVE single sign-on and its
  local callback (`auth`, `callback`), the public data dumps (`imports`), and
  the text helpers they share (`text`).
- `tests/` exercises the library on concrete values.
- `app/` is the Tauri desktop backend around it: SQLite storage, HTTP calls,
  the login listener, and the few computations on floating-point numbers.

Prices inside the library are fixed-point integers in ten-thousandths of an
ISK; the app converts at its edges.
