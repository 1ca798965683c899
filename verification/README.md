# home_stock

Stock keeping for a household storeroom: items with categories, places,
units, minimum quantities, barcodes and expiry dates; check-in and
check-out with a history of who moved what and when; alerts for items low
on stock or near expiry; a summary report and CSV export.

## Layout

- `src/` — the verified library. `store` holds the stock book as plain rows
  with its consistency invariant; `queries` and `history` are the requests on
  it (settings, people, categories, places, items, movements, listings,
  barcode allocation); `views` computes what the screens show; `state` and
  `actions` are the forms and what their buttons do; `export` builds the CSV
  files; `clock` and `text` hold dates and text helpers; `laws` states the
  properties that span several requests.
- `tests/` — tests of the library.
- `app/` — the desktop program: the SQLite file, the egui window, its
  wording and colours, and the file dialogs. What a request does to the
  stock book, and which rows the screens list in which order, comes from
  the library.
