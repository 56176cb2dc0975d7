# dlpq

Downloads a SQL Server query result to a Parquet file.

- `src/` is the library: what a download collects and what table it makes of it,
  with contracts that Verus proves.
  - `connection` says how to reach the server and what to ask it.
  - `metadata` maps the wire types of columns to data types.
  - `column` holds cells and columns, and the text of a cell.
  - `calendar` and `text` say what dates and numbers look like.
  - `series` turns a column into a polars `Series`.
  - `download` turns the items of a query stream into a polars `DataFrame`.
  - `laws` states what holds of whole downloads.
- `app/` connects, awaits the stream and writes the file.

## `map2string`

- `true`: every value becomes a text, `NULL` the empty one.
- `false`: numbers, truth values and texts keep their types, `NULL` becomes null. A
  column has the type that its values have, which is the one that the column metadata
  names; where no value tells, it is that of the metadata. `tinyint`, which has no sign,
  becomes an integer of 8 bits where all values of the column fit, else of 16.

Values of types that have no counterpart yet become the empty text, or null. Dates and
GUIDs have a text but no typed counterpart.
