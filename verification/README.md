# order_book

A verified order book for an exchange's order feed.

- `src/text.rs`: characters of a string, string equality, reading unsigned
  integers in a radix.
- `src/pattern.rs`: regular-expression capture groups, computed by the `regex`
  crate behind one trusted function.
- `src/value.rs`: fixed-point values, order ids and sides, read from text.
- `src/op.rs`: feed packets and the book operations they stand for.
- `src/order.rs`: a single order, compared by id.
- `src/book.rs`: the book, its operations and price searches.
- `src/laws.rs`: properties that hold across the book's operations.
- `src/id_order.rs`: ids read from canonical UUID text rank as the text does.
- `app/lib.rs`: reading the feed, the book's thread, and floating-point views.
