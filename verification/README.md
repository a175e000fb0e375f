# biliticket

A verified core for a ticket-grabbing client.

- `src/model.rs` — the data the ticket service sends back (projects, screens,
  ticket kinds, buyers, order replies).
- `src/ticket_input.rs` — reading what the user types as a project (a bare id
  or a link with `id=`), with laws that the id and the referer read back.
- `src/sale_time.rs` — completing a missing sale start from the screens.
- `src/validation.rs` — checking that a project holds the required fields.
- `src/ticket.rs` — a grabbing task and its client's default headers.
- `src/decimal.rs` — writing integers in decimal.
- `src/home.rs` — the decisions of the home page (grab click, account
  selection, mode button colours).
- `app/` — the JSON shapes with serde derives, the HTTP client, and the egui
  widgets of the home page.
