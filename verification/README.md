# software_should_work

The verified core of a small ticket-selling site: Stripe checkout sessions and
webhooks, LinkedIn conversion events, and the site's sale-window and error rules.

- `src/` is the library, verified with Verus.
  - `stripe.rs`: the checkout-session form, the `Stripe-Signature` header grammar,
    webhook signature checking (HMAC-SHA256 with a five-minute tolerance) and the
    decoding of webhook events into what the site records.
  - `linkedin.rs`: the conversion event for a completed checkout: hashed, normalized
    e-mail address, first and last name, and the amount as a decimal string.
  - `site.rs`: the site's error type, the status and message each error is answered
    with, the early-bird and last-sale-day rules, and the steps of a checkout
    (reserve, open a Stripe session, then record it or release the ticket).
  - `text.rs`, `crypto.rs`, `clock.rs`: decimal text, hashing and hex coding, and
    clock readings, with the trusted wrappers around `std`, `sha2`, `hmac`, `hex`,
    `chrono` and `chrono-tz`.
- `tests/` exercises the library.
- `app/` is the web server around it (axum, sqlx, askama, reqwest, serde): routes,
  database queries, templates and JSON (de)serialization.
