# Orders and Settlements

Orders with line items, full or partial payments recorded against them, and a
dashboard of derived statuses and amounts due.

The decisions of the application are a library that [Verus](https://github.com/verus-lang/verus)
proves against its contracts. The program around it runs statements, sends
requests and renders markup, and decides nothing itself.

## Layout

| Path | What is in it |
| --- | --- |
| `src/text.rs`, `src/cents.rs`, `src/date.rs`, `src/ids.rs` | Text, amounts, calendar dates, identifiers |
| `src/http.rs` | Header values, and the parts of a request that decisions are taken from |
| `src/error.rs` | Every error a client can see: its code, status and sentence |
| `src/config.rs` | Settings checked at startup, and the readiness probe |
| `src/auth.rs` | Origins, requests to the authentication service, and what its replies mean |
| `src/app.rs` | How amounts and statuses are shown |
| `src/payments.rs` | What can be paid, and the payment form |
| `src/orders/parse.rs`, `src/orders/validate.rs` | Reading and checking a submitted order |
| `src/orders/laws.rs` | What holds of validation as a whole |
| `src/orders/status.rs` | The derived status, the totals, and the filter |
| `src/orders/store.rs` | The write transactions, statement by statement |
| `src/orders/ledger.rs` | What concurrent transactions amount to together |
| `src/orders/read.rs` | Orders as they are read |
| `src/orders/service.rs`, `src/orders/api.rs` | The operations, and the interface over HTTP |
| `src/orders/editor.rs`, `src/orders/views.rs` | The order form, and what the pages show |
| `tests/` | Tests on concrete values |
| `app/` | The server: Axum, Leptos, SQLx, and the client of the authentication service |

## What is proved

- Payments against an order never exceed its total, however many transactions run
  at the same time and wherever they fail. The total is always the sum of the
  lines.
- Transactions that run at the same time are answered as if they had been done one
  after the other. Of two payments of the whole balance exactly one succeeds, and
  of many equal payments as many succeed as fit.
- A transaction makes its whole change or none of it, only its owner can change an
  order, and an order with a payment is neither edited nor deleted.
- Whoever wrote an order reads it back as it was written, in its page with the
  payments newest first and in the list exactly once, and nobody else learns that
  it exists.
- Every problem of a submission is reported at once, an order that is opened and
  saved unchanged stays the same, and the running total of the form is the total
  that is stored.
- A settled order stays settled, a late one is late whatever was paid, and a credit
  on one order never pays for another.
- No credential is sent and no order is changed on behalf of a page of another
  origin, and a failure of the authentication service is never taken for a missing
  session.

Each of these is a `law_` function, or the contract of the function it is about.

## What is trusted

Calls into `chrono`, `uuid` and `http`, and three functions of the standard
library. Each stands in a small function of its own, whose comment names the
outside function and says what is claimed of it.

What is said of transactions that run at the same time holds of a database that
behaves as `reply_to` and `statement_runs` in `src/orders/ledger.rs` say: a locked
row waits for its holder, a statement sees what was committed and what its own
transaction wrote, no order has two payments under one identifier, and a
transaction that ends without a commit leaves nothing behind. What is said of
reading holds of queries that return what `reads_return` and `list_returns` in
`src/orders/read.rs` say. The statements in `app/` run at PostgreSQL's default
isolation, and nothing here proves that the server behaves so.

## Money and time

Every amount is an `i64` count of cents; there is nothing to round. Every
multiplication and addition that decides something is checked. "Today" is the
date in UTC.

## Running

| Variable | Required | Purpose |
| --- | --- | --- |
| `DATABASE_URL` | yes | `postgres://` or `postgresql://` connection string |
| `BETTER_AUTH_URL` | yes | Absolute base URL of the authentication service |
| `LEPTOS_OUTPUT_NAME` | yes | Name of the browser bundle |
| `LEPTOS_SITE_ADDR` | no | Listen address |
| `RUST_LOG` | no | Tracing filter |

Migrations are read from `./migrations` at startup.
