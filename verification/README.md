# frontend

The web front end of a property-management application (buildings,
apartments, owners and renters, meters, maintenance requests and
announcements), split in two:

- `src/` is a Verus library that holds the application's logic with its
  contracts and proofs: translations with language fallback (Fluent),
  login tokens and role checks, the pager, toasts, form classes and
  counters, announcement roles, status, editing and rendering, the meter
  filters and calibration badges, the property administration's user
  search and renter handling, and the state machines of the sign-in form,
  the maintenance management panel and the escalation panel.
- `app/` is the Yew application around it: components, browser storage,
  HTTP requests, JSON, and the date arithmetic done on the browser clock.

`tests/` runs the library on concrete values.

Modules of the library:

| module          | what it holds                                              |
|-----------------|------------------------------------------------------------|
| `text`          | characters, trimming, splitting, search, decimal numbers   |
| `i18n`          | the translation catalog and lookups                        |
| `auth`          | users, roles, login tokens, the sign-in form               |
| `pagination`    | the page links of the pager                                |
| `toast`         | toast levels and the list of toasts                        |
| `forms`         | classes and counters of the form controls                  |
| `announcements` | roles, status, editor, bodies, comments                    |
| `meters`        | due dates, calibration badges, filters, meter forms        |
| `properties`    | buildings, owners, renters, invitations, history           |
| `maintenance`   | comments, management panel, escalation panel               |
