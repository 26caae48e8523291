# spirean

The verified core of a small axum web site, with the site itself around it.

- `src/` is the library, verified with Verus:
  - `extensions/pagination.rs`: page listings (`PageInfo::new`) and the laws
    of their shape;
  - `extensions/flashes.rs`: flash messages, their search and the counting of
    field errors;
  - `extensions/form_validator.rs`: how a server error is answered;
  - `extensions/state.rs`: the computing parts of the per-request state
    (row counts, users of a page of rows);
  - `forms/user.rs`, `models/user.rs`: users, groups and the database rows
    they are made from;
  - `inits/serverstate.rs`: the list of users online;
  - `text.rs`, `datetime.rs`: the operations taken from `std` and `chrono`,
    each behind a wrapper whose contract is trusted.
- `tests/` runs the library on concrete values.
- `app/` is the web server: routes, extractors, templates, database access
  and clocks, calling the library for every decision.
