# authen

The HTTP layer of the Authen authentication service, with its logic proved
in Verus.

- `src/` is the verified library: percent-encoding of redirect values
  (`encoding`), the service's error texts (`error`), the API error value
  (`response`), OAuth2 provider names (`provider`), request and response
  bodies and the ordering of linked accounts (`models`), bearer-token
  parsing and the auth-context record with its extractors (`middleware`),
  and the decisions the endpoints take on what the service returned
  (`handlers`). Laws are public proof functions beside the code they speak of.
- `app/` wires the library into axum: routes, JSON bodies, the middleware
  and the handlers that await an `AuthService` implementation.
- `tests/` exercise the library on concrete values.
