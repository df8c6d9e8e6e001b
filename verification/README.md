# wind

A small web framework in the manner of express.js: routes and middleware
answer HTTP requests that a multithreaded server reads from TCP
connections.

- `src/` is the library, verified with Verus: query parameters
  (`lib.rs`), the parsing of a request's head and query (`request.rs`),
  responses and status codes (`response.rs`), routes (`route.rs`), the
  router that offers a request to its routes (`lib.rs`) and nested routers
  (`router.rs`), and the character-level helpers they share (`text.rs`).
- `app/` is the server around it: the TCP listener, the thread pool, the
  reading of a request from its connection and the writing of the response.
- `tests/` exercises the library.
