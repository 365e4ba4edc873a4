# axum_api

The backend of a project-management and ticketing service: a JSON resource
API over ArangoDB with ACL-based access control, super-permissions, group
memberships with cascading deletes, media uploads and repository probes.

## Layout

- `src/` — the library, verified with Verus. It holds every rule of the
  service: naming rules, the JSON document transforms of each resource kind,
  ACL parsing and evaluation, the per-kind access policy, the TTL caches,
  query texts and pagination, the upload conversion as a state machine,
  the repository probe's plan and reports, configuration parsing, session
  tokens (signing, checking, finding them in a request), the image pipeline,
  and the decisions of each endpoint. Contracts are stated over `Seq`, `Map` and
  `Set` models of the data; laws that relate several operations are public
  proof functions (`law_*`).
- `app/` — the HTTP service around the library: the axum router and
  handlers, the ArangoDB store, the object store, the session middleware,
  the GitHub and git transports and the task-queue client. Handlers fetch, call the
  library's decision functions in the order the endpoints define, and store.
- `tests/` — tests of the library on concrete values.
