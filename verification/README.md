# rbac_organization

The organization rules of an RBAC plugin, verified with Verus.

- `src/text.rs`: whitespace trimming, text equality, prefix stripping and
  splitting, stated over character sequences.
- `src/permissions.rs`: display labels of permission codes, including
  component-scoped codes, with the labelling laws.
- `src/model.rs`: organization items, save requests and errors.
- `src/organization.rs`: which department and post writes are accepted and
  what they write; fresh ids from random UUIDs; the checks made around the
  database queries; laws on written records.
- `src/hierarchy.rs`: the department hierarchy as parent links; the
  cycle check and the proof that an accepted save keeps it acyclic.
- `src/page_flow.rs`: the state of the organization pages on each event.
- `src/pages.rs`, `src/numbers.rs`: the rules of the department and post
  pages (editor requests, paths, parent choices, table texts, sort keys,
  reading sort orders, count summaries).
- `app/lib.rs`: the PostgreSQL endpoints that run the queries around these
  rules.
