# Headmaster

Headmaster runs self-hosted [headscale](https://github.com/juanfont/headscale)
control planes on Kubernetes: an operator, a SCIM service that keeps users and
groups in step with an identity provider, and the tools that keep the chart's
files up to date.

The library in `src/` holds the rules of all three, with contracts that Verus
proves:

- `types`, `controllers`: instances, their resources and their policies; the
  course of the work on an instance and on an Ingress.
- `server`: the admission webhook and the health endpoints.
- `scim`: the mapping of users and groups, the requests that change it, and what
  becomes of them in the policy.
- `policy_document`, `json`, `table`, `text`, `time`, `digest`: what these build on.
- `tools`: the README of the chart, and the schema of its values.

A course of work is a function from a stage and an event to the next action: the
program in `app/` carries the actions out and hands back what came of them. It
holds all input and output, the serialised forms of the library's types, and the
manifests of an Ingress's proxy.

What the library takes from other crates goes through a few functions whose
contracts are believed, not proved; the doc comment of each says what it claims.
