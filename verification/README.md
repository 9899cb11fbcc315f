# authzen_pdp

An [OpenID AuthZEN](https://openid.github.io/authzen/) policy decision point
backed by [Cedar](https://www.cedarpolicy.com/) policies. The decisions around
Cedar are written in Rust and proved with Verus.

## What it answers

`POST /access/v1/evaluation` puts a subject, an action, a resource and an
optional context to Cedar. `decision` is `true` where Cedar allows the request.
The `context` of the answer is omitted where there is nothing to report:

| Key | Holds |
|---|---|
| `reason` | the names of the determining policies, in order: `@id`, else the internal id |
| `errors` | the errors of the evaluation, where there are any |
| any other | `@decision_context_<key>` of one determining policy |

One policy supplies all keys of the last kind: the one with the smallest
`@priority`, of those the one whose name comes first. A policy without
`@priority` comes last. Annotations have no say in `reason` and `errors`.

A request that cannot be read or put to Cedar is answered with status 400 and one
of the codes `invalid_json`, `invalid_entity`, `invalid_context`,
`invalid_request` and `invalid_properties`; a failure of the authorizer with
status 500 and `evaluation_failed`.

## Layout

- `src/` is the verified library. `cedar` and `json` hold what it takes from
  `cedar_policy` and `serde_json`, and the models that contracts speak of;
  `convert`, `handlers`, `policy`, `error`, `config`, `health` and `telemetry`
  hold the decisions; `laws` states what holds of them together.
- `app/` is the program around it: the HTTP endpoints, the files, the environment
  and the provider of policies.
- `tests/` runs the library with the real crates.
