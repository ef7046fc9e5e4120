# faststats_rs

A Rust SDK for FastStats: anonymous metrics, error and panic tracking, and
feature flags. Its logic is written in Verus: the functions state in contracts
what they do, and Verus has proved that they do it.

- `src/` is the library. It does no input or output: values of environment
  variables, contents of files, the time and the outcomes of requests are
  handed in, and requests, bodies and log lines are handed back.
- `app/` is the SDK that programs use: it reads the environment and the state
  file, sends the requests, and runs the services in the background.
- `tests/` holds tests of the library.

## Modules

| Module           | Holds                                                          |
|------------------|----------------------------------------------------------------|
| `client`         | the client, its builder, and the state that is kept between runs |
| `domain`         | attributes, configuration, SDK information, server ids         |
| `error_tracking` | anonymization, stack traces, error reports, the panic hook     |
| `feature_flags`  | flag values, their cache, and fetches that share a request     |
| `features`       | metrics of programs that run in a terminal                     |
| `metrics`        | built-in and custom metrics                                    |
| `transport`      | requests and responses                                         |
| `validated`      | ids and tokens                                                 |
| `value`, `json`  | JSON values, and reading them with `serde_json`                |
| `regexes`        | regular expressions, with `regex`                              |
| `text`           | texts                                                          |

Properties that span several functions are public proof functions whose names
begin with `law_`. What is believed of other crates stands in a few functions
marked `#[verifier::external_body]`, each with a comment that says what it
claims.
