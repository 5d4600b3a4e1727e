# chorus

An OpenAI-compatible Mixture-of-Agents gateway: one chat-completion request is
fanned out to a panel of models, a judge analyses the answers, and a
synthesizer writes one hardened answer. A cheap classifier can route easy
queries to a single model instead.

## Layout

- `src/` is the verified library (Verus). It holds the configuration checks,
  the prompt builders, the difficulty parser, the router, the panel quorum,
  the judge and synthesis requests, and the pipeline as a state machine: each
  step takes the outcome of the last backend call and names the next one.
  Public proof functions (`lemma_*`) state the laws the gateway keeps, such as
  fail-open routing, the single synthesizer retry, degradation to the best
  panel answer, and usage summed over every call.
- `app/` is the server: configuration loading, the HTTP backend, the axum
  handlers, the SSE stream, metrics, and the loop that carries out the
  pipeline's actions.
- `tests/` runs the library on concrete values.

## Numbers

The library holds no floating-point values. Temperatures, the router
threshold and difficulty scores are integers in millionths (`0.5` is
`500_000`); `app/` converts at its edges. A difficulty score is read to six
decimal places, so digits past the sixth are dropped before it is compared
with the threshold.
