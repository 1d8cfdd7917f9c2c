# smatelcom

The decision core of SmaTelcom, a local-first orchestrator for telecom network
operations, written in Verus. Every function in `src/` carries a contract that Verus
proves, except seven small trusted wrappers around outside calls (regex matching, UUID
generation, the clock, and std's case mapping and `String::push`), whose contracts Verus
takes on trust; their doc comments say what each one claims.

- `src/guardrails.rs` — the deterministic safety linter (blacklist rules, blast-radius
  escalation, graduated autonomy) and its laws.
- `src/agents.rs` — the multi-agent pipeline's decisions: grounding, parsing of agent
  answers, Performance/Security conflict resolution, enforcement of the priority
  hierarchy on the Judge's answer, and the safety gate.
- `src/commands.rs` — the operator commands: linter gates in front of every push,
  translation and execution; HITL approval and rejection.
- `src/hitl.rs`, `src/roi.rs`, `src/db.rs` — pending actions and cleared commands, ROI
  counters, audit-trail records.
- `src/adapters.rs`, `src/drivers.rs`, `src/network_connector.rs`, `src/northbound.rs`,
  `src/executor.rs` — vendor payloads, NETCONF/gNMI drivers, CLI translation and the
  simulated lab, TMF641/637 ingress, the closed-loop executor.
- `src/rag.rs`, `src/ranking.rs`, `src/text.rs` — knowledge-base chunking and retrieval,
  and the character-level text functions they rest on.
- `src/telemetry.rs`, `src/ollama.rs`, `src/digital_twin.rs` — the parts of the telemetry
  simulator, model selection and impact prediction that do not depend on measured values.

`app/` holds the shell around it: SQLite storage, the Ollama HTTP client, SSH, file
loading, the random telemetry simulator and the asynchronous flows that call the core.
