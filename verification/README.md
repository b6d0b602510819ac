# game-core

Deterministic, authoritative game-session primitives, written in Verus and proved against
their contracts.

Applications own concrete game state, actions, events, outcomes and rules; this library owns
identity, lifecycle, optimistic versioning, participant presence, injected seeded randomness,
snapshots and replay.

Layout of `src/`:

- `text.rs` — character classes and the lexicographic text order, with its order lemmas;
- `identity.rs` — validated definition keys, version labels, session and result references;
- `participant.rs` — participant identities and the identity-ordered roster;
- `randomness.rs` — the `RandomSource` boundary, rejection sampling, the pinned SplitMix64
  stream (`splitmix64-v1`) and Fisher-Yates shuffling;
- `session.rs` — versions, the `Created -> Active -> Finished` lifecycle, the `GameRules`
  boundary, `GameSession::apply`, snapshots;
- `replay.rs` — replay of recorded actions through the same acceptance path as live play.

`tests/` exercises the library on concrete scenarios.

`GameRules` and `RandomSource` are implemented by applications. An implementation may state
its behaviour as spec functions (`verdict`/`step`, `draw_spec`) and declare it with
`obeys_rules_spec`/`obeys_draw_spec`; `apply`, `next_index`, `shuffle` and replay are then
specified exactly in those terms (`apply_spec`, `sample_by`, `shuffle_spec`, `replay_from`).
`SeededRandom` declares its draws.
