//! Deterministic, authoritative game-session primitives.
//!
//! The crate owns generic identity, lifecycle, optimistic-version, participant, randomness,
//! snapshot, and replay mechanisms. A consuming game supplies its own state, actions, events,
//! outcomes, and rules.
//!
//! The central execution boundary is [`GameRules`]: validation observes only the current
//! state and action context, while an accepted action deterministically produces a
//! [`Transition`] from injected randomness.
pub mod identity;
pub mod participant;
pub mod randomness;
pub mod replay;
pub mod session;
pub mod text;

pub use identity::{
    GameDefinitionKey, GameDefinitionRef, GameDefinitionVersion, GameResultId, GameResultRef,
    GameSessionId, GameSessionRef, IdentityError, IdentityResult,
};
pub use participant::{
    Participant, ParticipantError, ParticipantId, ParticipantRoster, ParticipantStatus,
};
pub use randomness::{
    shuffle, RandomCheckpoint, RandomError, RandomSeed, RandomSource, SeededRandom,
    SEEDED_RANDOM_ALGORITHM,
};
pub use replay::{replay, replay_from_snapshot, ReplayExecutionResult, ReplayResult};
pub use session::{
    ActionContext, AppliedTransition, GameAction, GameExecutionError, GameRules, GameSession,
    GameSnapshot, GameStatus, GameVersion, LifecycleOperation, SessionError, Transition,
    MAX_SAFE_VERSION,
};
