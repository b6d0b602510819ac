//! The authoritative session aggregate: lifecycle, optimistic versions, rule execution and
//! snapshots.
use vstd::prelude::*;

use crate::identity::GameSessionRef;
use crate::participant::ParticipantId;
use crate::randomness::RandomSource;

verus! {

/// Largest version, 2^53 - 1: every version is exactly representable as a double-precision number.
pub const MAX_SAFE_VERSION: u64 = 9_007_199_254_740_991;

/// Monotonic optimistic-concurrency version of authoritative session state.
#[derive(Clone, Copy, Debug, Eq, Hash, Ord, PartialEq, PartialOrd, Structural)]
pub struct GameVersion(u64);

impl View for GameVersion {
    type V = u64;

    closed spec fn view(&self) -> u64 {
        self.0
    }
}

impl GameVersion {
    /// The version numbered `value`.
    pub closed spec fn new_spec(value: u64) -> GameVersion {
        GameVersion(value)
    }

    /// `new_spec` numbers versions as given.
    pub proof fn lemma_new_spec(value: u64)
        ensures
            Self::new_spec(value)@ == value,
    {
    }

    /// Versions with the same number are the same version.
    pub proof fn lemma_same_number(a: GameVersion, b: GameVersion)
        requires
            a@ == b@,
        ensures
            a == b,
    {
    }

    #[verifier::when_used_as_spec(new_spec)]
    pub fn new(value: u64) -> (r: Self)
        ensures
            r@ == value,
            r == Self::new_spec(value),
    {
        GameVersion(value)
    }

    /// Creates a version no larger than `MAX_SAFE_VERSION`.
    pub fn try_new(value: u64) -> (r: Result<Self, SessionError>)
        ensures
            r is Ok <==> value <= MAX_SAFE_VERSION,
            r matches Ok(v) ==> v@ == value,
            r matches Err(e) ==> e == SessionError::VersionExhausted,
    {
        if value > MAX_SAFE_VERSION {
            Err(SessionError::VersionExhausted)
        } else {
            Ok(GameVersion(value))
        }
    }

    pub fn get(self) -> (r: u64)
        ensures
            r == self@,
    {
        self.0
    }

    fn next(self) -> (r: Result<Self, SessionError>)
        ensures
            r is Ok <==> self@ < MAX_SAFE_VERSION,
            r matches Ok(v) ==> v@ == self@ + 1,
            r matches Err(e) ==> e == SessionError::VersionExhausted,
    {
        if self.0 >= MAX_SAFE_VERSION {
            return Err(SessionError::VersionExhausted);
        }
        Ok(GameVersion(self.0 + 1))
    }
}

impl Default for GameVersion {
    fn default() -> (r: Self)
        ensures
            r@ == 0,
    {
        GameVersion(0)
    }
}

/// Core-owned lifecycle. Domain phases and rounds stay inside the game's state.
#[derive(Clone, Copy, Debug, Eq, PartialEq, Structural)]
pub enum GameStatus {
    Created,
    Active,
    Finished,
}

#[derive(Clone, Copy, Debug, Eq, PartialEq, Structural)]
pub enum LifecycleOperation {
    Start,
    ApplyAction,
}

/// The status a session must have for `operation`.
pub open spec fn required_status(operation: LifecycleOperation) -> GameStatus {
    match operation {
        LifecycleOperation::Start => GameStatus::Created,
        LifecycleOperation::ApplyAction => GameStatus::Active,
    }
}

/// Whether a session at `version` with `status` may perform `operation` when the caller
/// expects `expected`: the version it would move to, or the first failing check among
/// version match, lifecycle and version exhaustion.
pub open spec fn admission(
    version: GameVersion,
    status: GameStatus,
    expected: GameVersion,
    operation: LifecycleOperation,
) -> Result<u64, SessionError> {
    if expected != version {
        Err(SessionError::VersionConflict { expected, actual: version })
    } else if status != required_status(operation) {
        Err(SessionError::InvalidLifecycleTransition { status, operation })
    } else if version@ >= MAX_SAFE_VERSION {
        Err(SessionError::VersionExhausted)
    } else {
        Ok((version@ + 1) as u64)
    }
}

/// The lifecycle/version/outcome combinations the core can produce: a created session is at
/// version 0 with no outcome, an active one past version 0 with no outcome, a finished one
/// past version 1 with an outcome, and no version exceeds `MAX_SAFE_VERSION`.
pub open spec fn lifecycle_valid(version: u64, status: GameStatus, has_outcome: bool) -> bool {
    &&& version <= MAX_SAFE_VERSION
    &&& match status {
        GameStatus::Created => version == 0 && !has_outcome,
        GameStatus::Active => version > 0 && !has_outcome,
        GameStatus::Finished => version > 1 && has_outcome,
    }
}

/// An authoritative command with an optimistic version precondition.
#[derive(Clone, Debug, Eq, PartialEq)]
pub struct GameAction<A> {
    expected_version: GameVersion,
    actor: Option<ParticipantId>,
    payload: A,
}

/// The abstract value of a [`GameAction`].
pub struct ActionView<A> {
    pub expected_version: GameVersion,
    pub actor: Option<ParticipantId>,
    pub payload: A,
}

impl<A> View for GameAction<A> {
    type V = ActionView<A>;

    closed spec fn view(&self) -> ActionView<A> {
        ActionView {
            expected_version: self.expected_version,
            actor: self.actor,
            payload: self.payload,
        }
    }
}

impl<A> GameAction<A> {
    pub fn new(expected_version: GameVersion, actor: Option<ParticipantId>, payload: A) -> (r:
        Self)
        ensures
            r@ == (ActionView { expected_version, actor, payload }),
    {
        GameAction { expected_version, actor, payload }
    }

    pub fn expected_version(&self) -> (r: GameVersion)
        ensures
            r == self@.expected_version,
    {
        self.expected_version
    }

    pub fn actor(&self) -> (r: Option<&ParticipantId>)
        ensures
            r is Some <==> self@.actor is Some,
            r matches Some(a) ==> *a == self@.actor->0,
    {
        self.actor.as_ref()
    }

    pub fn payload(&self) -> (r: &A)
        ensures
            *r == self@.payload,
    {
        &self.payload
    }

    pub fn into_payload(self) -> (r: A)
        ensures
            r == self@.payload,
    {
        self.payload
    }
}

/// Read-only facts available to rule validation and transition execution.
#[derive(Clone, Copy, Debug)]
pub struct ActionContext<'a> {
    session: &'a GameSessionRef,
    actor: Option<&'a ParticipantId>,
    version: GameVersion,
}

/// The abstract value of an [`ActionContext`].
pub struct ContextView {
    pub session: GameSessionRef,
    pub actor: Option<ParticipantId>,
    pub version: GameVersion,
}

impl<'a> View for ActionContext<'a> {
    type V = ContextView;

    closed spec fn view(&self) -> ContextView {
        ContextView {
            session: *self.session,
            actor: match self.actor {
                Some(a) => Some(*a),
                None => None,
            },
            version: self.version,
        }
    }
}

impl<'a> ActionContext<'a> {
    pub fn session(&self) -> (r: &'a GameSessionRef)
        ensures
            *r == self@.session,
    {
        self.session
    }

    pub fn actor(&self) -> (r: Option<&'a ParticipantId>)
        ensures
            r is Some <==> self@.actor is Some,
            r matches Some(a) ==> *a == self@.actor->0,
    {
        self.actor
    }

    pub fn version(&self) -> (r: GameVersion)
        ensures
            r == self@.version,
    {
        self.version
    }
}

/// Accepted domain transition: new state, ordered events, and optional terminal outcome.
#[derive(Clone, Debug, Eq, PartialEq)]
pub struct Transition<S, E, O> {
    state: S,
    events: Vec<E>,
    outcome: Option<O>,
}

/// The abstract value of a [`Transition`].
pub struct TransitionView<S, E, O> {
    pub state: S,
    pub events: Seq<E>,
    pub outcome: Option<O>,
}

impl<S, E, O> View for Transition<S, E, O> {
    type V = TransitionView<S, E, O>;

    closed spec fn view(&self) -> TransitionView<S, E, O> {
        TransitionView { state: self.state, events: self.events@, outcome: self.outcome }
    }
}

impl<S, E, O> Transition<S, E, O> {
    pub fn continue_with(state: S, events: Vec<E>) -> (r: Self)
        ensures
            r@ == (TransitionView::<S, E, O> { state, events: events@, outcome: None }),
    {
        Transition { state, events, outcome: None }
    }

    pub fn finish(state: S, events: Vec<E>, outcome: O) -> (r: Self)
        ensures
            r@ == (TransitionView { state, events: events@, outcome: Some(outcome) }),
    {
        Transition { state, events, outcome: Some(outcome) }
    }
}

/// Rules supplied by a concrete game domain.
///
/// Validation cannot consume randomness. Once validation succeeds, `transition` is
/// infallible and must deterministically return the next state for the supplied state,
/// action, and random stream.
///
/// An implementation may state its rules as `verdict` and `step` and say so with
/// `obeys_rules_spec`: then `validate` returns `verdict` of the context, state and action, and
/// on a random source whose draws are a function of its value (`obeys_draw_spec`),
/// `transition` returns, and leaves the source as, `step` says. Rules that do not say so are
/// claimed nothing of.
pub trait GameRules {
    type State;

    type Action;

    type Event;

    type Outcome;

    type Error;

    /// `validate` and `transition` follow `verdict` and `step`.
    open spec fn obeys_rules_spec() -> bool {
        false
    }

    /// The verdict of validation on a context, state and action.
    open spec fn verdict(&self, context: ContextView, state: Self::State, action: Self::Action) -> Result<
        (),
        Self::Error,
    > {
        arbitrary()
    }

    /// The transition an accepted action makes, and the random source after it, for a context,
    /// state, action and random source.
    open spec fn step<G: RandomSource>(
        &self,
        context: ContextView,
        state: Self::State,
        action: Self::Action,
        random: G,
    ) -> (TransitionView<Self::State, Self::Event, Self::Outcome>, G) {
        arbitrary()
    }

    /// Validates actor authorization and game-specific action legality.
    fn validate(
        &self,
        context: &ActionContext<'_>,
        state: &Self::State,
        action: &Self::Action,
    ) -> (r: Result<(), Self::Error>)
        ensures
            Self::obeys_rules_spec() ==> r == self.verdict(context@, *state, *action),
    ;

    fn transition<G: RandomSource>(
        &self,
        context: &ActionContext<'_>,
        state: &Self::State,
        action: &Self::Action,
        random: &mut G,
    ) -> (r: Transition<Self::State, Self::Event, Self::Outcome>)
        ensures
            Self::obeys_rules_spec() && G::obeys_draw_spec() ==> (r@, *final(random)) == self.step(
                context@,
                *state,
                *action,
                *old(random),
            ),
    ;
}

/// Events and authoritative version produced by one accepted action.
#[derive(Clone, Debug, Eq, PartialEq)]
pub struct AppliedTransition<E> {
    prior_version: GameVersion,
    next_version: GameVersion,
    status: GameStatus,
    events: Vec<E>,
}

/// The abstract value of an [`AppliedTransition`].
pub struct AppliedView<E> {
    pub prior_version: GameVersion,
    pub next_version: GameVersion,
    pub status: GameStatus,
    pub events: Seq<E>,
}

impl<E> View for AppliedTransition<E> {
    type V = AppliedView<E>;

    closed spec fn view(&self) -> AppliedView<E> {
        AppliedView {
            prior_version: self.prior_version,
            next_version: self.next_version,
            status: self.status,
            events: self.events@,
        }
    }
}

impl<E> AppliedTransition<E> {
    pub fn prior_version(&self) -> (r: GameVersion)
        ensures
            r == self@.prior_version,
    {
        self.prior_version
    }

    pub fn next_version(&self) -> (r: GameVersion)
        ensures
            r == self@.next_version,
    {
        self.next_version
    }

    pub fn status(&self) -> (r: GameStatus)
        ensures
            r == self@.status,
    {
        self.status
    }

    pub fn events(&self) -> (r: &[E])
        ensures
            r@ == self@.events,
    {
        self.events.as_slice()
    }

    pub fn into_events(self) -> (r: Vec<E>)
        ensures
            r@ == self@.events,
    {
        self.events
    }
}

/// Version, status and outcome of a session, always in a combination the core can produce.
#[derive(Debug, Eq, PartialEq)]
struct Lifecycle<O> {
    version: GameVersion,
    status: GameStatus,
    outcome: Option<O>,
}

impl<O> Lifecycle<O> {
    #[verifier::type_invariant]
    spec fn producible(self) -> bool {
        lifecycle_valid(self.version@, self.status, self.outcome is Some)
    }
}

impl<O: Clone> Lifecycle<O> {
    fn duplicate(&self) -> (r: Self)
        ensures
            r.version == self.version,
            r.status == self.status,
            r.outcome is Some <==> self.outcome is Some,
            r.outcome is Some ==> cloned(self.outcome->0, r.outcome->0),
    {
        proof {
            use_type_invariant(self);
        }
        Lifecycle { version: self.version, status: self.status, outcome: self.outcome.clone() }
    }
}

impl<O: Clone> Clone for Lifecycle<O> {
    fn clone(&self) -> Self {
        self.duplicate()
    }
}

/// The abstract value of a [`GameSession`] or a [`GameSnapshot`].
pub struct GameSessionView<S, O> {
    pub reference: GameSessionRef,
    pub version: GameVersion,
    pub status: GameStatus,
    pub state: S,
    pub outcome: Option<O>,
}

impl<S, O> GameSessionView<S, O> {
    /// The lifecycle/version/outcome combination is one the core can produce.
    pub open spec fn producible(self) -> bool {
        lifecycle_valid(self.version@, self.status, self.outcome is Some)
    }
}

/// The session `post` and the report `applied` are what an accepted action with expected
/// version `expected` makes of session `pre`: the version advances by exactly one, the
/// reference stays, and the session is finished exactly when the transition has an outcome.
pub open spec fn accepted<S, O, E>(
    pre: GameSessionView<S, O>,
    expected: GameVersion,
    post: GameSessionView<S, O>,
    applied: AppliedView<E>,
) -> bool {
    &&& admission(pre.version, pre.status, expected, LifecycleOperation::ApplyAction) == Ok::<
        u64,
        SessionError,
    >(post.version@)
    &&& post.reference == pre.reference
    &&& post.status == (if post.outcome is Some {
        GameStatus::Finished
    } else {
        GameStatus::Active
    })
    &&& applied.prior_version == pre.version
    &&& applied.next_version == post.version
    &&& applied.status == post.status
}

/// `error` is how an action with expected version `expected` is refused by session `pre`:
/// the core's first failing check, or otherwise the rules' rejection.
pub open spec fn refused<S, O, X>(
    pre: GameSessionView<S, O>,
    expected: GameVersion,
    error: GameExecutionError<X>,
) -> bool {
    match admission(pre.version, pre.status, expected, LifecycleOperation::ApplyAction) {
        Err(e) => error == GameExecutionError::<X>::Session(e),
        Ok(_) => error is ActionRejected,
    }
}

/// The context handed to the rules for `action` on session `pre`: the session's reference,
/// the action's actor and the session's current version.
pub open spec fn action_context<S, O, A>(pre: GameSessionView<S, O>, action: ActionView<A>) -> ContextView {
    ContextView { session: pre.reference, actor: action.actor, version: pre.version }
}

/// The abstract value of what `apply` returns.
pub open spec fn applied_view<E, X>(r: Result<AppliedTransition<E>, GameExecutionError<X>>) -> Result<
    AppliedView<E>,
    GameExecutionError<X>,
> {
    match r {
        Ok(applied) => Ok(applied@),
        Err(error) => Err(error),
    }
}

/// What applying `action` to session `pre` with `rules` and a random source in state `random`
/// gives: the result, the session after, and the random source after. The core's checks come
/// first (version, lifecycle, exhaustion); then the rules' verdict on the action's context;
/// then the rules' step, whose state and outcome become the session's, whose events are
/// reported, and whose outcome finishes the session.
pub open spec fn apply_spec<R: GameRules, G: RandomSource>(
    rules: R,
    pre: GameSessionView<R::State, R::Outcome>,
    action: ActionView<R::Action>,
    random: G,
) -> (
    Result<AppliedView<R::Event>, GameExecutionError<R::Error>>,
    GameSessionView<R::State, R::Outcome>,
    G,
) {
    match admission(pre.version, pre.status, action.expected_version, LifecycleOperation::ApplyAction) {
        Err(e) => (Err(GameExecutionError::Session(e)), pre, random),
        Ok(next) => {
            let context = action_context(pre, action);
            match rules.verdict(context, pre.state, action.payload) {
                Err(e) => (Err(GameExecutionError::ActionRejected(e)), pre, random),
                Ok(_) => {
                    let (t, after) = rules.step(context, pre.state, action.payload, random);
                    let (post, applied) = commit_spec(pre, next, t);
                    (Ok(applied), post, after)
                },
            }
        },
    }
}

/// What installing transition `t`, of an action admitted to move session `pre` to version
/// `next`, makes of it: the session takes the transition's state and outcome, is finished
/// exactly when there is an outcome, and the report carries the transition's events.
pub open spec fn commit_spec<S, O, E>(
    pre: GameSessionView<S, O>,
    next: u64,
    t: TransitionView<S, E, O>,
) -> (GameSessionView<S, O>, AppliedView<E>) {
    let status = if t.outcome is Some {
        GameStatus::Finished
    } else {
        GameStatus::Active
    };
    let post = GameSessionView {
        reference: pre.reference,
        version: GameVersion::new_spec(next),
        status,
        state: t.state,
        outcome: t.outcome,
    };
    (post, AppliedView { prior_version: pre.version, next_version: post.version, status, events: t.events })
}

/// A transition with an outcome finishes the session and one without leaves it active; either
/// way the session takes the transition's state and outcome, and the report its events.
pub proof fn lemma_commit_installs<S, O, E>(pre: GameSessionView<S, O>, next: u64, t: TransitionView<S, E, O>)
    ensures
        ({
            let (post, applied) = commit_spec(pre, next, t);
            &&& post.status == (if t.outcome is Some {
                GameStatus::Finished
            } else {
                GameStatus::Active
            })
            &&& applied.status == post.status
            &&& post.state == t.state
            &&& post.outcome == t.outcome
            &&& applied.events == t.events
            &&& post.reference == pre.reference
            &&& applied.prior_version == pre.version
        }),
{
}

/// `result`, `post` and `random_post` are a possible outcome of applying `action` to session
/// `pre` with `rules` and a random source in state `random_pre`, whatever the rules are:
/// the core's checks decide first and a refusal changes nothing; the rules' rejection changes
/// nothing; an accepted action installs one transition (`commit_spec`). Where the rules
/// declare their verdict, it decides between rejection (with its error) and acceptance; where
/// they also declare their step and the source its draws, the transition and the source after
/// are the step's.
pub open spec fn apply_outcome<R: GameRules, G: RandomSource>(
    rules: R,
    pre: GameSessionView<R::State, R::Outcome>,
    action: ActionView<R::Action>,
    random_pre: G,
    result: Result<AppliedView<R::Event>, GameExecutionError<R::Error>>,
    post: GameSessionView<R::State, R::Outcome>,
    random_post: G,
) -> bool {
    match admission(pre.version, pre.status, action.expected_version, LifecycleOperation::ApplyAction) {
        Err(e) => result == Err::<AppliedView<R::Event>, GameExecutionError<R::Error>>(
            GameExecutionError::Session(e),
        ) && post == pre && random_post == random_pre,
        Ok(next) => {
            let context = action_context(pre, action);
            match result {
                Err(GameExecutionError::ActionRejected(e)) => {
                    &&& post == pre
                    &&& random_post == random_pre
                    &&& R::obeys_rules_spec() ==> rules.verdict(context, pre.state, action.payload)
                        == Err::<(), R::Error>(e)
                },
                Err(GameExecutionError::Session(_)) => false,
                Ok(applied) => exists|t: TransitionView<R::State, R::Event, R::Outcome>|
                    {
                        &&& #[trigger] commit_spec(pre, next, t) == (post, applied)
                        &&& R::obeys_rules_spec() ==> rules.verdict(
                            context,
                            pre.state,
                            action.payload,
                        ) is Ok
                        &&& R::obeys_rules_spec() && G::obeys_draw_spec() ==> (t, random_post)
                            == rules.step(context, pre.state, action.payload, random_pre)
                    },
            }
        },
    }
}

/// Where the rules and the random source declare their behaviour, applying an action has
/// exactly one outcome, `apply_spec`: `apply` is deterministic.
pub proof fn lemma_outcome_is_apply_spec<R: GameRules, G: RandomSource>(
    rules: R,
    pre: GameSessionView<R::State, R::Outcome>,
    action: ActionView<R::Action>,
    random_pre: G,
    result: Result<AppliedView<R::Event>, GameExecutionError<R::Error>>,
    post: GameSessionView<R::State, R::Outcome>,
    random_post: G,
)
    requires
        R::obeys_rules_spec(),
        G::obeys_draw_spec(),
        apply_outcome(rules, pre, action, random_pre, result, post, random_post),
    ensures
        (result, post, random_post) == apply_spec(rules, pre, action, random_pre),
{
    match admission(pre.version, pre.status, action.expected_version, LifecycleOperation::ApplyAction) {
        Err(_) => {},
        Ok(next) => {
            match result {
                Ok(applied) => {
                    let t = choose|t: TransitionView<R::State, R::Event, R::Outcome>|
                        {
                            &&& #[trigger] commit_spec(pre, next, t) == (post, applied)
                            &&& R::obeys_rules_spec() ==> rules.verdict(
                                action_context(pre, action),
                                pre.state,
                                action.payload,
                            ) is Ok
                            &&& R::obeys_rules_spec() && G::obeys_draw_spec() ==> (t, random_post)
                                == rules.step(
                                action_context(pre, action),
                                pre.state,
                                action.payload,
                                random_pre,
                            )
                        };
                },
                Err(_) => {},
            }
        },
    }
}

/// An admitted action is judged and run in the context of the session as it stands before the
/// action: the session's reference, the action's actor, and the session's current version,
/// which is the action's expected version and one less than the version the session moves to.
pub proof fn lemma_context_is_prior_version<S, O, A>(pre: GameSessionView<S, O>, action: ActionView<A>)
    requires
        admission(pre.version, pre.status, action.expected_version, LifecycleOperation::ApplyAction)
            is Ok,
    ensures
        action_context(pre, action) == (ContextView {
            session: pre.reference,
            actor: action.actor,
            version: action.expected_version,
        }),
        action_context(pre, action).version == pre.version,
        action_context(pre, action).version@ + 1 == admission(
            pre.version,
            pre.status,
            action.expected_version,
            LifecycleOperation::ApplyAction,
        )->Ok_0,
{
}

/// For rules that state their verdict, an action that `apply` accepts was judged valid in the
/// context carrying the report's prior version, one less than its next version; an action the
/// rules reject was judged, with that error, in the context carrying the session's version
/// before the call.
pub proof fn lemma_rules_judge_prior_version<R: GameRules, G: RandomSource>(
    rules: R,
    pre: GameSessionView<R::State, R::Outcome>,
    action: ActionView<R::Action>,
    random_pre: G,
    result: Result<AppliedView<R::Event>, GameExecutionError<R::Error>>,
    post: GameSessionView<R::State, R::Outcome>,
    random_post: G,
)
    requires
        R::obeys_rules_spec(),
        apply_outcome(rules, pre, action, random_pre, result, post, random_post),
    ensures
        result matches Ok(applied) ==> {
            &&& rules.verdict(
                (ContextView {
                    session: pre.reference,
                    actor: action.actor,
                    version: applied.prior_version,
                }),
                pre.state,
                action.payload,
            ) is Ok
            &&& applied.prior_version == pre.version
            &&& applied.next_version@ == applied.prior_version@ + 1
        },
        result matches Err(GameExecutionError::ActionRejected(e)) ==> rules.verdict(
            (ContextView { session: pre.reference, actor: action.actor, version: pre.version }),
            pre.state,
            action.payload,
        ) == Err::<(), R::Error>(e),
{
    match admission(pre.version, pre.status, action.expected_version, LifecycleOperation::ApplyAction) {
        Err(_) => {},
        Ok(next) => {
            lemma_context_is_prior_version(pre, action);
            if let Ok(applied) = result {
                let t = choose|t: TransitionView<R::State, R::Event, R::Outcome>|
                    {
                        &&& #[trigger] commit_spec(pre, next, t) == (post, applied)
                        &&& R::obeys_rules_spec() ==> rules.verdict(
                            action_context(pre, action),
                            pre.state,
                            action.payload,
                        ) is Ok
                        &&& R::obeys_rules_spec() && G::obeys_draw_spec() ==> (t, random_post)
                            == rules.step(action_context(pre, action), pre.state, action.payload, random_pre)
                    };
                GameVersion::lemma_new_spec(next);
            }
        },
    }
}

/// Authoritative in-memory session aggregate, independent of storage and transport.
#[derive(Clone, Debug, Eq, PartialEq)]
pub struct GameSession<S, O> {
    reference: GameSessionRef,
    state: S,
    lifecycle: Lifecycle<O>,
}

impl<S, O> View for GameSession<S, O> {
    type V = GameSessionView<S, O>;

    closed spec fn view(&self) -> GameSessionView<S, O> {
        GameSessionView {
            reference: self.reference,
            version: self.lifecycle.version,
            status: self.lifecycle.status,
            state: self.state,
            outcome: self.lifecycle.outcome,
        }
    }
}

impl<S, O> GameSession<S, O> {
    pub fn create(reference: GameSessionRef, initial_state: S) -> (r: Self)
        ensures
            r@.reference == reference,
            r@.version@ == 0,
            r@.status == GameStatus::Created,
            r@.state == initial_state,
            r@.outcome is None,
            r@.producible(),
    {
        GameSession {
            reference,
            state: initial_state,
            lifecycle: Lifecycle {
                version: GameVersion(0),
                status: GameStatus::Created,
                outcome: None,
            },
        }
    }

    fn ensure_version(&self, expected: GameVersion) -> (r: Result<(), SessionError>)
        ensures
            r is Ok <==> expected == self@.version,
            r matches Err(e) ==> e == (SessionError::VersionConflict {
                expected,
                actual: self@.version,
            }),
    {
        if expected != self.lifecycle.version {
            return Err(
                SessionError::VersionConflict { expected, actual: self.lifecycle.version },
            );
        }
        Ok(())
    }

    /// Runs the core's checks for `operation`: version match, then lifecycle, then version
    /// exhaustion; returns the version the session would move to.
    fn check_admission(&self, expected: GameVersion, operation: LifecycleOperation) -> (r: Result<
        GameVersion,
        SessionError,
    >)
        ensures
            match admission(self@.version, self@.status, expected, operation) {
                Ok(n) => r matches Ok(v) && v@ == n,
                Err(e) => r == Err::<GameVersion, SessionError>(e),
            },
    {
        self.ensure_version(expected)?;
        let required = match operation {
            LifecycleOperation::Start => GameStatus::Created,
            LifecycleOperation::ApplyAction => GameStatus::Active,
        };
        if self.lifecycle.status != required {
            return Err(
                SessionError::InvalidLifecycleTransition {
                    status: self.lifecycle.status,
                    operation,
                },
            );
        }
        self.lifecycle.version.next()
    }

    /// Starts a created session using optimistic concurrency.
    ///
    /// Fails, changing nothing, with a version conflict, an invalid lifecycle transition,
    /// or an exhausted version.
    pub fn start(&mut self, expected_version: GameVersion) -> (r: Result<GameVersion, SessionError>)
        ensures
            match admission(
                old(self)@.version,
                old(self)@.status,
                expected_version,
                LifecycleOperation::Start,
            ) {
                Ok(n) => r matches Ok(v) && v@ == n && final(self)@ == (GameSessionView {
                    version: v,
                    status: GameStatus::Active,
                    ..old(self)@
                }),
                Err(e) => r == Err::<GameVersion, SessionError>(e) && final(self)@ == old(self)@,
            },
            final(self)@.producible(),
    {
        proof {
            use_type_invariant(&self.lifecycle);
        }
        let next_version = self.check_admission(expected_version, LifecycleOperation::Start)?;
        self.lifecycle = Lifecycle {
            version: next_version,
            status: GameStatus::Active,
            outcome: None,
        };
        Ok(next_version)
    }

    /// Validates and atomically applies one game-specific action.
    ///
    /// The core checks version and lifecycle before invoking domain validation. A refused
    /// action leaves the session and the random source untouched; an accepted one advances
    /// the version exactly once and finishes the session exactly when the rules return an
    /// outcome.
    pub fn apply<R, G>(
        &mut self,
        rules: &R,
        action: &GameAction<R::Action>,
        random: &mut G,
    ) -> (r: Result<AppliedTransition<R::Event>, GameExecutionError<R::Error>>) where
        R: GameRules<State = S, Outcome = O>,
        G: RandomSource,

        ensures
            r matches Ok(applied) ==> accepted(
                old(self)@,
                action@.expected_version,
                final(self)@,
                applied@,
            ),
            r matches Err(error) ==> refused(old(self)@, action@.expected_version, error)
                && final(self)@ == old(self)@ && *final(random) == *old(random),
            R::obeys_rules_spec() && admission(
                old(self)@.version,
                old(self)@.status,
                action@.expected_version,
                LifecycleOperation::ApplyAction,
            ) is Ok ==> match rules.verdict(
                action_context(old(self)@, action@),
                old(self)@.state,
                action@.payload,
            ) {
                Err(e) => r == Err::<AppliedTransition<R::Event>, GameExecutionError<R::Error>>(
                    GameExecutionError::ActionRejected(e),
                ),
                Ok(_) => r is Ok,
            },
            apply_outcome(
                *rules,
                old(self)@,
                action@,
                *old(random),
                applied_view(r),
                final(self)@,
                *final(random),
            ),
            R::obeys_rules_spec() && G::obeys_draw_spec() ==> (applied_view(r), final(self)@,
                *final(random)) == apply_spec(
                *rules,
                old(self)@,
                action@,
                *old(random),
            ),
            final(self)@.producible(),
    {
        proof {
            use_type_invariant(&self.lifecycle);
        }
        let next_version = match self.check_admission(
            action.expected_version(),
            LifecycleOperation::ApplyAction,
        ) {
            Ok(v) => v,
            Err(e) => {
                return Err(GameExecutionError::Session(e));
            },
        };
        let transition = {
            let context = ActionContext {
                session: &self.reference,
                actor: action.actor(),
                version: self.lifecycle.version,
            };
            match rules.validate(&context, &self.state, action.payload()) {
                Ok(()) => {},
                Err(e) => {
                    return Err(GameExecutionError::ActionRejected(e));
                },
            }
            rules.transition(&context, &self.state, action.payload(), random)
        };
        let ghost pre = self@;
        let ghost installed = transition@;
        let applied = self.commit(next_version, transition);
        proof {
            assert(commit_spec(pre, next_version@, installed) == (self@, applied@));
        }
        Ok(applied)
    }

    /// Installs the transition of an action admitted at `next_version`.
    fn commit<E>(&mut self, next_version: GameVersion, transition: Transition<S, E, O>) -> (r:
        AppliedTransition<E>)
        requires
            old(self)@.status == GameStatus::Active,
            next_version@ == old(self)@.version@ + 1,
            next_version@ <= MAX_SAFE_VERSION,
        ensures
            final(self)@ == (GameSessionView {
                reference: old(self)@.reference,
                version: next_version,
                status: if transition@.outcome is Some {
                    GameStatus::Finished
                } else {
                    GameStatus::Active
                },
                state: transition@.state,
                outcome: transition@.outcome,
            }),
            r@ == (AppliedView {
                prior_version: old(self)@.version,
                next_version,
                status: final(self)@.status,
                events: transition@.events,
            }),
    {
        proof {
            use_type_invariant(&self.lifecycle);
        }
        let Transition { state, events, outcome } = transition;
        let prior_version = self.lifecycle.version;
        let status = if outcome.is_some() {
            GameStatus::Finished
        } else {
            GameStatus::Active
        };
        self.state = state;
        self.lifecycle = Lifecycle { version: next_version, status, outcome };
        AppliedTransition { prior_version, next_version, status, events }
    }

    pub fn reference(&self) -> (r: &GameSessionRef)
        ensures
            *r == self@.reference,
    {
        &self.reference
    }

    pub fn version(&self) -> (r: GameVersion)
        ensures
            r == self@.version,
    {
        self.lifecycle.version
    }

    /// The current status; every session and snapshot holds a lifecycle/version/outcome
    /// combination the core can produce.
    pub fn status(&self) -> (r: GameStatus)
        ensures
            r == self@.status,
            self@.producible(),
    {
        proof {
            use_type_invariant(&self.lifecycle);
        }
        self.lifecycle.status
    }

    pub fn state(&self) -> (r: &S)
        ensures
            *r == self@.state,
    {
        &self.state
    }

    pub fn outcome(&self) -> (r: Option<&O>)
        ensures
            r is Some <==> self@.outcome is Some,
            r matches Some(o) ==> *o == self@.outcome->0,
    {
        self.lifecycle.outcome.as_ref()
    }

    pub fn into_state(self) -> (r: S)
        ensures
            r == self@.state,
    {
        self.state
    }

    /// Restores a snapshot. A snapshot only ever holds a combination the core can produce,
    /// so restoration always succeeds.
    pub fn restore(snapshot: GameSnapshot<S, O>) -> (r: Result<Self, SessionError>)
        ensures
            r matches Ok(session) && session@ == snapshot@ && session@.producible(),
    {
        proof {
            use_type_invariant(&snapshot.lifecycle);
        }
        Ok(GameSession {
            reference: snapshot.reference,
            state: snapshot.state,
            lifecycle: snapshot.lifecycle,
        })
    }
}

/// `snapshot` captures `live`: same reference, version and status, with the state and
/// outcome cloned.
pub open spec fn snapshot_of<S: Clone, O: Clone>(
    live: GameSessionView<S, O>,
    snapshot: GameSessionView<S, O>,
) -> bool {
    &&& snapshot.reference == live.reference
    &&& snapshot.version == live.version
    &&& snapshot.status == live.status
    &&& cloned(live.state, snapshot.state)
    &&& snapshot.outcome is Some <==> live.outcome is Some
    &&& snapshot.outcome is Some ==> cloned(live.outcome->0, snapshot.outcome->0)
}

impl<S: Clone, O: Clone> GameSession<S, O> {
    /// Captures the session: same reference, version and status, with the state and outcome
    /// cloned.
    pub fn snapshot(&self) -> (r: GameSnapshot<S, O>)
        ensures
            snapshot_of(self@, r@),
            r@.producible(),
    {
        proof {
            use_type_invariant(&self.lifecycle);
        }
        GameSnapshot {
            reference: self.reference.clone(),
            state: self.state.clone(),
            lifecycle: self.lifecycle.duplicate(),
        }
    }
}

/// Storage-neutral snapshot. Serialization is deliberately adapter-owned.
#[derive(Clone, Debug, Eq, PartialEq)]
pub struct GameSnapshot<S, O> {
    reference: GameSessionRef,
    state: S,
    lifecycle: Lifecycle<O>,
}

impl<S, O> View for GameSnapshot<S, O> {
    type V = GameSessionView<S, O>;

    closed spec fn view(&self) -> GameSessionView<S, O> {
        GameSessionView {
            reference: self.reference,
            version: self.lifecycle.version,
            status: self.lifecycle.status,
            state: self.state,
            outcome: self.lifecycle.outcome,
        }
    }
}

/// Decides `lifecycle_valid`.
fn lifecycle_allows(version: GameVersion, status: GameStatus, has_outcome: bool) -> (r: bool)
    ensures
        r == lifecycle_valid(version@, status, has_outcome),
{
    version.get() <= MAX_SAFE_VERSION && match status {
        GameStatus::Created => version.get() == 0 && !has_outcome,
        GameStatus::Active => version.get() > 0 && !has_outcome,
        GameStatus::Finished => version.get() > 1 && has_outcome,
    }
}

impl<S, O> GameSnapshot<S, O> {
    /// Creates a snapshot at a serialization boundary.
    ///
    /// Rejects, with `InvalidSnapshot`, lifecycle/version/outcome combinations the core
    /// cannot produce.
    pub fn new(
        reference: GameSessionRef,
        version: GameVersion,
        status: GameStatus,
        state: S,
        outcome: Option<O>,
    ) -> (r: Result<Self, SessionError>)
        ensures
            r is Ok <==> lifecycle_valid(version@, status, outcome is Some),
            r matches Ok(snapshot) ==> snapshot@ == (GameSessionView {
                reference,
                version,
                status,
                state,
                outcome,
            }),
            r matches Err(e) ==> e == SessionError::InvalidSnapshot,
    {
        if !lifecycle_allows(version, status, outcome.is_some()) {
            return Err(SessionError::InvalidSnapshot);
        }
        Ok(GameSnapshot { reference, state, lifecycle: Lifecycle { version, status, outcome } })
    }

    pub fn reference(&self) -> (r: &GameSessionRef)
        ensures
            *r == self@.reference,
    {
        &self.reference
    }

    pub fn version(&self) -> (r: GameVersion)
        ensures
            r == self@.version,
    {
        self.lifecycle.version
    }

    /// The current status; every session and snapshot holds a lifecycle/version/outcome
    /// combination the core can produce.
    pub fn status(&self) -> (r: GameStatus)
        ensures
            r == self@.status,
            self@.producible(),
    {
        proof {
            use_type_invariant(&self.lifecycle);
        }
        self.lifecycle.status
    }

    pub fn state(&self) -> (r: &S)
        ensures
            *r == self@.state,
    {
        &self.state
    }

    pub fn outcome(&self) -> (r: Option<&O>)
        ensures
            r is Some <==> self@.outcome is Some,
            r matches Some(o) ==> *o == self@.outcome->0,
    {
        self.lifecycle.outcome.as_ref()
    }
}

/// Core lifecycle and concurrency failures.
#[derive(Clone, Copy, Debug, Eq, PartialEq, Structural)]
pub enum SessionError {
    VersionConflict { expected: GameVersion, actual: GameVersion },
    InvalidLifecycleTransition { status: GameStatus, operation: LifecycleOperation },
    VersionExhausted,
    InvalidSnapshot,
}

impl SessionError {
    /// The stable machine-readable code of this error.
    pub open spec fn code_text(self) -> Seq<char> {
        match self {
            SessionError::VersionConflict { .. } => "GAME_VERSION_CONFLICT"@,
            SessionError::InvalidLifecycleTransition { .. } => "GAME_INVALID_LIFECYCLE_TRANSITION"@,
            SessionError::VersionExhausted => "GAME_VERSION_EXHAUSTED"@,
            SessionError::InvalidSnapshot => "GAME_INVALID_SNAPSHOT"@,
        }
    }

    pub fn code(self) -> (r: &'static str)
        ensures
            r@ == self.code_text(),
    {
        match self {
            SessionError::VersionConflict { .. } => "GAME_VERSION_CONFLICT",
            SessionError::InvalidLifecycleTransition { .. } => "GAME_INVALID_LIFECYCLE_TRANSITION",
            SessionError::VersionExhausted => "GAME_VERSION_EXHAUSTED",
            SessionError::InvalidSnapshot => "GAME_INVALID_SNAPSHOT",
        }
    }
}

/// Distinguishes core authority failures from concrete rule rejection.
#[derive(Clone, Debug, Eq, PartialEq)]
pub enum GameExecutionError<E> {
    Session(SessionError),
    ActionRejected(E),
}

impl<E> From<SessionError> for GameExecutionError<E> {
    fn from(error: SessionError) -> (r: Self) {
        GameExecutionError::Session(error)
    }
}

impl<E> vstd::std_specs::convert::FromSpecImpl<SessionError> for GameExecutionError<E> {
    open spec fn obeys_from_spec() -> bool {
        true
    }

    open spec fn from_spec(v: SessionError) -> Self {
        GameExecutionError::Session(v)
    }
}

/// A finished session refuses every further action: whatever version the caller expects,
/// the core's checks fail, so `apply` returns that session error and changes nothing.
pub proof fn lemma_finished_refuses_actions<S, O>(session: GameSessionView<S, O>, expected: GameVersion)
    requires
        session.status == GameStatus::Finished,
    ensures
        admission(session.version, session.status, expected, LifecycleOperation::ApplyAction) is Err,
        expected == session.version ==> admission(
            session.version,
            session.status,
            expected,
            LifecycleOperation::ApplyAction,
        ) == Err::<u64, SessionError>(
            SessionError::InvalidLifecycleTransition {
                status: GameStatus::Finished,
                operation: LifecycleOperation::ApplyAction,
            },
        ),
{
}

/// A session can be started only while it is created: once started (or finished), `start`
/// fails, whatever version the caller expects.
pub proof fn lemma_start_only_once<S, O>(session: GameSessionView<S, O>, expected: GameVersion)
    requires
        session.status != GameStatus::Created,
    ensures
        admission(session.version, session.status, expected, LifecycleOperation::Start) is Err,
{
}

/// An accepted action moves the version forward by exactly one and leaves a producible
/// lifecycle behind; a session is finished after it exactly when it produced an outcome.
pub proof fn lemma_accepted_advances_once<S, O, E>(
    pre: GameSessionView<S, O>,
    expected: GameVersion,
    post: GameSessionView<S, O>,
    applied: AppliedView<E>,
)
    requires
        pre.producible(),
        accepted(pre, expected, post, applied),
    ensures
        post.version@ == pre.version@ + 1,
        applied.next_version@ == applied.prior_version@ + 1,
        pre.status == GameStatus::Active,
        expected == pre.version,
        post.producible(),
        (post.status == GameStatus::Finished) == (post.outcome is Some),
{
}

/// Restoring a snapshot of a session gives back its reference, version and status, with
/// state and outcome as the snapshot's clones of them.
pub proof fn lemma_restore_snapshot_round_trip<S: Clone, O: Clone>(
    live: GameSessionView<S, O>,
    snapshot: GameSessionView<S, O>,
    restored: GameSessionView<S, O>,
)
    requires
        snapshot_of(live, snapshot),
        restored == snapshot,
    ensures
        restored.reference == live.reference,
        restored.version == live.version,
        restored.status == live.status,
        cloned(live.state, restored.state),
        restored.outcome is Some <==> live.outcome is Some,
        restored.outcome is Some ==> cloned(live.outcome->0, restored.outcome->0),
{
}

} // verus!
