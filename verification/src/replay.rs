//! Deterministic reconstruction of a session from recorded actions.
use vstd::prelude::*;

use crate::identity::GameSessionRef;
use crate::randomness::RandomSource;
use crate::session::{
    admission, apply_outcome, apply_spec, LifecycleOperation, AppliedTransition, AppliedView, GameAction, GameExecutionError, GameRules,
    GameSession, GameSessionView, GameSnapshot, GameStatus, GameVersion,
};

verus! {

/// Reconstructed authoritative state and the transitions generated while replaying.
#[derive(Clone, Debug, Eq, PartialEq)]
pub struct ReplayResult<S, O, E> {
    session: GameSession<S, O>,
    transitions: Vec<AppliedTransition<E>>,
}

/// The abstract value of a [`ReplayResult`].
pub struct ReplayView<S, O, E> {
    pub session: GameSessionView<S, O>,
    pub transitions: Seq<AppliedView<E>>,
}

impl<S, O, E> View for ReplayResult<S, O, E> {
    type V = ReplayView<S, O, E>;

    closed spec fn view(&self) -> ReplayView<S, O, E> {
        ReplayView {
            session: self.session@,
            transitions: self.transitions@.map_values(|t: AppliedTransition<E>| t@),
        }
    }
}

/// Result type shared by initial-state and snapshot replay operations.
pub type ReplayExecutionResult<R> = Result<
    ReplayResult<<R as GameRules>::State, <R as GameRules>::Outcome, <R as GameRules>::Event>,
    GameExecutionError<<R as GameRules>::Error>,
>;

impl<S, O, E> ReplayResult<S, O, E> {
    pub fn session(&self) -> (r: &GameSession<S, O>)
        ensures
            r@ == self@.session,
    {
        &self.session
    }

    pub fn transitions(&self) -> (r: &[AppliedTransition<E>])
        ensures
            r@.map_values(|t: AppliedTransition<E>| t@) == self@.transitions,
    {
        self.transitions.as_slice()
    }

    pub fn into_parts(self) -> (r: (GameSession<S, O>, Vec<AppliedTransition<E>>))
        ensures
            r.0@ == self@.session,
            r.1@.map_values(|t: AppliedTransition<E>| t@) == self@.transitions,
    {
        (self.session, self.transitions)
    }
}

/// A live run: `views[k + 1]`, `applied[k]` and `randoms[k + 1]` are a possible outcome of
/// `apply` accepting action `k` on session `views[k]` with a random source in state
/// `randoms[k]`, for every action applied so far.
pub open spec fn live_chain<R: GameRules, G: RandomSource>(
    rules: R,
    actions: Seq<GameAction<R::Action>>,
    views: Seq<GameSessionView<R::State, R::Outcome>>,
    randoms: Seq<G>,
    applied: Seq<AppliedView<R::Event>>,
) -> bool {
    &&& views.len() == applied.len() + 1
    &&& randoms.len() == applied.len() + 1
    &&& applied.len() <= actions.len()
    &&& forall|k: int|
        0 <= k < applied.len() ==> apply_outcome(
            rules,
            views[k],
            actions[k]@,
            randoms[k],
            Ok(#[trigger] applied[k]),
            views[k + 1],
            randoms[k + 1],
        )
}

/// `result`, with the random source left in state `random_end`, is what replaying `actions`
/// from session `start` and a source in state `random_start` gives: a live run of `apply` on
/// the actions in order. On success every action was accepted and the run's last session and
/// transitions are returned; on failure the first refused action's error is returned after the
/// ones before it were accepted, and nothing later is applied.
pub open spec fn replays<R: GameRules, G: RandomSource>(
    rules: R,
    start: GameSessionView<R::State, R::Outcome>,
    random_start: G,
    actions: Seq<GameAction<R::Action>>,
    result: Result<ReplayView<R::State, R::Outcome, R::Event>, GameExecutionError<R::Error>>,
    random_end: G,
) -> bool {
    match result {
        Ok(replayed) => exists|views: Seq<GameSessionView<R::State, R::Outcome>>, randoms: Seq<G>|
            {
                &&& live_chain(rules, actions, views, randoms, replayed.transitions)
                &&& replayed.transitions.len() == actions.len()
                &&& views[0] == start
                &&& randoms[0] == random_start
                &&& views[actions.len() as int] == replayed.session
                &&& randoms[actions.len() as int] == random_end
            },
        Err(error) => exists|
            views: Seq<GameSessionView<R::State, R::Outcome>>,
            randoms: Seq<G>,
            applied: Seq<AppliedView<R::Event>>,
        |
            {
                &&& live_chain(rules, actions, views, randoms, applied)
                &&& applied.len() < actions.len()
                &&& views[0] == start
                &&& randoms[0] == random_start
                &&& apply_outcome(
                    rules,
                    views[applied.len() as int],
                    actions[applied.len() as int]@,
                    randoms[applied.len() as int],
                    Err(error),
                    views[applied.len() as int],
                    random_end,
                )
            },
    }
}

/// The abstract value of what a replay returns.
pub open spec fn replay_view<S, O, E, X>(r: Result<ReplayResult<S, O, E>, GameExecutionError<X>>) -> Result<
    ReplayView<S, O, E>,
    GameExecutionError<X>,
> {
    match r {
        Ok(replayed) => Ok(replayed@),
        Err(error) => Err(error),
    }
}

/// What replaying `actions` from position `i` on, starting from `session` with the
/// transitions `done` already reported and a random source in state `random`, gives: each
/// action is applied exactly as `apply` does (`apply_spec`), in order; the first error stops
/// the replay and is returned; otherwise the final session and all transitions are. The
/// random source after the replay comes with the result.
pub open spec fn replay_from<R: GameRules, G: RandomSource>(
    rules: R,
    session: GameSessionView<R::State, R::Outcome>,
    actions: Seq<GameAction<R::Action>>,
    i: int,
    done: Seq<AppliedView<R::Event>>,
    random: G,
) -> (Result<ReplayView<R::State, R::Outcome, R::Event>, GameExecutionError<R::Error>>, G)
    decreases actions.len() - i,
{
    if i < 0 || i >= actions.len() {
        (Ok(ReplayView { session, transitions: done }), random)
    } else {
        let (r, post, after) = apply_spec(rules, session, actions[i]@, random);
        match r {
            Err(error) => (Err(error), after),
            Ok(applied) => replay_from(rules, post, actions, i + 1, done.push(applied), after),
        }
    }
}

/// The session `replay` starts from: created at `reference` with `initial_state`, then
/// started.
pub open spec fn started<S, O>(reference: GameSessionRef, initial_state: S) -> GameSessionView<S, O> {
    GameSessionView {
        reference,
        version: GameVersion::new_spec(1),
        status: GameStatus::Active,
        state: initial_state,
        outcome: None,
    }
}

/// Replay is live play: if applying `actions[k]` to `sessions[k]` with a random source in
/// state `randoms[k]` gave `applied[k]`, `sessions[k + 1]` and `randoms[k + 1]` for every `k`,
/// then replaying `actions` from `sessions[0]` and `randoms[0]` returns the last session with
/// exactly those transitions and leaves the source in the last state.
pub proof fn lemma_replay_is_live_play<R: GameRules, G: RandomSource>(
    rules: R,
    actions: Seq<GameAction<R::Action>>,
    sessions: Seq<GameSessionView<R::State, R::Outcome>>,
    applied: Seq<AppliedView<R::Event>>,
    randoms: Seq<G>,
)
    requires
        sessions.len() == actions.len() + 1,
        randoms.len() == actions.len() + 1,
        applied.len() == actions.len(),
        forall|k: int|
            0 <= k < actions.len() ==> #[trigger] apply_spec(
                rules,
                sessions[k],
                actions[k]@,
                randoms[k],
            ) == (Ok::<AppliedView<R::Event>, GameExecutionError<R::Error>>(applied[k]), sessions[k
                + 1], randoms[k + 1]),
    ensures
        replay_from(rules, sessions[0], actions, 0, Seq::empty(), randoms[0]) == (Ok::<
            ReplayView<R::State, R::Outcome, R::Event>,
            GameExecutionError<R::Error>,
        >(ReplayView { session: sessions[actions.len() as int], transitions: applied }), randoms[actions.len() as int]),
{
    lemma_live_suffix(rules, actions, sessions, applied, randoms, 0);
    assert(applied.take(0) =~= Seq::<AppliedView<R::Event>>::empty());
}

proof fn lemma_live_suffix<R: GameRules, G: RandomSource>(
    rules: R,
    actions: Seq<GameAction<R::Action>>,
    sessions: Seq<GameSessionView<R::State, R::Outcome>>,
    applied: Seq<AppliedView<R::Event>>,
    randoms: Seq<G>,
    j: int,
)
    requires
        0 <= j <= actions.len(),
        sessions.len() == actions.len() + 1,
        randoms.len() == actions.len() + 1,
        applied.len() == actions.len(),
        forall|k: int|
            0 <= k < actions.len() ==> #[trigger] apply_spec(
                rules,
                sessions[k],
                actions[k]@,
                randoms[k],
            ) == (Ok::<AppliedView<R::Event>, GameExecutionError<R::Error>>(applied[k]), sessions[k
                + 1], randoms[k + 1]),
    ensures
        replay_from(rules, sessions[j], actions, j, applied.take(j), randoms[j]) == (Ok::<
            ReplayView<R::State, R::Outcome, R::Event>,
            GameExecutionError<R::Error>,
        >(ReplayView { session: sessions[actions.len() as int], transitions: applied }), randoms[actions.len() as int]),
    decreases actions.len() - j,
{
    if j == actions.len() {
        assert(applied.take(j) =~= applied);
    } else {
        let _ = apply_spec(rules, sessions[j], actions[j]@, randoms[j]);
        assert(applied.take(j).push(applied[j]) =~= applied.take(j + 1));
        lemma_live_suffix(rules, actions, sessions, applied, randoms, j + 1);
    }
}

/// Every live run is a replay: if `apply` accepted each of `actions` in turn, going through
/// `views` and random states `randoms`, replaying `actions` from the first session and random
/// state may return the last session with those transitions and leave the last random state.
pub proof fn lemma_live_run_is_a_replay<R: GameRules, G: RandomSource>(
    rules: R,
    actions: Seq<GameAction<R::Action>>,
    views: Seq<GameSessionView<R::State, R::Outcome>>,
    randoms: Seq<G>,
    applied: Seq<AppliedView<R::Event>>,
)
    requires
        live_chain(rules, actions, views, randoms, applied),
        applied.len() == actions.len(),
    ensures
        replays(
            rules,
            views[0],
            randoms[0],
            actions,
            Ok(ReplayView { session: views[actions.len() as int], transitions: applied }),
            randoms[actions.len() as int],
        ),
{
    let replayed = ReplayView { session: views[actions.len() as int], transitions: applied };
    assert(live_chain(rules, actions, views, randoms, replayed.transitions));
}

/// Reconstructs a session from its initial state and ordered accepted actions.
///
/// The core starts the session at version zero, then enforces every recorded action's
/// version and lifecycle precondition. Returns the first lifecycle, version, or
/// domain-rule failure.
pub fn replay<R, G>(
    reference: GameSessionRef,
    initial_state: R::State,
    rules: &R,
    actions: Vec<GameAction<R::Action>>,
    random: &mut G,
) -> (r: ReplayExecutionResult<R>) where R: GameRules, G: RandomSource
    ensures
        replays(
            *rules,
            started(reference, initial_state),
            *old(random),
            actions@,
            replay_view(r),
            *final(random),
        ),
        actions@.len() > 0 && actions@[0]@.expected_version@ != 1 ==> *final(random)
            == *old(random),
        R::obeys_rules_spec() && G::obeys_draw_spec() ==> (replay_view(r), *final(random))
            == replay_from(
            *rules,
            started(reference, initial_state),
            actions@,
            0,
            Seq::empty(),
            *old(random),
        ),
{
    let mut session = GameSession::create(reference, initial_state);
    let zero = GameVersion::new(0);
    proof {
        GameVersion::lemma_same_number(zero, session@.version);
    }
    match session.start(zero) {
        Ok(v) => {
            proof {
                GameVersion::lemma_new_spec(1);
                GameVersion::lemma_same_number(v, GameVersion::new_spec(1));
                if actions@.len() > 0 && actions@[0]@.expected_version@ != 1 {
                    assert(actions@[0]@.expected_version != session@.version);
                }
            }
        },
        Err(e) => {
            return Err(GameExecutionError::Session(e));
        },
    }
    apply_recorded_actions(session, rules, actions, random)
}

/// Continues replay from a snapshot.
///
/// Returns the first action failure.
pub fn replay_from_snapshot<R, G>(
    snapshot: GameSnapshot<R::State, R::Outcome>,
    rules: &R,
    actions: Vec<GameAction<R::Action>>,
    random: &mut G,
) -> (r: ReplayExecutionResult<R>) where R: GameRules, G: RandomSource
    ensures
        replays(*rules, snapshot@, *old(random), actions@, replay_view(r), *final(random)),
        R::obeys_rules_spec() && G::obeys_draw_spec() ==> (replay_view(r), *final(random))
            == replay_from(*rules, snapshot@, actions@, 0, Seq::empty(), *old(random)),
{
    let session = match GameSession::restore(snapshot) {
        Ok(session) => session,
        Err(e) => {
            return Err(GameExecutionError::Session(e));
        },
    };
    apply_recorded_actions(session, rules, actions, random)
}

fn apply_recorded_actions<R, G>(
    initial: GameSession<R::State, R::Outcome>,
    rules: &R,
    actions: Vec<GameAction<R::Action>>,
    random: &mut G,
) -> (r: ReplayExecutionResult<R>) where R: GameRules, G: RandomSource
    ensures
        replays(*rules, initial@, *old(random), actions@, replay_view(r), *final(random)),
        actions@.len() > 0 && admission(
            initial@.version,
            initial@.status,
            actions@[0]@.expected_version,
            LifecycleOperation::ApplyAction,
        ) is Err ==> *final(random) == *old(random),
        R::obeys_rules_spec() && G::obeys_draw_spec() ==> (replay_view(r), *final(random))
            == replay_from(*rules, initial@, actions@, 0, Seq::empty(), *old(random)),
{
    let ghost start = initial@;
    let ghost random_start = *random;
    let mut session = initial;
    let mut transitions: Vec<AppliedTransition<R::Event>> = Vec::new();
    let ghost mut views: Seq<GameSessionView<R::State, R::Outcome>> = seq![start];
    let ghost mut randoms: Seq<G> = seq![random_start];
    let n = actions.len();
    let mut i: usize = 0;
    assert(transitions@.map_values(|t: AppliedTransition<R::Event>| t@) =~= Seq::<
        AppliedView<R::Event>,
    >::empty());
    while i < n
        invariant
            n == actions@.len(),
            i <= n,
            transitions@.len() == i,
            start == initial@,
            views[0] == start,
            views[i as int] == session@,
            randoms[0] == random_start,
            randoms[i as int] == *random,
            live_chain(
                *rules,
                actions@,
                views,
                randoms,
                transitions@.map_values(|t: AppliedTransition<R::Event>| t@),
            ),
            i == 0 ==> *random == *old(random),
            random_start == *old(random),
            R::obeys_rules_spec() && G::obeys_draw_spec() ==> replay_from(
                *rules,
                start,
                actions@,
                0,
                Seq::empty(),
                random_start,
            ) == replay_from(
                *rules,
                session@,
                actions@,
                i as int,
                transitions@.map_values(|t: AppliedTransition<R::Event>| t@),
                *random,
            ),
            i > 0 ==> admission(
                start.version,
                start.status,
                actions@[0]@.expected_version,
                LifecycleOperation::ApplyAction,
            ) is Ok,
        decreases n - i,
    {
        let ghost applied_before = transitions@.map_values(|t: AppliedTransition<R::Event>| t@);
        let ghost session_before = session@;
        let ghost random_before = *random;
        match session.apply(rules, &actions[i], random) {
            Ok(applied) => {
                proof {
                    views = views.push(session@);
                    randoms = randoms.push(*random);
                }
                transitions.push(applied);
                proof {
                    let now = transitions@.map_values(|t: AppliedTransition<R::Event>| t@);
                    assert(now =~= applied_before.push(applied@));
                    assert forall|k: int| 0 <= k < now.len() implies apply_outcome(
                        *rules,
                        views[k],
                        actions@[k]@,
                        randoms[k],
                        Ok(#[trigger] now[k]),
                        views[k + 1],
                        randoms[k + 1],
                    ) by {
                        if k < i {
                            assert(now[k] == applied_before[k]);
                        }
                    }
                }
            },
            Err(error) => {
                proof {
                    assert(live_chain(*rules, actions@, views, randoms, applied_before));
                    assert(apply_outcome(
                        *rules,
                        views[applied_before.len() as int],
                        actions@[applied_before.len() as int]@,
                        randoms[applied_before.len() as int],
                        Err(error),
                        views[applied_before.len() as int],
                        *random,
                    ));
                }
                return Err(error);
            },
        }
        i += 1;
    }
    let result = ReplayResult { session, transitions };
    proof {
        assert(result@.transitions == transitions@.map_values(
            |t: AppliedTransition<R::Event>| t@,
        ));
        assert(live_chain(*rules, actions@, views, randoms, result@.transitions));
    }
    Ok(result)
}

} // verus!
