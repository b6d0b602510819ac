//! Participant identities and the minimal session roster.
use vstd::prelude::*;

use crate::identity::{is_reference_id, reference_id_ok};
use crate::text::{
    is_prefix, lemma_precedes_characterized, lemma_precedes_irreflexive, lemma_precedes_total,
    lemma_precedes_transitive, precedes, smaller_at, text_precedes,
};

verus! {

/// Stable identity for a participant in a game domain.
#[derive(Debug, Eq, Hash, Ord, PartialEq, PartialOrd)]
pub struct ParticipantId(String);

impl View for ParticipantId {
    type V = Seq<char>;

    closed spec fn view(&self) -> Seq<char> {
        self.0@
    }
}

impl ParticipantId {
    #[verifier::type_invariant]
    closed spec fn well_formed(self) -> bool {
        is_reference_id(self.0@)
    }

    /// Creates a participant identity: 1 to 160 characters, no leading or trailing
    /// whitespace, no control character.
    pub fn new(value: &str) -> (r: Result<Self, ParticipantError>)
        ensures
            r is Ok <==> is_reference_id(value@),
            r matches Ok(id) ==> id@ == value@,
            r matches Err(e) ==> e == ParticipantError::InvalidId,
    {
        if !reference_id_ok(value) {
            return Err(ParticipantError::InvalidId);
        }
        Ok(ParticipantId(value.to_owned()))
    }

    pub fn as_str(&self) -> (r: &str)
        ensures
            r@ == self@,
            is_reference_id(self@),
    {
        proof {
            use_type_invariant(self);
        }
        self.0.as_str()
    }

    fn same_as(&self, other: &ParticipantId) -> (r: bool)
        ensures
            r == (self@ == other@),
    {
        self.0 == other.0
    }
}

impl Clone for ParticipantId {
    fn clone(&self) -> (r: Self)
        ensures
            r == *self,
    {
        proof {
            use_type_invariant(self);
        }
        ParticipantId(self.0.clone())
    }
}

/// Generic participation state. Game-specific readiness and roles stay in the game rules.
#[derive(Clone, Copy, Debug, Eq, PartialEq, Structural)]
pub enum ParticipantStatus {
    Active,
    Left,
}

/// One participant and their session-level presence.
#[derive(Debug, Eq, PartialEq)]
pub struct Participant {
    id: ParticipantId,
    status: ParticipantStatus,
}

/// A participant's identity and presence.
pub type ParticipantView = (Seq<char>, ParticipantStatus);

impl View for Participant {
    type V = ParticipantView;

    closed spec fn view(&self) -> ParticipantView {
        (self.id@, self.status)
    }
}

impl Participant {
    pub fn new(id: ParticipantId) -> (r: Self)
        ensures
            r@ == (id@, ParticipantStatus::Active),
    {
        Participant { id, status: ParticipantStatus::Active }
    }

    pub fn id(&self) -> (r: &ParticipantId)
        ensures
            r@ == self@.0,
    {
        &self.id
    }

    pub fn status(&self) -> (r: ParticipantStatus)
        ensures
            r == self@.1,
    {
        self.status
    }

    pub fn is_active(&self) -> (r: bool)
        ensures
            r == (self@.1 == ParticipantStatus::Active),
    {
        match self.status {
            ParticipantStatus::Active => true,
            ParticipantStatus::Left => false,
        }
    }
}

impl Clone for Participant {
    fn clone(&self) -> (r: Self)
        ensures
            r == *self,
    {
        Participant { id: self.id.clone(), status: self.status }
    }
}

/// The entries of a roster are in strictly ascending identity order.
pub open spec fn ids_ascending(entries: Seq<ParticipantView>) -> bool {
    forall|i: int, j: int|
        0 <= i < j < entries.len() ==> text_precedes(#[trigger] entries[i].0, #[trigger] entries[j].0)
}

/// Some entry has identity `id`.
pub open spec fn has_id(entries: Seq<ParticipantView>, id: Seq<char>) -> bool {
    exists|i: int| 0 <= i < entries.len() && #[trigger] entries[i].0 == id
}

/// Some entry has identity `id` and is active.
pub open spec fn has_active(entries: Seq<ParticipantView>, id: Seq<char>) -> bool {
    exists|i: int|
        0 <= i < entries.len() && #[trigger] entries[i].0 == id && entries[i].1
            == ParticipantStatus::Active
}

/// Roster entries in ascending identity order are in `str` order: of two entries, the earlier
/// identity is a proper prefix of the later one, or has the smaller code point at the first
/// position where they differ.
pub proof fn lemma_roster_in_code_point_order(entries: Seq<ParticipantView>, i: int, j: int)
    requires
        ids_ascending(entries),
        0 <= i < j < entries.len(),
    ensures
        (entries[i].0.len() < entries[j].0.len() && is_prefix(entries[i].0, entries[j].0))
            || exists|k: int| smaller_at(entries[i].0, entries[j].0, k),
{
    assert(text_precedes(entries[i].0, entries[j].0));
    lemma_precedes_characterized(entries[i].0, entries[j].0);
}

/// `post` is what joining `id` makes of roster entries `pre`: nothing changes for an identity
/// ever registered; otherwise `id` is inserted, active.
pub open spec fn joins(pre: Seq<ParticipantView>, id: Seq<char>, post: Seq<ParticipantView>) -> bool {
    if has_id(pre, id) {
        post == pre
    } else {
        exists|k: int| 0 <= k <= pre.len() && post == pre.insert(k, (id, ParticipantStatus::Active))
    }
}

/// `post` is what `id` leaving makes of roster entries `pre`: an active entry of `id` is
/// marked as left; otherwise nothing changes.
pub open spec fn leaves(pre: Seq<ParticipantView>, id: Seq<char>, post: Seq<ParticipantView>) -> bool {
    &&& !has_id(pre, id) ==> post == pre
    &&& forall|i: int|
        0 <= i < pre.len() && #[trigger] pre[i].0 == id ==> (if pre[i].1 == ParticipantStatus::Left {
            post == pre
        } else {
            post == pre.update(i, (id, ParticipantStatus::Left))
        })
}

/// Some entry has identity `id` and is marked as left.
pub open spec fn has_left(entries: Seq<ParticipantView>, id: Seq<char>) -> bool {
    exists|i: int|
        0 <= i < entries.len() && #[trigger] entries[i].0 == id && entries[i].1
            == ParticipantStatus::Left
}

/// No identity occurs twice among the entries.
pub open spec fn distinct_ids(entries: Seq<ParticipantView>) -> bool {
    forall|i: int, j: int|
        0 <= i < entries.len() && 0 <= j < entries.len() && i != j ==> #[trigger] entries[i].0
            != #[trigger] entries[j].0
}

/// One call on a roster: `join` or `leave` of an identity.
pub enum RosterOp {
    Join(Seq<char>),
    Leave(Seq<char>),
}

/// `post` is what `op` makes of roster entries `pre`.
pub open spec fn performs(pre: Seq<ParticipantView>, op: RosterOp, post: Seq<ParticipantView>) -> bool {
    match op {
        RosterOp::Join(id) => joins(pre, id, post),
        RosterOp::Leave(id) => leaves(pre, id, post),
    }
}

/// `views` are the successive contents of a roster created empty and then changed by the
/// calls `ops`, in order.
pub open spec fn roster_history(views: Seq<Seq<ParticipantView>>, ops: Seq<RosterOp>) -> bool {
    &&& views.len() == ops.len() + 1
    &&& views[0] == Seq::<ParticipantView>::empty()
    &&& forall|k: int| 0 <= k < ops.len() ==> #[trigger] performs(views[k], ops[k], views[k + 1])
}

/// Call `k` of the history joined `id` and succeeded.
pub open spec fn joined_at(
    views: Seq<Seq<ParticipantView>>,
    ops: Seq<RosterOp>,
    k: int,
    id: Seq<char>,
) -> bool {
    ops[k] == RosterOp::Join(id) && !has_id(views[k], id)
}

/// Call `k` of the history made `id` leave and succeeded.
pub open spec fn left_at(views: Seq<Seq<ParticipantView>>, ops: Seq<RosterOp>, k: int, id: Seq<char>) -> bool {
    ops[k] == RosterOp::Leave(id) && has_active(views[k], id)
}

/// One of the first `m` calls joined `id` and succeeded.
pub open spec fn ever_joined(
    views: Seq<Seq<ParticipantView>>,
    ops: Seq<RosterOp>,
    m: int,
    id: Seq<char>,
) -> bool {
    exists|k: int| 0 <= k < m && #[trigger] joined_at(views, ops, k, id)
}

/// One of the first `m` calls made `id` leave and succeeded.
pub open spec fn ever_left(views: Seq<Seq<ParticipantView>>, ops: Seq<RosterOp>, m: int, id: Seq<char>) -> bool {
    exists|k: int| 0 <= k < m && #[trigger] left_at(views, ops, k, id)
}

/// The number of successful joins among the first `m` calls.
pub open spec fn join_count(views: Seq<Seq<ParticipantView>>, ops: Seq<RosterOp>, m: int) -> nat
    decreases m,
{
    if m <= 0 {
        0
    } else {
        join_count(views, ops, m - 1) + match ops[m - 1] {
            RosterOp::Join(id) => if !has_id(views[m - 1], id) {
                1nat
            } else {
                0nat
            },
            RosterOp::Leave(_) => 0nat,
        }
    }
}

proof fn lemma_step(pre: Seq<ParticipantView>, op: RosterOp, post: Seq<ParticipantView>, x: Seq<char>)
    requires
        performs(pre, op, post),
        distinct_ids(pre),
    ensures
        distinct_ids(post),
        has_id(post, x) == (has_id(pre, x) || op == RosterOp::Join(x)),
        has_active(post, x) == ((has_active(pre, x) && op != RosterOp::Leave(x)) || (op
            == RosterOp::Join(x) && !has_id(pre, x))),
        has_left(post, x) == (has_left(pre, x) || (op == RosterOp::Leave(x) && has_active(
            pre,
            x,
        ))),
        post.len() == pre.len() + match op {
            RosterOp::Join(id) => if !has_id(pre, id) {
                1int
            } else {
                0int
            },
            RosterOp::Leave(_) => 0int,
        },
{
    match op {
        RosterOp::Join(id) => {
            if !has_id(pre, id) {
                let k = choose|k: int|
                    0 <= k <= pre.len() && post == pre.insert(k, (id, ParticipantStatus::Active));
                // Entry j of `pre` sits at position `j` (before k) or `j + 1` (from k on).
                assert forall|j: int| 0 <= j < pre.len() implies post[if j < k {
                    j
                } else {
                    j + 1
                }] == pre[j] by {}
                assert(post[k] == (id, ParticipantStatus::Active));
                assert forall|i: int, j: int|
                    0 <= i < post.len() && 0 <= j < post.len() && i != j implies #[trigger] post[i].0
                    != #[trigger] post[j].0 by {
                    if i != k && j != k {
                        let pi = if i < k {
                            i
                        } else {
                            i - 1
                        };
                        let pj = if j < k {
                            j
                        } else {
                            j - 1
                        };
                        assert(post[i] == pre[pi]);
                        assert(post[j] == pre[pj]);
                    } else if i == k {
                        let pj = if j < k {
                            j
                        } else {
                            j - 1
                        };
                        assert(post[j] == pre[pj]);
                    } else {
                        let pi = if i < k {
                            i
                        } else {
                            i - 1
                        };
                        assert(post[i] == pre[pi]);
                    }
                }
                if has_id(pre, x) {
                    let m = choose|m: int| 0 <= m < pre.len() && #[trigger] pre[m].0 == x;
                    assert(post[if m < k { m } else { m + 1 }].0 == x);
                }
                if has_active(pre, x) {
                    let m = choose|m: int|
                        0 <= m < pre.len() && #[trigger] pre[m].0 == x && pre[m].1
                            == ParticipantStatus::Active;
                    assert(post[if m < k { m } else { m + 1 }] == pre[m]);
                }
                if has_left(pre, x) {
                    let m = choose|m: int|
                        0 <= m < pre.len() && #[trigger] pre[m].0 == x && pre[m].1
                            == ParticipantStatus::Left;
                    assert(post[if m < k { m } else { m + 1 }] == pre[m]);
                }
                if x == id {
                    assert(post[k].0 == x);
                }
                if has_id(post, x) {
                    let j = choose|j: int| 0 <= j < post.len() && #[trigger] post[j].0 == x;
                    if j < k {
                        assert(pre[j] == post[j]);
                    } else if j > k {
                        assert(pre[j - 1] == post[j]);
                    }
                }
                if has_active(post, x) {
                    let j = choose|j: int|
                        0 <= j < post.len() && #[trigger] post[j].0 == x && post[j].1
                            == ParticipantStatus::Active;
                    if j < k {
                        assert(pre[j] == post[j]);
                    } else if j > k {
                        assert(pre[j - 1] == post[j]);
                    }
                }
                if has_left(post, x) {
                    let j = choose|j: int|
                        0 <= j < post.len() && #[trigger] post[j].0 == x && post[j].1
                            == ParticipantStatus::Left;
                    if j < k {
                        assert(pre[j] == post[j]);
                    } else if j > k {
                        assert(pre[j - 1] == post[j]);
                    }
                }
            } else {
                if x == id {
                    assert(has_id(pre, x));
                }
            }
        },
        RosterOp::Leave(id) => {
            if has_id(pre, id) {
                let i = choose|i: int| 0 <= i < pre.len() && #[trigger] pre[i].0 == id;
                if pre[i].1 == ParticipantStatus::Active {
                    assert(post == pre.update(i, (id, ParticipantStatus::Left)));
                    assert(has_active(pre, id));
                    assert forall|a: int, b: int|
                        0 <= a < post.len() && 0 <= b < post.len() && a != b implies #[trigger] post[a].0
                        != #[trigger] post[b].0 by {
                        assert(post[a].0 == pre[a].0);
                        assert(post[b].0 == pre[b].0);
                    }
                    if has_id(pre, x) {
                        let m = choose|m: int| 0 <= m < pre.len() && #[trigger] pre[m].0 == x;
                        assert(post[m].0 == x);
                    }
                    if has_id(post, x) {
                        let m = choose|m: int| 0 <= m < post.len() && #[trigger] post[m].0 == x;
                        assert(pre[m].0 == x);
                    }
                    if x == id {
                        assert(post[i] == (id, ParticipantStatus::Left));
                        if has_active(post, x) {
                            let m = choose|m: int|
                                0 <= m < post.len() && #[trigger] post[m].0 == x && post[m].1
                                    == ParticipantStatus::Active;
                            assert(m != i);
                            assert(pre[m].0 == x);
                        }
                    } else {
                        if has_active(pre, x) {
                            let m = choose|m: int|
                                0 <= m < pre.len() && #[trigger] pre[m].0 == x && pre[m].1
                                    == ParticipantStatus::Active;
                            assert(post[m] == pre[m]);
                        }
                        if has_active(post, x) {
                            let m = choose|m: int|
                                0 <= m < post.len() && #[trigger] post[m].0 == x && post[m].1
                                    == ParticipantStatus::Active;
                            assert(post[m] == pre[m]);
                        }
                        if has_left(post, x) {
                            let m = choose|m: int|
                                0 <= m < post.len() && #[trigger] post[m].0 == x && post[m].1
                                    == ParticipantStatus::Left;
                            assert(post[m] == pre[m]);
                        }
                    }
                    if has_left(pre, x) {
                        let m = choose|m: int|
                            0 <= m < pre.len() && #[trigger] pre[m].0 == x && pre[m].1
                                == ParticipantStatus::Left;
                        assert(m != i);
                        assert(post[m] == pre[m]);
                    }
                } else {
                    assert(post == pre);
                    if has_active(pre, id) {
                        let m = choose|m: int|
                            0 <= m < pre.len() && #[trigger] pre[m].0 == id && pre[m].1
                                == ParticipantStatus::Active;
                        assert(m == i);
                    }
                }
            } else {
                if has_active(pre, id) {
                    let m = choose|m: int|
                        0 <= m < pre.len() && #[trigger] pre[m].0 == id && pre[m].1
                            == ParticipantStatus::Active;
                }
            }
        },
    }
}

proof fn lemma_history_prefix(
    views: Seq<Seq<ParticipantView>>,
    ops: Seq<RosterOp>,
    m: int,
    x: Seq<char>,
)
    requires
        roster_history(views, ops),
        0 <= m <= ops.len(),
    ensures
        distinct_ids(views[m]),
        has_id(views[m], x) == ever_joined(views, ops, m, x),
        has_active(views[m], x) == (ever_joined(views, ops, m, x) && !ever_left(
            views,
            ops,
            m,
            x,
        )),
        has_left(views[m], x) == ever_left(views, ops, m, x),
        views[m].len() == join_count(views, ops, m),
    decreases m,
{
    if m == 0 {
        assert(views[0] =~= Seq::<ParticipantView>::empty());
    } else {
        let p = m - 1;
        lemma_history_prefix(views, ops, p, x);
        assert(performs(views[p], ops[p], views[p + 1]));
        lemma_step(views[p], ops[p], views[m], x);
        // The first m calls are the first m - 1 and call m - 1.
        assert(ever_joined(views, ops, m, x) == (ever_joined(views, ops, p, x) || joined_at(
            views,
            ops,
            p,
            x,
        ))) by {
            if ever_joined(views, ops, m, x) {
                let k = choose|k: int| 0 <= k < m && #[trigger] joined_at(views, ops, k, x);
                if k < p {
                    assert(ever_joined(views, ops, p, x));
                }
            }
            if ever_joined(views, ops, p, x) {
                let k = choose|k: int| 0 <= k < p && #[trigger] joined_at(views, ops, k, x);
                assert(0 <= k < m);
            }
        }
        assert(ever_left(views, ops, m, x) == (ever_left(views, ops, p, x) || left_at(
            views,
            ops,
            p,
            x,
        ))) by {
            if ever_left(views, ops, m, x) {
                let k = choose|k: int| 0 <= k < m && #[trigger] left_at(views, ops, k, x);
                if k < p {
                    assert(ever_left(views, ops, p, x));
                }
            }
            if ever_left(views, ops, p, x) {
                let k = choose|k: int| 0 <= k < p && #[trigger] left_at(views, ops, k, x);
                assert(0 <= k < m);
            }
        }
        // Whoever has left was registered.
        if has_left(views[p], x) {
            let i = choose|i: int|
                0 <= i < views[p].len() && #[trigger] views[p][i].0 == x && views[p][i].1
                    == ParticipantStatus::Left;
            assert(has_id(views[p], x));
        }
        // Whoever is active has not left: an identity has one entry.
        if has_active(views[p], x) && has_left(views[p], x) {
            let i = choose|i: int|
                0 <= i < views[p].len() && #[trigger] views[p][i].0 == x && views[p][i].1
                    == ParticipantStatus::Active;
            let j = choose|j: int|
                0 <= j < views[p].len() && #[trigger] views[p][j].0 == x && views[p][j].1
                    == ParticipantStatus::Left;
            assert(i != j);
        }
    }
}

/// On a roster created empty and changed only by `join` and `leave`, `get` finds an identity
/// exactly when a `join` of it succeeded.
pub proof fn lemma_history_registered(
    views: Seq<Seq<ParticipantView>>,
    ops: Seq<RosterOp>,
    id: Seq<char>,
)
    requires
        roster_history(views, ops),
    ensures
        has_id(views[ops.len() as int], id) == ever_joined(views, ops, ops.len() as int, id),
{
    lemma_history_prefix(views, ops, ops.len() as int, id);
}

/// On a roster created empty and changed only by `join` and `leave`, a participant is active
/// exactly when a `join` of it succeeded and no `leave` of it has succeeded since; the entry
/// `get` finds is marked as left exactly when a `leave` of it succeeded.
pub proof fn lemma_history_status(views: Seq<Seq<ParticipantView>>, ops: Seq<RosterOp>, id: Seq<char>)
    requires
        roster_history(views, ops),
    ensures
        has_active(views[ops.len() as int], id) == (ever_joined(views, ops, ops.len() as int, id)
            && !ever_left(views, ops, ops.len() as int, id)),
        has_left(views[ops.len() as int], id) == ever_left(views, ops, ops.len() as int, id),
        forall|i: int|
            0 <= i < views[ops.len() as int].len() && #[trigger] views[ops.len() as int][i].0
                == id ==> (views[ops.len() as int][i].1 == ParticipantStatus::Left) == ever_left(
                views,
                ops,
                ops.len() as int,
                id,
            ),
{
    let n = ops.len() as int;
    lemma_history_prefix(views, ops, n, id);
    assert forall|i: int|
        0 <= i < views[n].len() && #[trigger] views[n][i].0 == id implies (views[n][i].1
        == ParticipantStatus::Left) == ever_left(views, ops, n, id) by {
        if ever_left(views, ops, n, id) {
            let j = choose|j: int|
                0 <= j < views[n].len() && #[trigger] views[n][j].0 == id && views[n][j].1
                    == ParticipantStatus::Left;
            if i != j {
                assert(views[n][i].0 != views[n][j].0);
            }
        }
    }
}

/// On a roster created empty and changed only by `join` and `leave`, the length is the number
/// of successful joins: identities are never erased.
pub proof fn lemma_history_length(views: Seq<Seq<ParticipantView>>, ops: Seq<RosterOp>)
    requires
        roster_history(views, ops),
    ensures
        views[ops.len() as int].len() == join_count(views, ops, ops.len() as int),
{
    lemma_history_prefix(views, ops, ops.len() as int, Seq::empty());
}

/// Minimal participant registry, ordered by identity. Capacity, teams, seats, and roles are
/// rule-owned policy.
#[derive(Debug, Eq, PartialEq)]
pub struct ParticipantRoster {
    participants: Vec<Participant>,
}

impl View for ParticipantRoster {
    type V = Seq<ParticipantView>;

    closed spec fn view(&self) -> Seq<ParticipantView> {
        self.participants@.map_values(|p: Participant| p@)
    }
}

impl ParticipantRoster {
    #[verifier::type_invariant]
    closed spec fn well_formed(self) -> bool {
        ids_ascending(self@)
    }

    pub fn new() -> (r: Self)
        ensures
            r@ == Seq::<ParticipantView>::empty(),
    {
        let r = ParticipantRoster { participants: Vec::new() };
        assert(r@ =~= Seq::<ParticipantView>::empty());
        r
    }

    /// Adds one active participant at its place in identity order.
    ///
    /// Returns `AlreadyExists`, changing nothing, when the identity has ever been registered.
    pub fn join(&mut self, id: ParticipantId) -> (r: Result<(), ParticipantError>)
        ensures
            has_id(old(self)@, id@) ==> r == Err::<(), ParticipantError>(
                ParticipantError::AlreadyExists,
            ) && final(self)@ == old(self)@,
            !has_id(old(self)@, id@) ==> r == Ok::<(), ParticipantError>(()) && exists|k: int|
                0 <= k <= old(self)@.len() && final(self)@ == old(self)@.insert(
                    k,
                    (id@, ParticipantStatus::Active),
                ),
            joins(old(self)@, id@, final(self)@),
            ids_ascending(final(self)@),
    {
        proof {
            use_type_invariant(&*self);
        }
        let n = self.participants.len();
        let mut k: usize = 0;
        while k < n && precedes(self.participants[k].id.as_str(), id.as_str())
            invariant
                n == self@.len(),
                self@ == old(self)@,
                ids_ascending(self@),
                k <= n,
                forall|i: int| 0 <= i < k ==> text_precedes(#[trigger] self@[i].0, id@),
            decreases n - k,
        {
            k += 1;
        }
        let ghost entries = self@;
        if k < n && self.participants[k].id.same_as(&id) {
            assert(entries[k as int].0 == id@);
            return Err(ParticipantError::AlreadyExists);
        }
        proof {
            // Everything from position k on follows `id`.
            if k < n {
                lemma_precedes_total(entries[k as int].0, id@);
            }
            assert forall|j: int| k <= j < n implies text_precedes(id@, #[trigger] entries[j].0) by {
                if j > k {
                    lemma_precedes_transitive(id@, entries[k as int].0, entries[j].0);
                }
            }
            assert forall|i: int| 0 <= i < n implies #[trigger] entries[i].0 != id@ by {
                lemma_precedes_irreflexive(id@);
            }
        }
        let participant = Participant::new(id);
        let ghost inserted = entries.insert(k as int, participant@);
        let mut updated: Vec<Participant> = Vec::new();
        std::mem::swap(&mut updated, &mut self.participants);
        updated.insert(k, participant);
        proof {
            assert(updated@.map_values(|p: Participant| p@) =~= inserted);
            assert forall|i: int, j: int|
                0 <= i < j < inserted.len() implies text_precedes(
                #[trigger] inserted[i].0,
                #[trigger] inserted[j].0,
            ) by {
                if j < k {
                } else if j == k {
                } else if i < k {
                    lemma_precedes_transitive(inserted[i].0, participant@.0, inserted[j].0);
                } else if i == k {
                } else {
                }
            }
        }
        self.participants = updated;
        Ok(())
    }

    /// Marks a participant as having left without erasing their identity.
    ///
    /// Returns `NotFound` for an unknown identity and `AlreadyLeft` for one that has left;
    /// either way nothing changes.
    pub fn leave(&mut self, id: &ParticipantId) -> (r: Result<(), ParticipantError>)
        ensures
            !has_id(old(self)@, id@) ==> r == Err::<(), ParticipantError>(
                ParticipantError::NotFound,
            ) && final(self)@ == old(self)@,
            forall|i: int|
                0 <= i < old(self)@.len() && #[trigger] old(self)@[i].0 == id@ ==> (if old(self)@[i].1
                    == ParticipantStatus::Left {
                    r == Err::<(), ParticipantError>(ParticipantError::AlreadyLeft)
                        && final(self)@ == old(self)@
                } else {
                    r == Ok::<(), ParticipantError>(())
                        && final(self)@ == old(self)@.update(i, (id@, ParticipantStatus::Left))
                }),
            has_id(old(self)@, id@) ==> has_id(final(self)@, id@),
            leaves(old(self)@, id@, final(self)@),
            ids_ascending(final(self)@),
    {
        proof {
            use_type_invariant(&*self);
        }
        match self.position(id) {
            None => Err(ParticipantError::NotFound),
            Some(k) => {
                let ghost entries = self@;
                proof {
                    assert forall|i: int|
                        0 <= i < entries.len() && #[trigger] entries[i].0 == id@ implies i
                        == k by {
                        if i != k {
                            lemma_precedes_irreflexive(id@);
                        }
                    }
                }
                if !self.participants[k].is_active() {
                    return Err(ParticipantError::AlreadyLeft);
                }
                let mut left = Participant { id: id.clone(), status: ParticipantStatus::Left };
                let mut updated: Vec<Participant> = Vec::new();
                std::mem::swap(&mut updated, &mut self.participants);
                updated.set_and_swap(k, &mut left);
                proof {
                    assert(updated@.map_values(|p: Participant| p@) =~= entries.update(
                        k as int,
                        (id@, ParticipantStatus::Left),
                    ));
                    assert forall|i: int|
                        0 <= i < entries.len() && #[trigger] entries[i].0 == id@ implies i
                        == k by {
                        if i != k {
                            lemma_precedes_irreflexive(id@);
                        }
                    }
                }
                self.participants = updated;
                assert(self@[k as int].0 == id@);
                Ok(())
            },
        }
    }

    /// The position of `id`, if it is registered.
    fn position(&self, id: &ParticipantId) -> (r: Option<usize>)
        ensures
            r is None <==> !has_id(self@, id@),
            r matches Some(k) ==> k < self@.len() && self@[k as int].0 == id@,
    {
        let n = self.participants.len();
        let mut k: usize = 0;
        while k < n
            invariant
                n == self@.len(),
                k <= n,
                forall|i: int| 0 <= i < k ==> #[trigger] self@[i].0 != id@,
            decreases n - k,
        {
            if self.participants[k].id.same_as(id) {
                assert(self@[k as int].0 == id@);
                return Some(k);
            }
            k += 1;
        }
        None
    }

    pub fn get(&self, id: &ParticipantId) -> (r: Option<&Participant>)
        ensures
            r is Some <==> has_id(self@, id@),
            r matches Some(p) ==> p@.0 == id@ && self@.contains(p@),
    {
        match self.position(id) {
            Some(k) => Some(&self.participants[k]),
            None => None,
        }
    }

    pub fn is_active(&self, id: &ParticipantId) -> (r: bool)
        ensures
            r == has_active(self@, id@),
    {
        proof {
            use_type_invariant(self);
        }
        match self.position(id) {
            Some(k) => {
                proof {
                    assert forall|i: int|
                        0 <= i < self@.len() && #[trigger] self@[i].0 == id@ implies i == k by {
                        if i != k {
                            lemma_precedes_irreflexive(id@);
                        }
                    }
                }
                self.participants[k].is_active()
            },
            None => false,
        }
    }

    pub fn len(&self) -> (r: usize)
        ensures
            r == self@.len(),
    {
        self.participants.len()
    }

    pub fn is_empty(&self) -> (r: bool)
        ensures
            r == (self@.len() == 0),
    {
        self.participants.len() == 0
    }

    /// The participants in ascending identity order.
    pub fn iter(&self) -> (r: &[Participant])
        ensures
            r@.map_values(|p: Participant| p@) == self@,
            ids_ascending(self@),
    {
        proof {
            use_type_invariant(self);
        }
        self.participants.as_slice()
    }
}

impl Clone for ParticipantRoster {
    fn clone(&self) -> (r: Self)
        ensures
            r@ == self@,
    {
        proof {
            use_type_invariant(self);
        }
        let n = self.participants.len();
        let mut copy: Vec<Participant> = Vec::new();
        let mut k: usize = 0;
        while k < n
            invariant
                n == self.participants@.len(),
                k <= n,
                copy@.len() == k,
                forall|i: int| 0 <= i < k ==> #[trigger] copy@[i] == self.participants@[i],
            decreases n - k,
        {
            copy.push(self.participants[k].clone());
            k += 1;
        }
        assert(copy@.map_values(|p: Participant| p@) =~= self@);
        ParticipantRoster { participants: copy }
    }
}

impl Default for ParticipantRoster {
    fn default() -> (r: Self)
        ensures
            r@ == Seq::<ParticipantView>::empty(),
    {
        ParticipantRoster::new()
    }
}

/// Invalid participant identity or lifecycle transition.
#[derive(Clone, Copy, Debug, Eq, PartialEq, Structural)]
pub enum ParticipantError {
    InvalidId,
    AlreadyExists,
    NotFound,
    AlreadyLeft,
}

impl ParticipantError {
    /// The stable machine-readable code of this error.
    pub open spec fn code_text(self) -> Seq<char> {
        match self {
            ParticipantError::InvalidId => "GAME_INVALID_PARTICIPANT_ID"@,
            ParticipantError::AlreadyExists => "GAME_PARTICIPANT_ALREADY_EXISTS"@,
            ParticipantError::NotFound => "GAME_PARTICIPANT_NOT_FOUND"@,
            ParticipantError::AlreadyLeft => "GAME_PARTICIPANT_ALREADY_LEFT"@,
        }
    }

    pub fn code(self) -> (r: &'static str)
        ensures
            r@ == self.code_text(),
    {
        match self {
            ParticipantError::InvalidId => "GAME_INVALID_PARTICIPANT_ID",
            ParticipantError::AlreadyExists => "GAME_PARTICIPANT_ALREADY_EXISTS",
            ParticipantError::NotFound => "GAME_PARTICIPANT_NOT_FOUND",
            ParticipantError::AlreadyLeft => "GAME_PARTICIPANT_ALREADY_LEFT",
        }
    }
}

} // verus!
