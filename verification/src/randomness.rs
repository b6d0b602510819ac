//! Injected randomness: the `RandomSource` boundary, the pinned seeded stream, and shuffling.
use vstd::prelude::*;

verus! {

/// Pinned algorithm identifier for [`SeededRandom`].
pub const SEEDED_RANDOM_ALGORITHM: &'static str = "splitmix64-v1";

/// Increment added to the stream state before each draw.
pub const STREAM_INCREMENT: u64 = 0x9e37_79b9_7f4a_7c15;

/// Number of distinct `u64` values.
pub open spec fn word_count() -> int {
    0x1_0000_0000_0000_0000
}

/// `a * b`, reduced modulo 2^64.
pub open spec fn mul_mod64(a: u64, b: u64) -> u64 {
    ((a as nat * b as nat) % (word_count() as nat)) as u64
}

/// The stream state after one draw from state `state`.
pub open spec fn advance(state: u64) -> u64 {
    ((state as int + STREAM_INCREMENT as int) % word_count()) as u64
}

/// The value drawn once the stream state has become `state`: the SplitMix64 finaliser.
#[verifier::opaque]
pub open spec fn mix(state: u64) -> u64 {
    let a = mul_mod64(state ^ (state >> 30u64), 0xbf58_476d_1ce4_e5b9);
    let b = mul_mod64(a ^ (a >> 27u64), 0x94d0_49bb_1331_11eb);
    b ^ (b >> 31u64)
}

/// The draw that follows state `state`.
pub open spec fn draw_after(state: u64) -> u64 {
    mix(advance(state))
}

/// Rejection-sampling threshold for a range of `upper` values: 2^64 mod `upper`.
/// Draws below it are discarded so that every index is equally likely.
pub open spec fn rejection_threshold(upper: u64) -> u64 {
    (word_count() % (upper as int)) as u64
}

/// The index a draw selects from `0..upper`, or `None` when the draw is rejected.
pub open spec fn index_for_draw(upper: u64, draw: u64) -> Option<u64> {
    if draw >= rejection_threshold(upper) {
        Some(draw % upper)
    } else {
        None
    }
}

/// Invalid requests to a random source.
#[derive(Clone, Copy, Debug, Eq, PartialEq, Structural)]
pub enum RandomError {
    EmptyRange,
    RangeTooLarge,
}

impl RandomError {
    /// The stable machine-readable code of this error.
    pub open spec fn code_text(self) -> Seq<char> {
        match self {
            RandomError::EmptyRange => "GAME_RANDOM_EMPTY_RANGE"@,
            RandomError::RangeTooLarge => "GAME_RANDOM_RANGE_TOO_LARGE"@,
        }
    }

    pub fn code(self) -> (r: &'static str)
        ensures
            r@ == self.code_text(),
    {
        match self {
            RandomError::EmptyRange => "GAME_RANDOM_EMPTY_RANGE",
            RandomError::RangeTooLarge => "GAME_RANDOM_RANGE_TOO_LARGE",
        }
    }
}

/// Decides one rejection-sampling step: the index selected by `draw` from `0..upper`,
/// or `None` when the draw falls below the rejection threshold.
pub fn unbiased_index(upper: u64, draw: u64) -> (r: Option<u64>)
    requires
        upper > 0,
    ensures
        r == index_for_draw(upper, draw),
{
    let threshold = (u64::MAX - upper + 1) % upper;
    proof {
        vstd::arithmetic::div_mod::lemma_mod_sub_multiples_vanish(word_count(), upper as int);
    }
    if draw >= threshold {
        Some(draw % upper)
    } else {
        None
    }
}

/// The draws accepted by rejection sampling, `threshold..2^64`, split into whole blocks of
/// `upper` consecutive values, so each index in `0..upper` is selected by equally many draws.
pub proof fn lemma_accepted_draws_split_evenly(upper: u64)
    requires
        upper > 0,
    ensures
        (word_count() - rejection_threshold(upper)) % (upper as int) == 0,
        rejection_threshold(upper) < upper,
{
    let m = upper as int;
    let w = word_count();
    vstd::arithmetic::div_mod::lemma_fundamental_div_mod(w, m);
    assert(w - w % m == m * (w / m));
    vstd::arithmetic::div_mod::lemma_mod_multiples_basic(w / m, m);
    vstd::arithmetic::mul::lemma_mul_is_commutative(m, w / m);
}

/// Small injected randomness boundary used by deterministic rules.
///
/// A source whose draws are a function of its value (such as [`SeededRandom`]) says so with
/// `obeys_draw_spec` and gives that function as `draw_spec`; for other sources (an operating
/// system generator, say) nothing is claimed of what a draw returns.
pub trait RandomSource: Sized {
    /// `next_u64` returns, and leaves behind, exactly what `draw_spec` says. A source that
    /// does not say so is claimed nothing of.
    open spec fn obeys_draw_spec() -> bool {
        false
    }

    /// The word a source holding `self` draws next, and the source after that draw; only
    /// meaningful where `obeys_draw_spec` holds.
    open spec fn draw_spec(self) -> (u64, Self) {
        (0, self)
    }

    fn next_u64(&mut self) -> (r: u64)
        ensures
            Self::obeys_draw_spec() ==> (r, *final(self)) == (*old(self)).draw_spec(),
    ;

    /// Samples uniformly from `0..upper_exclusive` without modulo bias, by rejection sampling:
    /// draws until a word at or above the rejection threshold comes, and returns it modulo
    /// `upper_exclusive`.
    ///
    /// Rejects an empty range with `EmptyRange`, consuming nothing. A source that keeps
    /// producing rejected draws for 2^64 consecutive attempts cannot represent the range and
    /// gets `RangeTooLarge`.
    fn next_index(&mut self, upper_exclusive: usize) -> (r: Result<usize, RandomError>)
        ensures
            (r == Err::<usize, RandomError>(RandomError::EmptyRange)) <==> upper_exclusive == 0,
            upper_exclusive == 0 ==> *final(self) == *old(self),
            r matches Ok(i) ==> i < upper_exclusive,
            Self::obeys_draw_spec() ==> (r, *final(self)) == sample_by(
                |g: Self| g.draw_spec(),
                *old(self),
                upper_exclusive,
            ),
    {
        if upper_exclusive == 0 {
            return Err(RandomError::EmptyRange);
        }
        let upper = upper_exclusive as u64;
        let ghost start = *self;
        let mut attempts: u64 = 0;
        loop
            invariant
                upper == upper_exclusive,
                upper > 0,
                start == *old(self),
                Self::obeys_draw_spec() ==> sample_draws(
                    |g: Self| g.draw_spec(),
                    start,
                    upper,
                    u64::MAX as nat,
                ) == sample_draws(
                    |g: Self| g.draw_spec(),
                    *self,
                    upper,
                    (u64::MAX - attempts) as nat,
                ),
            decreases u64::MAX - attempts,
        {
            let draw = self.next_u64();
            match unbiased_index(upper, draw) {
                Some(index) => {
                    return Ok(index as usize);
                },
                None => {},
            }
            if attempts == u64::MAX {
                return Err(RandomError::RangeTooLarge);
            }
            attempts = attempts + 1;
        }
    }
}

/// Rejection sampling from `0..upper` on a source in state `source` whose draws are given by
/// `draw` (the word drawn and the state after it), with `retries` further draws allowed after
/// the first: the selected index (or `None` when every draw was rejected) and the state after
/// the last draw.
pub open spec fn sample_draws<G>(draw: spec_fn(G) -> (u64, G), source: G, upper: u64, retries: nat) -> (
    Option<u64>,
    G,
)
    decreases retries,
{
    let (word, next) = draw(source);
    match index_for_draw(upper, word) {
        Some(index) => (Some(index), next),
        None => if retries == 0 {
            (None, next)
        } else {
            sample_draws(draw, next, upper, (retries - 1) as nat)
        },
    }
}

/// What `next_index(upper)` returns, and leaves behind, on a source in state `source` whose
/// draws are given by `draw`.
pub open spec fn sample_by<G>(draw: spec_fn(G) -> (u64, G), source: G, upper: usize) -> (
    Result<usize, RandomError>,
    G,
) {
    if upper == 0 {
        (Err(RandomError::EmptyRange), source)
    } else {
        let (picked, after) = sample_draws(draw, source, upper as u64, u64::MAX as nat);
        (
            match picked {
                Some(index) => Ok(index as usize),
                None => Err(RandomError::RangeTooLarge),
            },
            after,
        )
    }
}

/// The draw function of a source type.
pub open spec fn draws_of<G: RandomSource>() -> spec_fn(G) -> (u64, G) {
    |g: G| g.draw_spec()
}

/// What `next_index(upper)` returns, and leaves behind, on a source whose draws follow
/// `draw_spec`.
pub open spec fn sample<G: RandomSource>(source: G, upper: usize) -> (Result<usize, RandomError>, G) {
    sample_by(draws_of::<G>(), source, upper)
}

/// Application-supplied or persisted seed material.
#[derive(Clone, Copy, Debug, Eq, Hash, PartialEq, Structural)]
pub struct RandomSeed(u64);

impl View for RandomSeed {
    type V = u64;

    closed spec fn view(&self) -> u64 {
        self.0
    }
}

impl RandomSeed {
    pub fn new(value: u64) -> (r: Self)
        ensures
            r@ == value,
    {
        RandomSeed(value)
    }

    pub fn get(self) -> (r: u64)
        ensures
            r == self@,
    {
        self.0
    }
}

/// Opaque position in the pinned seeded-random stream.
#[derive(Clone, Copy, Debug, Eq, Hash, PartialEq, Structural)]
pub struct RandomCheckpoint(u64);

impl View for RandomCheckpoint {
    type V = u64;

    closed spec fn view(&self) -> u64 {
        self.0
    }
}

impl RandomCheckpoint {
    /// Reconstructs a previously persisted checkpoint for the pinned seeded algorithm.
    pub fn new(value: u64) -> (r: Self)
        ensures
            r@ == value,
    {
        RandomCheckpoint(value)
    }

    pub fn get(self) -> (r: u64)
        ensures
            r == self@,
    {
        self.0
    }
}

/// Portable deterministic pseudo-random stream with a pinned algorithm (SplitMix64).
#[derive(Clone, Copy, Debug, Eq, PartialEq, Structural)]
pub struct SeededRandom {
    state: u64,
}

impl View for SeededRandom {
    type V = u64;

    /// The current stream state.
    closed spec fn view(&self) -> u64 {
        self.state
    }
}

impl SeededRandom {
    pub fn new(seed: RandomSeed) -> (r: Self)
        ensures
            r@ == seed@,
    {
        SeededRandom { state: seed.get() }
    }

    pub fn checkpoint(&self) -> (r: RandomCheckpoint)
        ensures
            r@ == self@,
    {
        RandomCheckpoint(self.state)
    }

    pub fn restore(&mut self, checkpoint: RandomCheckpoint)
        ensures
            final(self)@ == checkpoint@,
    {
        self.state = checkpoint.get();
    }
}

impl RandomSource for SeededRandom {
    open spec fn obeys_draw_spec() -> bool {
        true
    }

    closed spec fn draw_spec(self) -> (u64, Self) {
        (draw_after(self.state), SeededRandom { state: advance(self.state) })
    }

    fn next_u64(&mut self) -> (r: u64)
        ensures
            final(self)@ == advance(old(self)@),
            r == draw_after(old(self)@),
    {
        reveal(mix);
        self.state = self.state.wrapping_add(STREAM_INCREMENT);
        let mut value = self.state;
        value = (value ^ (value >> 30u64)).wrapping_mul(0xbf58_476d_1ce4_e5b9);
        value = (value ^ (value >> 27u64)).wrapping_mul(0x94d0_49bb_1331_11eb);
        value ^ (value >> 31u64)
    }
}

impl SeededRandom {
    /// The seeded stream draws `draw_after` of its state and moves the state by `advance`.
    pub proof fn lemma_draw_spec(self)
        ensures
            self.draw_spec().0 == draw_after(self@),
            self.draw_spec().1@ == advance(self@),
    {
    }

    /// Seeded streams in the same state are the same stream.
    pub proof fn lemma_same_state(a: SeededRandom, b: SeededRandom)
        requires
            a@ == b@,
        ensures
            a == b,
    {
    }
}

/// `s` with the entries at positions `i` and `j` exchanged.
pub open spec fn swapped<T>(s: Seq<T>, i: int, j: int) -> Seq<T> {
    s.update(i, s[j]).update(j, s[i])
}

/// The sequence left by the first `picks.len()` Fisher-Yates steps on `s`: step `k`
/// exchanges position `s.len() - 1 - k` with the drawn position `picks[k]`.
pub open spec fn fisher_yates<T>(s: Seq<T>, picks: Seq<int>) -> Seq<T>
    decreases picks.len(),
{
    if picks.len() == 0 {
        s
    } else {
        swapped(fisher_yates(s, picks.drop_last()), s.len() - picks.len(), picks.last())
    }
}

/// The number of Fisher-Yates steps for `n` values: one for each range `2..=n`.
pub open spec fn fisher_yates_steps(n: int) -> int {
    if n >= 2 {
        n - 1
    } else {
        0
    }
}

/// `picks` are indices that step `k` may draw from `0..n - k`.
pub open spec fn valid_picks(n: int, picks: Seq<int>) -> bool {
    &&& picks.len() <= fisher_yates_steps(n)
    &&& forall|k: int| 0 <= k < picks.len() ==> 0 <= #[trigger] picks[k] < n - k
}

/// Exchanging two entries keeps the same elements.
pub proof fn lemma_swapped_same_elements<T>(s: Seq<T>, i: int, j: int)
    requires
        0 <= i < s.len(),
        0 <= j < s.len(),
    ensures
        swapped(s, i, j).to_multiset() == s.to_multiset(),
{
    broadcast use vstd::seq_lib::group_to_multiset_ensures;
    broadcast use vstd::multiset::group_multiset_axioms;

    let s1 = s.update(i, s[j]);
    vstd::seq_lib::to_multiset_update(s, i, s[j]);
    vstd::seq_lib::to_multiset_update(s1, j, s[i]);
    if i == j {
        assert(swapped(s, i, j) =~= s);
    } else {
        assert(s1[j] == s[j]);
        assert(swapped(s, i, j).to_multiset() =~= s.to_multiset());
    }
}

/// Every Fisher-Yates prefix keeps the same elements.
pub proof fn lemma_fisher_yates_same_elements<T>(s: Seq<T>, picks: Seq<int>)
    requires
        valid_picks(s.len() as int, picks),
    ensures
        fisher_yates(s, picks).to_multiset() == s.to_multiset(),
        fisher_yates(s, picks).len() == s.len(),
    decreases picks.len(),
{
    if picks.len() > 0 {
        let prefix = picks.drop_last();
        assert forall|k: int| 0 <= k < prefix.len() implies 0 <= #[trigger] prefix[k] < s.len()
            - k by {
            assert(prefix[k] == picks[k]);
        }
        lemma_fisher_yates_same_elements(s, prefix);
        let k = picks.len() - 1;
        assert(0 <= picks[k] < s.len() - k);
        lemma_swapped_same_elements(fisher_yates(s, prefix), s.len() - picks.len(), picks.last());
    }
}

/// Exchanges two entries of a slice.
///
/// std documents `slice::swap` as exchanging the elements at `a` and `b` (leaving them as
/// they are when `a == b`) and panicking when either is out of bounds; this contract states
/// exactly that, and excludes the out-of-bounds inputs.
pub assume_specification<Item>[ <[Item]>::swap ](s: &mut [Item], a: usize, b: usize)
    requires
        a < old(s)@.len(),
        b < old(s)@.len(),
    ensures
        final(s)@ == old(s)@.update(a as int, old(s)@[b as int]).update(b as int, old(s)@[a as int]),
;

/// What shuffling the first `upper` positions of `values` returns on a source whose draws
/// follow `draw_spec`: for each range size from `upper` down to 2, the index `next_index`
/// draws is exchanged with the last position of the range; a range error stops the shuffle.
/// The result is the values, the verdict, and the source afterwards.
pub open spec fn shuffle_spec<T, G: RandomSource>(values: Seq<T>, upper: int, random: G) -> (
    Seq<T>,
    Result<(), RandomError>,
    G,
)
    decreases upper,
{
    if upper < 2 {
        (values, Ok(()), random)
    } else {
        let (picked, after) = sample(random, upper as usize);
        match picked {
            Ok(selected) => shuffle_spec(
                swapped(values, upper - 1, selected as int),
                upper - 1,
                after,
            ),
            Err(error) => (values, Err(error), after),
        }
    }
}

/// One Fisher-Yates step: exchanges position `upper - 1`, the last of the range still being
/// shuffled, with the drawn position `selected`.
pub fn exchange_drawn<T>(values: &mut [T], upper: usize, selected: usize)
    requires
        selected < upper <= old(values)@.len(),
    ensures
        final(values)@ == swapped(old(values)@, upper - 1, selected as int),
{
    values.swap(upper - 1, selected);
}

/// Shuffles a slice using the injected source and Fisher-Yates ordering: for each range
/// size `upper` from `values.len()` down to 2, draws an index from `0..upper` and exchanges
/// it with position `upper - 1`.
///
/// A random range error stops the shuffle and is returned, leaving the steps done so far.
pub fn shuffle<T, G: RandomSource>(values: &mut [T], random: &mut G) -> (r: Result<
    (),
    RandomError,
>)
    ensures
        G::obeys_draw_spec() ==> (final(values)@, r, *final(random)) == shuffle_spec(
            old(values)@,
            old(values)@.len() as int,
            *old(random),
        ),
        old(values)@.len() < 2 ==> r is Ok && final(values)@ == old(values)@ && *final(random)
            == *old(random),
        exists|picks: Seq<int>|
            {
                &&& valid_picks(old(values)@.len() as int, picks)
                &&& final(values)@ == fisher_yates(old(values)@, picks)
                &&& (r is Ok ==> picks.len() == fisher_yates_steps(old(values)@.len() as int))
            },
        r is Err ==> r == Err::<(), RandomError>(RandomError::RangeTooLarge),
        final(values)@.to_multiset() == old(values)@.to_multiset(),
{
    let n = values.len();
    let ghost unshuffled = values@;
    let ghost unused = *random;
    let ghost mut picks: Seq<int> = Seq::empty();
    let mut upper = n;
    while upper >= 2
        invariant
            values@.len() == n,
            unshuffled == old(values)@,
            unused == *old(random),
            unshuffled.len() == n,
            upper <= n,
            picks.len() == n - upper,
            valid_picks(n as int, picks),
            values@ == fisher_yates(unshuffled, picks),
            G::obeys_draw_spec() ==> shuffle_spec(unshuffled, n as int, unused) == shuffle_spec(
                values@,
                upper as int,
                *random,
            ),
            upper == n ==> *random == unused,
        decreases upper,
    {
        let ghost drawn_from = *random;
        let selected = match random.next_index(upper) {
            Ok(index) => index,
            Err(error) => {
                proof {
                    lemma_fisher_yates_same_elements(unshuffled, picks);
                }
                return Err(error);
            },
        };
        exchange_drawn(values, upper, selected);
        proof {
            let next = picks.push(selected as int);
            assert(next.drop_last() =~= picks);
            assert forall|k: int| 0 <= k < next.len() implies 0 <= #[trigger] next[k] < n - k by {
                if k < picks.len() {
                    assert(next[k] == picks[k]);
                }
            }
            picks = next;
        }
        upper = upper - 1;
    }
    proof {
        lemma_fisher_yates_same_elements(unshuffled, picks);
    }
    Ok(())
}

} // verus!
