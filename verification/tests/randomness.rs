use game_core::{
    randomness::{exchange_drawn, unbiased_index}, shuffle, RandomCheckpoint, RandomError, RandomSeed,
    RandomSource, SeededRandom,
};

/// A source that always returns the same word.
struct Constant(u64);

impl RandomSource for Constant {
    fn next_u64(&mut self) -> u64 {
        self.0
    }
}

/// A source that replays a fixed list of words, then repeats the last.
struct Scripted {
    words: Vec<u64>,
    next: usize,
}

impl RandomSource for Scripted {
    fn next_u64(&mut self) -> u64 {
        let word = self.words[self.next.min(self.words.len() - 1)];
        self.next += 1;
        word
    }
}

#[test]
fn seed_and_checkpoint_round_trip_their_values() {
    assert_eq!(RandomSeed::new(77).get(), 77);
    assert_eq!(RandomCheckpoint::new(91).get(), 91);
    let random = SeededRandom::new(RandomSeed::new(5));
    assert_eq!(random.checkpoint().get(), 5);
}

#[test]
fn restoring_a_checkpoint_replays_the_stream() {
    let mut random = SeededRandom::new(RandomSeed::new(123));
    random.next_u64();
    let checkpoint = random.checkpoint();
    let ahead: Vec<u64> = (0..5).map(|_| random.next_u64()).collect();
    let mut other = SeededRandom::new(RandomSeed::new(999));
    other.restore(checkpoint);
    let replayed: Vec<u64> = (0..5).map(|_| other.next_u64()).collect();
    assert_eq!(ahead, replayed);
    let mut persisted = SeededRandom::new(RandomSeed::new(0));
    persisted.restore(RandomCheckpoint::new(checkpoint.get()));
    assert_eq!(persisted.checkpoint(), checkpoint);
}

#[test]
fn next_u64_advances_the_state_by_the_pinned_increment() {
    let mut random = SeededRandom::new(RandomSeed::new(0));
    random.next_u64();
    assert_eq!(random.checkpoint().get(), 0x9e37_79b9_7f4a_7c15);
    let mut wrapped = SeededRandom::new(RandomSeed::new(u64::MAX));
    wrapped.next_u64();
    assert_eq!(wrapped.checkpoint().get(), 0x9e37_79b9_7f4a_7c14);
}

#[test]
fn empty_range_is_rejected_without_drawing() {
    let mut random = SeededRandom::new(RandomSeed::new(4));
    let before = random.checkpoint();
    assert_eq!(random.next_index(0), Err(RandomError::EmptyRange));
    assert_eq!(random.checkpoint(), before);
}

#[test]
fn indexes_stay_in_range() {
    let mut random = SeededRandom::new(RandomSeed::new(2024));
    for upper in 1..50usize {
        for _ in 0..20 {
            assert!(random.next_index(upper).unwrap() < upper);
        }
    }
    assert_eq!(random.next_index(1), Ok(0));
}

#[test]
fn rejection_sampling_discards_the_biased_low_draws() {
    // 2^64 mod 3 == 1, so only the draw 0 is rejected for a range of 3.
    assert_eq!(unbiased_index(3, 0), None);
    assert_eq!(unbiased_index(3, 1), Some(1));
    assert_eq!(unbiased_index(3, u64::MAX), Some(u64::MAX % 3));
    assert_eq!(unbiased_index(4, 0), Some(0));
    let mut scripted = Scripted {
        words: vec![0, 0, 7],
        next: 0,
    };
    assert_eq!(scripted.next_index(3), Ok(1));
    assert_eq!(scripted.next, 3);
    let mut constant = Constant(10);
    assert_eq!(constant.next_index(4), Ok(2));
}

#[test]
fn shuffle_is_a_seeded_fisher_yates_permutation() {
    let mut values: Vec<u8> = (0..10).collect();
    shuffle(&mut values, &mut SeededRandom::new(RandomSeed::new(42))).unwrap();
    let mut again: Vec<u8> = (0..10).collect();
    shuffle(&mut again, &mut SeededRandom::new(RandomSeed::new(42))).unwrap();
    assert_eq!(values, again);
    let mut sorted = values.clone();
    sorted.sort();
    assert_eq!(sorted, (0..10).collect::<Vec<u8>>());
}

#[test]
fn shuffle_swaps_each_position_with_the_drawn_index() {
    // Draws from ranges 3 then 2: the words 5 and 4 select indexes 2 and 0.
    let mut values = vec!['a', 'b', 'c'];
    let mut scripted = Scripted {
        words: vec![5, 4],
        next: 0,
    };
    shuffle(&mut values, &mut scripted).unwrap();
    assert_eq!(values, vec!['b', 'a', 'c']);
    let mut single = vec![9];
    let mut untouched = Constant(3);
    shuffle(&mut single, &mut untouched).unwrap();
    assert_eq!(single, vec![9]);
}

#[test]
fn random_error_codes_are_stable() {
    assert_eq!(RandomError::EmptyRange.code(), "GAME_RANDOM_EMPTY_RANGE");
    assert_eq!(RandomError::RangeTooLarge.code(), "GAME_RANDOM_RANGE_TOO_LARGE");
}

#[test]
fn a_fisher_yates_step_exchanges_the_drawn_position_with_the_last_of_the_range() {
    let mut values = vec![10, 20, 30, 40];
    exchange_drawn(&mut values, 3, 0);
    assert_eq!(values, vec![30, 20, 10, 40]);
    exchange_drawn(&mut values, 2, 1);
    assert_eq!(values, vec![30, 20, 10, 40]);
}

#[test]
fn shuffle_of_fewer_than_two_values_draws_nothing() {
    let mut random = SeededRandom::new(RandomSeed::new(6));
    let before = random.checkpoint();
    let mut empty: Vec<u8> = Vec::new();
    shuffle(&mut empty, &mut random).unwrap();
    assert!(empty.is_empty());
    assert_eq!(random.checkpoint(), before);
}
