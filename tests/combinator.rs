use char_combinator::big_count::BigCount;
use char_combinator::counter::to_letters;
use char_combinator::non_repeating_strings_bigint::NonRepeatingStrings as BigStrings;
use char_combinator::non_repeating_strings_u128::NonRepeatingStrings;
use char_combinator::{CharCombinator, CombinatorError, DEFAULT_RANGE};

#[test]
fn default() {
    let mut c = CharCombinator::default();
    c.skip(1024).unwrap();
    assert_eq!(c.next().unwrap(), "sK");
}

#[test]
fn with_range() {
    let mut c = CharCombinator::new(&vec!['a', 'b', 'c']).unwrap();
    c.skip(1024).unwrap();
    assert_eq!(c.next().unwrap(), "ccabbb");
}

#[test]
fn start_at() {
    let mut c = CharCombinator::new_from(1024u64.into(), &vec!['a', 'b', 'c']).unwrap();
    assert_eq!(c.next().unwrap(), "ccabbb");
}

#[test]
fn default_skip_then_take() {
    let mut c = CharCombinator::default();
    c.skip(123).unwrap();
    assert_eq!(c.take(4).unwrap(), vec!["bt", "bu", "bv", "bw"]);
    assert_eq!(*c.current(), 127);
}

#[test]
fn default_range_order() {
    assert_eq!(DEFAULT_RANGE.len(), 52);
    assert_eq!(DEFAULT_RANGE[0], 'a');
    assert_eq!(DEFAULT_RANGE[25], 'z');
    assert_eq!(DEFAULT_RANGE[26], 'A');
    assert_eq!(DEFAULT_RANGE[51], 'Z');
}

#[test]
fn first_strings_over_default_range() {
    let mut c = CharCombinator::default();
    let v = c.take(54).unwrap();
    assert_eq!(v[0], "a");
    assert_eq!(v[25], "z");
    assert_eq!(v[26], "A");
    assert_eq!(v[51], "Z");
    assert_eq!(v[52], "aa");
    assert_eq!(v[53], "ab");
}

#[test]
fn encoder_exact_values() {
    let abc = ['a', 'b', 'c'];
    assert_eq!(to_letters(&abc, &0u128), "");
    assert_eq!(to_letters(&abc, &1u128), "a");
    assert_eq!(to_letters(&abc, &3u128), "c");
    assert_eq!(to_letters(&abc, &4u128), "aa");
    assert_eq!(to_letters(&abc, &12u128), "cc");
    assert_eq!(to_letters(&abc, &13u128), "aaa");
    assert_eq!(to_letters(&abc, &1025u128), "ccabbb");
    assert_eq!(to_letters(&['x'], &3u128), "xxx");
}

#[test]
fn encoder_is_deterministic() {
    let abc = ['a', 'b', 'c'];
    assert_eq!(to_letters(&abc, &777u128), to_letters(&abc, &777u128));
    let big = BigCount::from_u64(777);
    assert_eq!(to_letters(&abc, &big), to_letters(&abc, &big));
    assert_eq!(to_letters(&abc, &big), to_letters(&abc, &777u128));
}

#[test]
fn no_repeats_over_small_range() {
    let mut c = CharCombinator::new(&['a', 'b']).unwrap();
    let v = c.take(200).unwrap();
    for i in 0..v.len() {
        for j in (i + 1)..v.len() {
            assert_ne!(v[i], v[j]);
        }
    }
}

#[test]
fn length_blocks_over_small_range() {
    // over three symbols: 3 strings of length 1, 9 of length 2, 27 of length 3
    let mut c = CharCombinator::new(&['a', 'b', 'c']).unwrap();
    let v = c.take(39).unwrap();
    for i in 1..v.len() {
        assert!(v[i - 1].len() <= v[i].len());
    }
    assert_eq!(v.iter().filter(|s| s.len() == 1).count(), 3);
    assert_eq!(v.iter().filter(|s| s.len() == 2).count(), 9);
    assert_eq!(v.iter().filter(|s| s.len() == 3).count(), 27);
    assert_eq!(c.next().unwrap(), "aaaa");
}

#[test]
fn iterator_agrees_with_encoder() {
    let abc = ['a', 'b', 'c'];
    let mut c = CharCombinator::new_from(40, &abc).unwrap();
    for m in 1..=20u128 {
        assert_eq!(c.next().unwrap(), to_letters(&abc, &(40 + m)));
    }
}

#[test]
fn resuming_matches_starting_over() {
    let abc = ['a', 'b', 'c'];
    let mut resumed = CharCombinator::new_from(57, &abc).unwrap();
    let mut fresh = CharCombinator::new_from(0, &abc).unwrap();
    let all = fresh.take(58).unwrap();
    let once = resumed.next().unwrap();
    assert_eq!(once, all[57]);
    assert_eq!(once, to_letters(&abc, &58u128));
}

#[test]
fn empty_range_is_rejected() {
    let empty: [char; 0] = [];
    assert_eq!(CharCombinator::new(&empty).err(), Some(CombinatorError::InvalidAlphabet));
    assert_eq!(
        CharCombinator::new_from(5, &empty).err(),
        Some(CombinatorError::InvalidAlphabet)
    );
    assert_eq!(NonRepeatingStrings::new(&empty).err(), Some(CombinatorError::InvalidAlphabet));
    assert_eq!(BigStrings::new(&empty).err(), Some(CombinatorError::InvalidAlphabet));
    assert_eq!(
        BigStrings::new_from(BigCount::from_u64(3), &empty).err(),
        Some(CombinatorError::InvalidAlphabet)
    );
}

#[test]
fn bounded_counter_overflow_is_reported() {
    let mut c = CharCombinator::new_from(u128::MAX - 1, &['a', 'b']).unwrap();
    assert!(c.next().is_ok());
    assert_eq!(*c.current(), u128::MAX);
    assert_eq!(c.next(), Err(CombinatorError::CounterOverflow));
    assert_eq!(*c.current(), u128::MAX);
    let mut d = NonRepeatingStrings::new_from(u128::MAX - 3, &['a', 'b']).unwrap();
    assert_eq!(d.skip(4), Err(CombinatorError::CounterOverflow));
    assert_eq!(d.take(4), Err(CombinatorError::CounterOverflow));
    assert_eq!(*d.current(), u128::MAX - 3);
    assert_eq!(d.take(3).unwrap().len(), 3);
}

#[test]
fn u128_strategy_matches_scenarios() {
    let mut c = NonRepeatingStrings::default();
    c.skip(1024).unwrap();
    assert_eq!(c.next().unwrap(), "sK");
    let mut d = NonRepeatingStrings::new_from(1024, &['a', 'b', 'c']).unwrap();
    assert_eq!(d.next().unwrap(), "ccabbb");
    assert_eq!(*d.current(), 1025);
}

#[test]
fn bigint_strategy_matches_scenarios() {
    let mut c = BigStrings::default();
    c.skip(1024).unwrap();
    assert_eq!(c.next().unwrap(), "sK");
    let mut d = BigStrings::new(&['a', 'b', 'c']).unwrap();
    d.skip(1024).unwrap();
    assert_eq!(d.next().unwrap(), "ccabbb");
    let mut e = BigStrings::new_from(BigCount::from_u64(1024), &['a', 'b', 'c']).unwrap();
    assert_eq!(e.next().unwrap(), "ccabbb");
    assert_eq!(e.current().digits(), &vec![1025u32]);
    let mut f = BigStrings::default();
    f.skip(123).unwrap();
    assert_eq!(f.take(4).unwrap(), vec!["bt", "bu", "bv", "bw"]);
}

#[test]
fn bigint_strategy_passes_u128_max() {
    // 2^128 - 1 as base-2^32 digits, least significant first
    let max = BigCount::from_digits(vec![u32::MAX, u32::MAX, u32::MAX, u32::MAX]);
    let mut c = BigStrings::new_from(max, &['a', 'b']).unwrap();
    let at_max = to_letters(&['a', 'b'], &u128::MAX);
    let below = BigCount::from_digits(vec![u32::MAX - 1, u32::MAX, u32::MAX, u32::MAX]);
    let mut probe = BigStrings::new_from(below, &['a', 'b']).unwrap();
    assert_eq!(probe.next().unwrap(), at_max);
    let past = c.next().unwrap();
    assert_eq!(c.current().digits(), &vec![0, 0, 0, 0, 1]);
    // over {a, b}, n a's denote 2^n - 1
    assert_eq!(at_max, "a".repeat(128));
    assert_eq!(past, format!("{}b", "a".repeat(127)));
}

#[test]
fn big_count_digits_round_trip() {
    assert_eq!(BigCount::from_u64(0).digits(), &Vec::<u32>::new());
    assert_eq!(BigCount::from_u64(7).digits(), &vec![7]);
    assert_eq!(BigCount::from_u64(1 << 32).digits(), &vec![0, 1]);
    assert_eq!(BigCount::from_u64(112500000000).digits(), &vec![830850304, 26]);
}

#[test]
fn bigint_counter_advances_across_digit_boundary() {
    let start = BigCount::from_u64(u32::MAX as u64);
    let mut c = BigStrings::new_from(start, &['a', 'b', 'c']).unwrap();
    let s = c.next().unwrap();
    assert_eq!(c.current().digits(), &vec![0, 1]);
    assert_eq!(s, to_letters(&['a', 'b', 'c'], &(1u128 << 32)));
}
