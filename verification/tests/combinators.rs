use weighted_regexp::engine::{IntoWithInput, Regex, Semiring};
use weighted_regexp::grammars::{Or, Thunk};
use weighted_regexp::preds::{BytePred, CharPred};
use weighted_regexp::{delay, empty, has_match, is, many, AnyRegex, Match};

const FUEL: u64 = 100;

fn chars(s: &str) -> Vec<char> {
    s.chars().collect()
}

#[test]
fn alternation_scenario() {
    let a = is::<Match, CharPred>(CharPred::Is('a'));
    let b = is::<Match, CharPred>(CharPred::Is('b'));
    let mut re = a.or(b);
    let defs: Vec<AnyRegex<Match, CharPred>> = Vec::new();
    assert_eq!(has_match(&mut re, &defs, &chars("a"), FUEL), Some(true));
    assert_eq!(has_match(&mut re, &defs, &chars("b"), FUEL), Some(true));
    assert_eq!(has_match(&mut re, &defs, &chars("ab"), FUEL), Some(false));
    assert_eq!(has_match(&mut re, &defs, &chars(""), FUEL), Some(false));
}

#[test]
fn over_returns_the_weight() {
    let mut re = many(is::<Match, BytePred>(BytePred::Even));
    let defs: Vec<AnyRegex<Match, BytePred>> = Vec::new();
    let input: Vec<u8> = vec![2, 4, 6];
    assert!(re.over(&defs, &input, FUEL).unwrap().0);
    let input: Vec<u8> = vec![2, 3];
    assert!(!re.over(&defs, &input, FUEL).unwrap().0);
}

#[test]
fn active_reports_buffered_state() {
    let defs: Vec<AnyRegex<Match, BytePred>> = Vec::new();
    let mut re = many(is::<Match, BytePred>(BytePred::Even));
    assert!(!re.active());
    let c: u8 = 2;
    assert_eq!(re.shift(&defs, &c, Match::one(), FUEL), Some(Match(true)));
    assert!(re.active());
    re.reset();
    assert!(!re.active());
}

#[test]
fn shift_seeds_weights_per_symbol() {
    let defs: Vec<AnyRegex<Match, BytePred>> = Vec::new();
    let mut re = is::<Match, BytePred>(BytePred::Is(5)).seq(is(BytePred::Is(6)));
    let five: u8 = 5;
    let six: u8 = 6;
    assert_eq!(re.shift(&defs, &five, Match::one(), FUEL), Some(Match(false)));
    assert_eq!(re.shift(&defs, &six, Match::zero(), FUEL), Some(Match(true)));
    re.reset();
}

#[test]
fn empty_query_does_not_disturb_state() {
    let defs: Vec<AnyRegex<Match, BytePred>> = Vec::new();
    let re = many(is::<Match, BytePred>(BytePred::Even));
    assert_eq!(re.empty(&defs, FUEL), Some(true));
    let re = is::<Match, BytePred>(BytePred::Even);
    assert_eq!(re.empty(&defs, FUEL), Some(false));
}

#[test]
fn combinators_expose_the_uniform_operations() {
    let defs: Vec<AnyRegex<Match, BytePred>> = Vec::new();
    let mut node = Or {
        left: is::<Match, BytePred>(BytePred::Is(1)),
        right: empty(),
    };
    assert_eq!(Regex::empty(&node, &defs, FUEL), Some(true));
    assert!(!Regex::active(&node));
    let one: u8 = 1;
    assert_eq!(
        Regex::shift(&mut node, &defs, &one, Match::one(), FUEL),
        Some(Match(true))
    );
    Regex::reset(&mut node);
    let wrapped = AnyRegex::new(node);
    let input: Vec<u8> = vec![1];
    let mut wrapped = wrapped;
    assert_eq!(wrapped.over(&defs, &input, FUEL), Some(Match(true)));
}

#[test]
fn thunk_force_instantiates_once() {
    let defs = vec![is::<Match, BytePred>(BytePred::Is(9))];
    let mut th: Thunk<Match, BytePred> = Thunk { def: 0, value: None };
    assert!(th.value.is_none());
    assert!(th.force(&defs));
    assert!(th.value.is_some());
    assert!(th.force(&defs));
    let mut missing: Thunk<Match, BytePred> = Thunk { def: 3, value: None };
    assert!(!missing.force(&defs));
    assert!(missing.value.is_none());
}

#[test]
fn delayed_reset_discards_the_instance() {
    let defs = vec![many(is::<Match, BytePred>(BytePred::Is(9)))];
    let mut re = delay::<Match, BytePred>(0);
    let nine: u8 = 9;
    assert_eq!(re.shift(&defs, &nine, Match::one(), FUEL), Some(Match(true)));
    assert!(re.active());
    re.reset();
    assert!(!re.active());
    let input: Vec<u8> = vec![9];
    assert_eq!(has_match(&mut re, &defs, &input, FUEL), Some(true));
}

#[test]
fn weights_convert_with_input() {
    let sym: u8 = 3;
    assert!(true.into_with_input(&sym).0);
    assert!(!false.into_with_input(&sym).0);
    assert!(Match(true).into_with_input(&sym).0);
    assert!(!Match(false).into_with_input(&sym).0);
}
