use weighted_regexp::engine::Semiring;
use weighted_regexp::preds::BytePred;
use weighted_regexp::{delay, empty, has_match, is, many, AnyRegex, Match};

const FUEL: u64 = 100;

fn no_defs() -> Vec<AnyRegex<Match, BytePred>> {
    Vec::new()
}

fn run(re: &mut AnyRegex<Match, BytePred>, input: &[u8]) -> bool {
    let defs = no_defs();
    let input: Vec<u8> = input.to_vec();
    has_match(re, &defs, &input, FUEL).unwrap()
}

#[test]
fn epsilon_accepts_only_empty() {
    let mut re = empty::<Match, BytePred>();
    assert!(run(&mut re, b""));
    assert!(!run(&mut re, b"a"));
    assert!(!run(&mut re, b"ab"));
}

#[test]
fn single_symbol_accepts_exactly_one() {
    let mut re = is::<Match, BytePred>(BytePred::Is(7));
    assert!(!run(&mut re, &[]));
    assert!(run(&mut re, &[7]));
    assert!(!run(&mut re, &[8]));
    assert!(!run(&mut re, &[7, 7]));
}

#[test]
fn complement_inverts_matches() {
    let mut re = is::<Match, BytePred>(BytePred::Is(7)).not();
    assert!(run(&mut re, &[]));
    assert!(!run(&mut re, &[7]));
    assert!(run(&mut re, &[8]));
    assert!(run(&mut re, &[7, 7]));
}

#[test]
fn alternation_with_epsilon() {
    let any = is::<Match, BytePred>(BytePred::Gt(0));
    let mut re = any.or(empty());
    assert!(run(&mut re, &[]));
    assert!(run(&mut re, &[3]));
    assert!(!run(&mut re, &[3, 3]));
}

#[test]
fn conjunction_with_epsilon_is_impossible() {
    let something = is::<Match, BytePred>(BytePred::Gt(0));
    let mut re = something.and(empty());
    assert!(!run(&mut re, &[]));
    assert!(!run(&mut re, &[3]));
}

#[test]
fn and_numeric_scenario() {
    let hexes = many(is::<Match, BytePred>(BytePred::Gt(10)));
    let evens = many(is::<Match, BytePred>(BytePred::Even));
    let mut re = hexes.and(evens);
    assert!(run(&mut re, &[12, 14, 16]));
    assert!(!run(&mut re, &[12, 13]));
    assert!(run(&mut re, &[]));
    assert!(!run(&mut re, &[9]));
}

#[test]
fn sequence_epsilon_left_identity() {
    let mut plain = many(is::<Match, BytePred>(BytePred::Is(65)));
    let mut composed = empty().seq(plain.clone_reset());
    for input in [&b""[..], b"A", b"AA", b"AB", b"BA", b"AAAA"] {
        assert_eq!(run(&mut composed, input), run(&mut plain, input));
    }
}

#[test]
fn sequence_epsilon_right_identity() {
    let mut plain = many(is::<Match, BytePred>(BytePred::Is(65)));
    let mut composed = plain.clone_reset().seq(empty());
    for input in [&b""[..], b"A", b"AA", b"AB", b"BA", b"AAAA"] {
        assert_eq!(run(&mut composed, input), run(&mut plain, input));
    }
}

#[test]
fn repeat_epsilon_accepts_only_empty() {
    let mut re = many(empty::<Match, BytePred>());
    assert!(run(&mut re, b""));
    assert!(!run(&mut re, b"x"));
    assert!(!run(&mut re, b"xy"));
}

#[test]
fn repeat_always_accepts_empty() {
    let mut re = many(is::<Match, BytePred>(BytePred::Is(65)));
    assert!(run(&mut re, b""));
    let mut re = many(is::<Match, BytePred>(BytePred::Is(65)).not());
    assert!(run(&mut re, b""));
}

#[test]
fn repeat_repeat_collapses() {
    let mut once = many(is::<Match, BytePred>(BytePred::Is(65)));
    let mut twice = many(many(is::<Match, BytePred>(BytePred::Is(65))));
    for input in [&b""[..], b"A", b"AA", b"AB", b"BA", b"AAAA", b"AABA"] {
        assert_eq!(run(&mut twice, input), run(&mut once, input));
    }
}

#[test]
fn reset_makes_grammar_reusable() {
    let mut reused = many(is::<Match, BytePred>(BytePred::Is(65)));
    assert!(run(&mut reused, b"AAA"));
    assert!(!run(&mut reused, b"ABA"));
    let mut fresh = many(is::<Match, BytePred>(BytePred::Is(65)));
    assert_eq!(run(&mut reused, b"AA"), run(&mut fresh, b"AA"));
}

#[test]
fn clone_reset_gives_fresh_grammar() {
    let mut re = many(is::<Match, BytePred>(BytePred::Is(65)));
    assert!(run(&mut re, b"AA"));
    let mut copy = re.clone_reset();
    assert!(run(&mut copy, b"AAA"));
    assert!(!run(&mut copy, b"B"));
}

#[test]
fn delay_names_missing_definition() {
    let defs = no_defs();
    let mut re = delay::<Match, BytePred>(0);
    let input: Vec<u8> = vec![7];
    assert_eq!(has_match(&mut re, &defs, &input, FUEL), None);
}

#[test]
fn delay_with_no_fuel_reports_none() {
    let target = is::<Match, BytePred>(BytePred::Is(7));
    let defs = vec![target];
    let mut re = delay::<Match, BytePred>(0);
    let input: Vec<u8> = vec![7];
    assert_eq!(has_match(&mut re, &defs, &input, 0), None);
    assert_eq!(has_match(&mut re, &defs, &input, FUEL), Some(true));
}

#[test]
fn delayed_reference_matches_definition() {
    let target = is::<Match, BytePred>(BytePred::Is(7));
    let defs = vec![target];
    let mut re = delay::<Match, BytePred>(0);
    let input: Vec<u8> = vec![7];
    assert_eq!(has_match(&mut re, &defs, &input, FUEL), Some(true));
    let input: Vec<u8> = vec![8];
    assert_eq!(has_match(&mut re, &defs, &input, FUEL), Some(false));
    let input: Vec<u8> = Vec::new();
    assert_eq!(has_match(&mut re, &defs, &input, FUEL), Some(false));
}

#[test]
fn complement_of_epsilon_accepts_nonempty() {
    let mut re = empty::<Match, BytePred>().not();
    assert!(!run(&mut re, b""));
    assert!(run(&mut re, b"x"));
    assert!(run(&mut re, b"xy"));
}

#[test]
fn complement_of_repetition() {
    let mut re = many(is::<Match, BytePred>(BytePred::Even)).not();
    assert!(!run(&mut re, &[]));
    assert!(!run(&mut re, &[2, 4]));
    assert!(run(&mut re, &[2, 3]));
    assert!(run(&mut re, &[1]));
}

#[test]
fn repeat_any_accepts_everything() {
    let mut re = many(is::<Match, BytePred>(BytePred::Any));
    assert!(run(&mut re, b""));
    assert!(run(&mut re, b"a"));
    assert!(run(&mut re, b"hello"));
}

#[test]
fn single_never_matching_predicate() {
    let mut re = is::<Match, BytePred>(BytePred::Gt(255));
    assert!(!run(&mut re, &[]));
    assert!(!run(&mut re, &[0]));
    assert!(!run(&mut re, &[255]));
}

#[test]
fn sequence_two_symbols_scenario() {
    let mut re = is::<Match, BytePred>(BytePred::Is(5)).seq(is(BytePred::Is(6)));
    assert!(run(&mut re, &[5, 6]));
    assert!(!run(&mut re, &[]));
    assert!(!run(&mut re, &[5]));
    assert!(!run(&mut re, &[6]));
    assert!(!run(&mut re, &[6, 5]));
    assert!(!run(&mut re, &[5, 6, 6]));
}

#[test]
fn repeat_char_accepts_all_matching() {
    let mut re = many(is::<Match, BytePred>(BytePred::Is(65)));
    assert!(run(&mut re, b""));
    assert!(run(&mut re, b"A"));
    assert!(run(&mut re, b"AAAA"));
    assert!(!run(&mut re, b"AABA"));
    assert!(!run(&mut re, b"B"));
}

#[test]
fn weights_form_boolean_semiring() {
    assert!(!Match::zero().0);
    assert!(Match::one().0);
    assert!(Match(true).plus(Match(false)).0);
    assert!(!Match(false).plus(Match(false)).0);
    assert!(Match(true).times(Match(true)).0);
    assert!(!Match(true).times(Match(false)).0);
    assert!(Match(false).is_zero());
    assert!(!Match(true).is_zero());
}

#[test]
fn balanced_parens() {
    fn parens() -> AnyRegex<Match, BytePred> {
        let open = is(BytePred::Is(b'('));
        let close = is(BytePred::Is(b')'));
        many(open.seq(delay(0)).seq(close))
    }

    fn reference(s: &[u8]) -> bool {
        let mut depth: isize = 0;
        for &c in s {
            match c {
                b'(' => depth += 1,
                b')' => depth -= 1,
                _ => return false,
            }
            if depth < 0 {
                return false;
            }
        }
        depth == 0
    }

    let mut parens_re = parens();
    let defs = vec![parens()];
    let alphabet = b"()x";
    for len in 0..=8u32 {
        let count = 3usize.pow(len);
        for mut k in 0..count {
            let mut to_match: Vec<u8> = Vec::new();
            for _ in 0..len {
                to_match.push(alphabet[k % 3]);
                k /= 3;
            }
            let expected = reference(&to_match);
            let actual = has_match(&mut parens_re, &defs, &to_match, FUEL).unwrap();
            assert!(
                expected == actual,
                "{} {}",
                std::str::from_utf8(&to_match).unwrap(),
                if expected { "should match" } else { "should not match" },
            );
        }
    }
}
