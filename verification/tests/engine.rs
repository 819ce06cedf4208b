use lsystem::LSystem;
use lsystem::Rules;
use lsystem::Seed;
use std::collections::HashMap;

fn fibonacci_rules() -> Rules<char> {
    let mut rules: Rules<char> = Rules::new();
    rules.introduce('a', vec!['b']);
    rules.introduce('b', vec!['a', 'b']);
    rules
}

fn fibonacci_system() -> LSystem<char> {
    LSystem::new(Seed::from(vec!['a']), fibonacci_rules())
}

#[test]
fn seed_from_keeps_symbols() {
    let seed = Seed::from(vec!['a', 'b', 'c']);
    assert_eq!(seed.symbols, vec!['a', 'b', 'c']);
    let seed = Seed::from(vec!['a']);
    assert_eq!(seed.symbols, vec!['a']);
}

#[test]
fn seed_try_from_empty_is_rejected() {
    let r: Option<Seed<char>> = Seed::try_from(Vec::new());
    assert!(r.is_none());
}

#[test]
fn seed_try_from_nonempty_keeps_symbols() {
    let r = Seed::try_from(vec!['a', 'b']);
    assert_eq!(r.unwrap().symbols, vec!['a', 'b']);
}

#[test]
fn introduce_registers_production() {
    let mut rules: Rules<char> = Rules::new();
    rules.introduce('a', vec!['a', 'b']);
    assert_eq!(rules.lookup(&'a').unwrap(), &vec!['a', 'b']);
    assert!(rules.lookup(&'b').is_none());
}

#[test]
fn introduce_empty_production_registers() {
    let mut rules: Rules<char> = Rules::new();
    rules.introduce('a', Vec::new());
    assert_eq!(rules.lookup(&'a').unwrap(), &Vec::<char>::new());
}

#[test]
fn introduce_first_wins() {
    let mut rules: Rules<char> = Rules::new();
    rules.introduce('a', vec!['b']);
    rules.introduce('a', vec!['a', 'b', 'c']);
    assert_eq!(rules.lookup(&'a').unwrap(), &vec!['b']);
}

#[test]
fn introduce_other_predecessor_still_registers() {
    let mut rules = fibonacci_rules();
    rules.introduce('c', vec!['d']);
    assert_eq!(rules.lookup(&'a').unwrap(), &vec!['b']);
    assert_eq!(rules.lookup(&'b').unwrap(), &vec!['a', 'b']);
    assert_eq!(rules.lookup(&'c').unwrap(), &vec!['d']);
}

#[test]
fn rules_equality_ignores_registration_order() {
    let mut r1: Rules<char> = Rules::new();
    r1.introduce('a', vec!['b']);
    r1.introduce('b', vec!['a', 'b']);
    let mut r2: Rules<char> = Rules::new();
    r2.introduce('b', vec!['a', 'b']);
    r2.introduce('a', vec!['b']);
    assert!(r1 == r2);
    let mut r3: Rules<char> = Rules::new();
    r3.introduce('a', vec!['b']);
    assert!(r1 != r3);
}

#[test]
fn new_copies_seed_into_state() {
    let system = LSystem::new(Seed::from(vec!['a']), fibonacci_rules());
    assert_eq!(system.state, vec!['a']);
    assert_eq!(system.seed.symbols, vec!['a']);
    assert!(system == fibonacci_system());
}

#[test]
fn new_with_default_seed_gives_empty_state() {
    let system: LSystem<char> = LSystem::new(Seed::default(), Rules::new());
    assert_eq!(system.state, Vec::<char>::new());
    assert!(system == LSystem::<char>::default());
}

#[test]
fn unmapped_symbol_is_left_in_place() {
    let mut rules: Rules<char> = Rules::new();
    rules.introduce('a', vec!['b', 'c']);
    let mut system = LSystem::new(Seed::from(vec!['x', 'a', 'x']), rules);
    assert_eq!(system.advance(), vec!['x', 'b', 'c', 'x']);
}

#[test]
fn advance_preserves_positional_order() {
    let mut rules: Rules<char> = Rules::new();
    rules.introduce('A', vec!['X', 'Y']);
    rules.introduce('B', vec!['Z']);
    let mut system = LSystem::new(Seed::from(vec!['A', 'B', 'A']), rules);
    assert_eq!(system.advance(), vec!['X', 'Y', 'Z', 'X', 'Y']);
}

#[test]
fn advance_is_deterministic() {
    let mut s1 = fibonacci_system();
    let mut s2 = fibonacci_system();
    assert!(s1 == s2);
    for _ in 0..8 {
        assert_eq!(s1.advance(), s2.advance());
        assert!(s1 == s2);
    }
}

#[test]
fn advance_never_signals_an_end() {
    let mut rules: Rules<char> = Rules::new();
    rules.introduce('a', Vec::new());
    let mut system = LSystem::new(Seed::from(vec!['a']), rules);
    assert_eq!(system.advance(), Vec::<char>::new());
    for _ in 0..4 {
        assert_eq!(system.advance(), Vec::<char>::new());
    }
    let mut empty_system: LSystem<char> = LSystem::default();
    for _ in 0..4 {
        assert_eq!(empty_system.advance(), Vec::<char>::new());
    }
}

#[test]
fn advance_leaves_seed_and_rules_untouched() {
    let mut system = fibonacci_system();
    system.advance();
    system.advance();
    assert_eq!(system.seed.symbols, vec!['a']);
    assert!(system.rules == fibonacci_rules());
}

#[test]
fn clone_is_an_independent_copy() {
    let mut original = fibonacci_system();
    let copy = original.clone();
    assert!(original == copy);
    original.advance();
    assert!(original != copy);
    assert_eq!(copy.state, vec!['a']);
}

#[test]
fn fibonacci_word_generations() {
    let mut system = fibonacci_system();
    assert_eq!(system.advance(), vec!['b']);
    assert_eq!(system.advance(), vec!['a', 'b']);
    assert_eq!(system.advance(), vec!['b', 'a', 'b']);
    assert_eq!(system.advance(), vec!['a', 'b', 'b', 'a', 'b']);
    assert_eq!(system.advance(), vec!['b', 'a', 'b', 'a', 'b', 'b', 'a', 'b']);
}

#[test]
fn fibonacci_word_lengths() {
    let mut system = fibonacci_system();
    let mut lengths: Vec<usize> = vec![system.state.len()];
    for _ in 0..5 {
        lengths.push(system.advance().len());
    }
    assert_eq!(lengths, vec![1, 1, 2, 3, 5, 8]);
}

fn sierpinski_production(symbol: char) -> Vec<char> {
    match symbol {
        'A' => vec!['A', '-', 'B', '+', 'A', '+', 'B', '-', 'A'],
        'B' => vec!['B', 'B'],
        other => vec![other],
    }
}

/// Symbol count of `symbol` expanded for `generations` steps, by direct
/// recursive expansion, independent of the engine.
fn expanded_count(
    symbol: char,
    generations: usize,
    cache: &mut HashMap<(char, usize), u64>,
) -> u64 {
    if generations == 0 {
        return 1;
    }
    if let Some(&n) = cache.get(&(symbol, generations)) {
        return n;
    }
    let mut total: u64 = 0;
    for child in sierpinski_production(symbol) {
        total += expanded_count(child, generations - 1, cache);
    }
    cache.insert((symbol, generations), total);
    total
}

#[test]
fn sierpinski_arrowhead_symbol_count() {
    let seed_symbols = vec!['A', '-', 'B', '-', 'B'];
    let mut rules: Rules<char> = Rules::new();
    rules.introduce('A', vec!['A', '-', 'B', '+', 'A', '+', 'B', '-', 'A']);
    rules.introduce('B', vec!['B', 'B']);
    let mut system = LSystem::new(Seed::from(seed_symbols.clone()), rules);
    let mut generation: Vec<char> = Vec::new();
    for _ in 0..9 {
        generation = system.advance();
    }
    let mut cache: HashMap<(char, usize), u64> = HashMap::new();
    let expected: u64 = seed_symbols
        .iter()
        .map(|&s| expanded_count(s, 9, &mut cache))
        .sum();
    assert_eq!(generation.len() as u64, expected);
}
