use password_cracking::PasswordGenerator;
use password_cracking::errors::CrackError;
use password_cracking::generator::brute_force::BruteForceGenerator;
use password_cracking::generator::dictionary::{DictionaryGenerator, PasswordMutation};
use password_cracking::generator::{create_generator, Generator, GeneratorMode};

#[test]
fn test_brute_force_simple() {
    let mut gen = BruteForceGenerator::new("abc".to_string(), 1, 2).unwrap();

    let passwords: Vec<String> = std::iter::from_fn(|| gen.next()).take(20).collect();

    assert_eq!(passwords[0], "a");
    assert_eq!(passwords[1], "b");
    assert_eq!(passwords[2], "c");
    assert_eq!(passwords[3], "aa");
    assert_eq!(passwords[4], "ab");
}

#[test]
fn test_total_combinations() {
    let gen = BruteForceGenerator::new("ab".to_string(), 1, 3).unwrap();
    assert_eq!(gen.total_combinations(), Some(2 + 4 + 8)); // 2^1 + 2^2 + 2^3
}

#[test]
fn test_brute_force_full_enumeration_and_reset() {
    let mut gen = BruteForceGenerator::new("ab".to_string(), 1, 2).unwrap();
    let first: Vec<String> = std::iter::from_fn(|| gen.next()).collect();
    assert_eq!(first, vec!["a", "b", "aa", "ab", "ba", "bb"]);
    assert_eq!(gen.next(), None);
    gen.reset();
    let second: Vec<String> = std::iter::from_fn(|| gen.next()).collect();
    assert_eq!(first, second);
}

#[test]
fn test_brute_force_construction_errors() {
    assert!(matches!(
        BruteForceGenerator::new("".to_string(), 1, 2),
        Err(CrackError::EmptyCharset)
    ));
    assert!(matches!(
        BruteForceGenerator::new("ab".to_string(), 3, 2),
        Err(CrackError::MinLengthExceedsMax)
    ));
    assert!(matches!(
        BruteForceGenerator::new("ab".to_string(), 1, 21),
        Err(CrackError::MaxLengthTooLarge)
    ));
}

#[test]
fn test_total_combinations_overflow_is_unknown() {
    // 62 symbols at length 20 overflow 64 bits: the count must be unknown,
    // never silently wrong.
    let charset: String = ('a'..='z')
        .chain('A'..='Z')
        .chain('0'..='9')
        .collect();
    let gen = BruteForceGenerator::new(charset, 1, 20).unwrap();
    assert_eq!(gen.total_combinations(), None);
}

#[test]
fn test_dictionary_generator() {
    let lines = vec![
        "password1".to_string(),
        "password2".to_string(),
        "password3".to_string(),
    ];
    let mut gen = DictionaryGenerator::new(lines).unwrap();

    assert_eq!(gen.next(), Some("password1".to_string()));
    assert_eq!(gen.next(), Some("password2".to_string()));
    assert_eq!(gen.next(), Some("password3".to_string()));
    assert_eq!(gen.next(), None);

    gen.reset();
    assert_eq!(gen.next(), Some("password1".to_string()));
}

#[test]
fn test_mutations() {
    let mutation = PasswordMutation::Capitalize;
    assert_eq!(mutation.apply("hello"), Some("Hello".to_string()));

    let mutation = PasswordMutation::L33tSpeak;
    assert_eq!(mutation.apply("password"), Some("p@$$w0rd".to_string()));
}

#[test]
fn test_mutation_case_folding() {
    assert_eq!(
        PasswordMutation::Uppercase.apply("abC"),
        Some("ABC".to_string())
    );
    assert_eq!(
        PasswordMutation::Lowercase.apply("AbC"),
        Some("abc".to_string())
    );
    assert_eq!(PasswordMutation::Capitalize.apply(""), None);
    assert_eq!(
        PasswordMutation::AppendNumbers { max_digits: 2 }.apply("x"),
        None
    );
}

#[test]
fn test_dictionary_cleaning_and_dedup() {
    let lines = vec![
        "  alpha  ".to_string(),
        "".to_string(),
        "# a comment".to_string(),
        "alpha".to_string(),
        "beta".to_string(),
    ];
    let mut gen = DictionaryGenerator::new(lines).unwrap();
    assert_eq!(gen.next(), Some("alpha".to_string()));
    assert_eq!(gen.next(), Some("beta".to_string()));
    assert_eq!(gen.next(), None);
    assert!(matches!(
        DictionaryGenerator::new(vec!["# only comments".to_string()]),
        Err(CrackError::EmptyWordlist)
    ));
}

#[test]
fn test_dictionary_with_mutations_order() {
    let gen = DictionaryGenerator::new(vec!["ab".to_string(), "cd".to_string()]).unwrap();
    let mut gen = gen.with_mutations(&[PasswordMutation::Uppercase]);
    let all: Vec<String> = std::iter::from_fn(|| gen.next()).collect();
    assert_eq!(all, vec!["ab", "AB", "cd", "CD"]);
    assert_eq!(gen.total_combinations(), Some(4));
}

#[test]
fn test_create_generator() {
    let mode = GeneratorMode::BruteForce {
        charset: "xy".to_string(),
        min_length: 1,
        max_length: 1,
    };
    let mut gen = create_generator(mode).unwrap();
    assert_eq!(gen.next(), Some("x".to_string()));
    assert_eq!(gen.next(), Some("y".to_string()));
    assert_eq!(gen.next(), None);

    let mode = GeneratorMode::Dictionary {
        lines: vec!["one".to_string()],
    };
    let gen: Generator = create_generator(mode).unwrap();
    assert_eq!(gen.total_combinations(), Some(1));
}
