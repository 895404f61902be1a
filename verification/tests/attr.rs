use mau::attr::{ParseError, Token};
use mau::config::{parse_memo_modes, KeyArgs, KeyMode, LifetimeMode, Modes, ThreadMode};

fn ident(word: &str) -> Token {
    Token::Ident(word.to_string())
}

fn words(key_args: &KeyArgs) -> Vec<&str> {
    key_args.args.iter().map(|w| w.as_str()).collect()
}

fn pairs(key_args: &KeyArgs) -> Vec<(&str, &str)> {
    key_args.named_args.iter().map(|p| (p.key.as_str(), p.value.as_str())).collect()
}

#[test]
fn no_tokens_read_as_no_arguments() {
    let key_args = KeyArgs::parse(&Vec::new()).unwrap();
    assert!(key_args.args.is_empty());
    assert!(key_args.named_args.is_empty());
}

#[test]
fn bare_words_are_read_in_order() {
    let tokens = vec![ident("local"), Token::Comma, ident("light")];
    let key_args = KeyArgs::parse(&tokens).unwrap();
    assert_eq!(words(&key_args), vec!["local", "light"]);
    assert!(key_args.named_args.is_empty());
}

#[test]
fn pairs_are_read_in_order() {
    let tokens = vec![
        ident("thread"),
        Token::Equals,
        ident("multi"),
        Token::Comma,
        ident("key"),
        Token::Equals,
        Token::Ref,
        Token::Comma,
        ident("lifetime"),
        Token::Equals,
        ident("program"),
    ];
    let key_args = KeyArgs::parse(&tokens).unwrap();
    assert!(key_args.args.is_empty());
    assert_eq!(
        pairs(&key_args),
        vec![("thread", "multi"), ("key", "ref"), ("lifetime", "program")]
    );
    assert_eq!(
        parse_memo_modes(&key_args),
        Ok(Modes { thread: ThreadMode::Multi, key: KeyMode::Ref, lifetime: LifetimeMode::Program })
    );
}

#[test]
fn words_and_pairs_may_mix() {
    let tokens = vec![
        ident("multi"),
        Token::Comma,
        ident("key"),
        Token::Equals,
        ident("val"),
        Token::Comma,
        ident("heavy"),
        Token::Comma,
    ];
    let key_args = KeyArgs::parse(&tokens).unwrap();
    assert_eq!(words(&key_args), vec!["multi", "heavy"]);
    assert_eq!(pairs(&key_args), vec![("key", "val")]);
}

#[test]
fn comma_may_follow_the_last_argument() {
    let key_args = KeyArgs::parse(&vec![ident("multi"), Token::Comma]).unwrap();
    assert_eq!(words(&key_args), vec!["multi"]);
}

#[test]
fn pair_without_value_is_refused() {
    let tokens = vec![ident("key"), Token::Equals];
    assert_eq!(KeyArgs::parse(&tokens).err(), Some(ParseError { position: 2 }));
    let tokens = vec![ident("key"), Token::Equals, Token::Comma, ident("multi")];
    assert_eq!(KeyArgs::parse(&tokens).err(), Some(ParseError { position: 2 }));
    let tokens = vec![ident("multi"), Token::Comma, ident("key"), Token::Equals, Token::Equals];
    assert_eq!(KeyArgs::parse(&tokens).err(), Some(ParseError { position: 4 }));
}

#[test]
fn stray_tokens_are_refused_where_they_stand() {
    assert_eq!(KeyArgs::parse(&vec![Token::Comma]).err(), Some(ParseError { position: 0 }));
    assert_eq!(KeyArgs::parse(&vec![Token::Ref]).err(), Some(ParseError { position: 0 }));
    assert_eq!(
        KeyArgs::parse(&vec![ident("multi"), ident("ptr")]).err(),
        Some(ParseError { position: 1 })
    );
    assert_eq!(
        KeyArgs::parse(&vec![ident("multi"), Token::Comma, Token::Comma]).err(),
        Some(ParseError { position: 2 })
    );
    assert_eq!(
        KeyArgs::parse(&vec![ident("multi"), Token::Comma, Token::Other]).err(),
        Some(ParseError { position: 2 })
    );
    assert_eq!(
        KeyArgs::parse(&vec![ident("key"), Token::Equals, ident("ptr"), Token::Other]).err(),
        Some(ParseError { position: 3 })
    );
}
