//! The grammar of memoization attribute arguments: bare words and `key = value`
//! pairs, separated by commas.

use vstd::prelude::*;
use vstd::string::*;
use crate::config::{KeyArgs, NamedArg};

verus! {

/// One token of an attribute's arguments.
#[derive(Debug)]
pub enum Token {
    /// An identifier that is no keyword.
    Ident(String),
    /// The keyword `ref`.
    Ref,
    /// The sign `=`.
    Equals,
    /// A comma.
    Comma,
    /// Anything else.
    Other,
}

/// The tokens do not read as attribute arguments: the token at `position` cannot
/// stand where it does, or a value is missing there.
#[derive(Clone, Copy, Debug, PartialEq, Eq, Structural)]
pub struct ParseError {
    pub position: usize,
}

/// What a run of tokens reads as.
pub ghost struct Parsed {
    /// The bare words, in order.
    pub words: Seq<Seq<char>>,
    /// The names and values of the pairs, in order.
    pub pairs: Seq<(Seq<char>, Seq<char>)>,
    /// Whether the tokens were read to their end.
    pub complete: bool,
    /// Where reading ended.
    pub end: int,
}

/// What the tokens from position `i` on read as, where an argument may begin at `i`.
pub open spec fn read_from(tokens: Seq<Token>, i: int) -> Parsed
    decreases tokens.len() - i, 1int,
{
    if i < 0 || i >= tokens.len() {
        Parsed { words: Seq::empty(), pairs: Seq::empty(), complete: true, end: i }
    } else if tokens[i] is Ident && i + 1 < tokens.len() && tokens[i + 1] is Equals {
        if i + 2 < tokens.len() && (tokens[i + 2] is Ref || tokens[i + 2] is Ident) {
            let value = if tokens[i + 2] is Ref {
                "ref"@
            } else {
                tokens[i + 2]->Ident_0@
            };
            let rest = read_after(tokens, i + 3);
            Parsed {
                words: rest.words,
                pairs: seq![(tokens[i]->Ident_0@, value)] + rest.pairs,
                complete: rest.complete,
                end: rest.end,
            }
        } else {
            Parsed { words: Seq::empty(), pairs: Seq::empty(), complete: false, end: i + 2 }
        }
    } else if tokens[i] is Ident {
        let rest = read_after(tokens, i + 1);
        Parsed {
            words: seq![tokens[i]->Ident_0@] + rest.words,
            pairs: rest.pairs,
            complete: rest.complete,
            end: rest.end,
        }
    } else {
        Parsed { words: Seq::empty(), pairs: Seq::empty(), complete: false, end: i }
    }
}

/// What the tokens from position `j` on read as, where an argument ended at `j`:
/// a comma lets another argument follow, the end of the tokens ends the reading,
/// and no other token may stand there.
pub open spec fn read_after(tokens: Seq<Token>, j: int) -> Parsed
    decreases tokens.len() - j, 0int,
{
    if 0 <= j < tokens.len() && tokens[j] is Comma {
        read_from(tokens, j + 1)
    } else {
        Parsed {
            words: Seq::empty(),
            pairs: Seq::empty(),
            complete: j < 0 || j >= tokens.len(),
            end: j,
        }
    }
}

/// The bare words of attribute arguments, each as its characters.
pub open spec fn words_of(args: Seq<String>) -> Seq<Seq<char>> {
    Seq::new(args.len(), |i: int| args[i]@)
}

/// The pairs of attribute arguments, each as the characters of its name and value.
pub open spec fn pairs_of(named: Seq<NamedArg>) -> Seq<(Seq<char>, Seq<char>)> {
    Seq::new(named.len(), |i: int| (named[i].key@, named[i].value@))
}

impl KeyArgs {
    /// Reads attribute arguments from their tokens.
    ///
    /// An argument is a bare word or a pair `name = value`, where the value is a
    /// word or the keyword `ref`. Arguments are separated by commas, and a comma
    /// may follow the last. A pair without a value is refused at the place of the
    /// value, and any other token at its own place.
    pub fn parse(tokens: &Vec<Token>) -> (out: Result<KeyArgs, ParseError>)
        ensures
            match out {
                Ok(key_args) => {
                    &&& read_from(tokens@, 0).complete
                    &&& words_of(key_args.args@) == read_from(tokens@, 0).words
                    &&& pairs_of(key_args.named_args@) == read_from(tokens@, 0).pairs
                },
                Err(e) => !read_from(tokens@, 0).complete && e.position == read_from(
                    tokens@,
                    0,
                ).end,
            },
    {
        let n: usize = tokens.len();
        let mut args: Vec<String> = Vec::new();
        let mut named_args: Vec<NamedArg> = Vec::new();
        let mut pos: usize = 0;
        assert(words_of(args@) + read_from(tokens@, 0).words =~= read_from(tokens@, 0).words);
        assert(pairs_of(named_args@) + read_from(tokens@, 0).pairs =~= read_from(tokens@, 0).pairs);
        while pos < n
            invariant
                pos <= n,
                n == tokens@.len(),
                read_from(tokens@, 0).words == words_of(args@) + read_from(tokens@, pos as int).words,
                read_from(tokens@, 0).pairs == pairs_of(named_args@) + read_from(
                    tokens@,
                    pos as int,
                ).pairs,
                read_from(tokens@, 0).complete == read_from(tokens@, pos as int).complete,
                read_from(tokens@, 0).end == read_from(tokens@, pos as int).end,
            decreases n - pos,
        {
            let ghost here = read_from(tokens@, pos as int);
            let ghost words_before = words_of(args@);
            let ghost pairs_before = pairs_of(named_args@);
            let pair = pos + 1 < n && is_equals(&tokens[pos + 1]);
            let after: usize;
            match &tokens[pos] {
                Token::Ident(word) => {
                    if pair {
                        if pos + 2 >= n {
                            return Err(ParseError { position: pos + 2 });
                        }
                        let value = match &tokens[pos + 2] {
                            Token::Ref => String::from_str("ref"),
                            Token::Ident(value) => value.clone(),
                            _ => {
                                return Err(ParseError { position: pos + 2 });
                            },
                        };
                        named_args.push(NamedArg { key: word.clone(), value });
                        after = pos + 3;
                        assert(words_of(args@) =~= words_before);
                        assert(pairs_of(named_args@) =~= pairs_before + seq![
                            (tokens@[pos as int]->Ident_0@, value@),
                        ]);
                        assert(pairs_of(named_args@) + read_after(tokens@, after as int).pairs
                            =~= pairs_before + here.pairs);
                    } else {
                        args.push(word.clone());
                        after = pos + 1;
                        assert(pairs_of(named_args@) =~= pairs_before);
                        assert(words_of(args@) =~= words_before + seq![
                            tokens@[pos as int]->Ident_0@,
                        ]);
                        assert(words_of(args@) + read_after(tokens@, after as int).words
                            =~= words_before + here.words);
                    }
                },
                _ => {
                    return Err(ParseError { position: pos });
                },
            }
            if after >= n {
                assert(words_of(args@) + Seq::<Seq<char>>::empty() =~= words_of(args@));
                assert(pairs_of(named_args@) + Seq::<(Seq<char>, Seq<char>)>::empty() =~= pairs_of(
                    named_args@,
                ));
                return Ok(KeyArgs { args, named_args });
            }
            if !is_comma(&tokens[after]) {
                return Err(ParseError { position: after });
            }
            pos = after + 1;
        }
        assert(words_of(args@) + Seq::<Seq<char>>::empty() =~= words_of(args@));
        assert(pairs_of(named_args@) + Seq::<(Seq<char>, Seq<char>)>::empty() =~= pairs_of(
            named_args@,
        ));
        Ok(KeyArgs { args, named_args })
    }
}

fn is_equals(token: &Token) -> (yes: bool)
    ensures
        yes == (*token is Equals),
{
    match token {
        Token::Equals => true,
        _ => false,
    }
}

fn is_comma(token: &Token) -> (yes: bool)
    ensures
        yes == (*token is Comma),
{
    match token {
        Token::Comma => true,
        _ => false,
    }
}

} // verus!
