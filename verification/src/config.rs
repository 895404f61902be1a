//! Configuration of a memoized function: the three modes, the attribute
//! arguments they are read from, and the errors raised at setup.

use vstd::prelude::*;
use vstd::string::*;

verus! {

/// How a reference parameter enters the cache key.
#[derive(Clone, Copy, Debug, PartialEq, Eq, Structural)]
pub enum KeyMode {
    /// By the address of the referent, and its length if it is a sequence.
    Ptr,
    /// By address and content: equal addresses match at once, else contents are compared.
    Ref,
    /// By content alone.
    Val,
}

/// Where the cache of a function is stored.
#[derive(Clone, Copy, Debug, PartialEq, Eq, Structural)]
pub enum ThreadMode {
    /// One cache for each thread.
    Single,
    /// One cache shared by all threads, behind a lock.
    Multi,
}

/// How long cache entries live.
#[derive(Clone, Copy, Debug, PartialEq, Eq, Structural)]
pub enum LifetimeMode {
    /// Entries live for one top-level call.
    Problem,
    /// Entries live as long as the storage does.
    Program,
}

/// Why a function cannot be memoized as configured.
#[derive(Clone, Copy, Debug, PartialEq, Eq, Structural)]
pub enum ConfigError {
    /// A named argument other than `thread`, `key` and `lifetime`; `index` is its position.
    UnknownOption { index: usize },
    /// A thread mode other than `single` and `multi`.
    UnrecognizedThreadMode,
    /// A key mode other than `ptr`, `ref` and `val`.
    UnrecognizedKeyMode,
    /// A lifetime mode other than `problem` and `program`.
    UnrecognizedLifetimeMode,
    /// The parameter at `index` is not a plain named binding.
    UnsupportedPattern { index: usize },
    /// The parameter at `index` is a `self` receiver.
    ReceiverParameter { index: usize },
    /// The parameter at `index` is a mutable reference.
    MutableReference { index: usize },
}

/// The modes a memoized function runs under.
#[derive(Clone, Copy, Debug, PartialEq, Eq, Structural)]
pub struct Modes {
    pub thread: ThreadMode,
    pub key: KeyMode,
    pub lifetime: LifetimeMode,
}

/// An attribute argument of the form `key = value`.
pub struct NamedArg {
    pub key: String,
    pub value: String,
}

/// The arguments of a memoization attribute: bare words and `key = value` pairs,
/// each list in source order.
pub struct KeyArgs {
    pub args: Vec<String>,
    pub named_args: Vec<NamedArg>,
}

/// The thread mode that a `thread = ..` value names.
pub open spec fn thread_token(s: Seq<char>) -> Option<ThreadMode> {
    if s == "single"@ {
        Some(ThreadMode::Single)
    } else if s == "multi"@ {
        Some(ThreadMode::Multi)
    } else {
        None
    }
}

/// The key mode that a `key = ..` value names.
pub open spec fn key_token(s: Seq<char>) -> Option<KeyMode> {
    if s == "ptr"@ {
        Some(KeyMode::Ptr)
    } else if s == "ref"@ {
        Some(KeyMode::Ref)
    } else if s == "val"@ {
        Some(KeyMode::Val)
    } else {
        None
    }
}

/// The lifetime mode that a `lifetime = ..` value names.
pub open spec fn lifetime_token(s: Seq<char>) -> Option<LifetimeMode> {
    if s == "problem"@ {
        Some(LifetimeMode::Problem)
    } else if s == "program"@ {
        Some(LifetimeMode::Program)
    } else {
        None
    }
}

/// The thread mode that a bare word names; `local` is the older name of `single`.
pub open spec fn bare_thread_token(s: Seq<char>) -> Option<ThreadMode> {
    if s == "local"@ {
        Some(ThreadMode::Single)
    } else {
        thread_token(s)
    }
}

/// The key mode that a bare word names; `light`, `normal` and `heavy` are
/// the older names of `ptr`, `ref` and `val`.
pub open spec fn bare_key_token(s: Seq<char>) -> Option<KeyMode> {
    if s == "light"@ {
        Some(KeyMode::Ptr)
    } else if s == "normal"@ {
        Some(KeyMode::Ref)
    } else if s == "heavy"@ {
        Some(KeyMode::Val)
    } else {
        key_token(s)
    }
}

/// Whether `s` is the name of an option.
pub open spec fn is_option_name(s: Seq<char>) -> bool {
    s == "thread"@ || s == "key"@ || s == "lifetime"@
}

/// The position of the first named argument among the first `n` whose name is no option.
pub open spec fn first_unknown_option(named: Seq<NamedArg>, n: int) -> Option<int>
    decreases n,
{
    if n <= 0 {
        None
    } else {
        match first_unknown_option(named, n - 1) {
            Some(i) => Some(i),
            None => if is_option_name(named[n - 1].key@) {
                None
            } else {
                Some(n - 1)
            },
        }
    }
}

/// The value given last for the option `name` among the first `n` named arguments.
pub open spec fn last_value(named: Seq<NamedArg>, name: Seq<char>, n: int) -> Option<Seq<char>>
    decreases n,
{
    if n <= 0 {
        None
    } else if named[n - 1].key@ == name {
        Some(named[n - 1].value@)
    } else {
        last_value(named, name, n - 1)
    }
}

/// The modes that named arguments select. An option given twice has its last value;
/// one not given has its default.
pub open spec fn named_modes(named: Seq<NamedArg>) -> Result<Modes, ConfigError> {
    let n = named.len() as int;
    let thread = last_value(named, "thread"@, n);
    let key = last_value(named, "key"@, n);
    let lifetime = last_value(named, "lifetime"@, n);
    if first_unknown_option(named, n) is Some {
        Err(ConfigError::UnknownOption { index: first_unknown_option(named, n)->0 as usize })
    } else if thread is Some && thread_token(thread->0) is None {
        Err(ConfigError::UnrecognizedThreadMode)
    } else if key is Some && key_token(key->0) is None {
        Err(ConfigError::UnrecognizedKeyMode)
    } else if lifetime is Some && lifetime_token(lifetime->0) is None {
        Err(ConfigError::UnrecognizedLifetimeMode)
    } else {
        Ok(
            Modes {
                thread: if thread is Some {
                    thread_token(thread->0)->0
                } else {
                    ThreadMode::Single
                },
                key: if key is Some {
                    key_token(key->0)->0
                } else {
                    KeyMode::Ref
                },
                lifetime: if lifetime is Some {
                    lifetime_token(lifetime->0)->0
                } else {
                    LifetimeMode::Problem
                },
            },
        )
    }
}

/// The modes that bare words select. A first word that names a key mode decides alone;
/// one that names a thread mode may be followed by a key mode. Words after these are
/// not read.
pub open spec fn bare_modes(args: Seq<String>) -> Result<Modes, ConfigError> {
    if args.len() == 0 {
        Ok(default_modes())
    } else if bare_thread_token(args[0]@) is Some {
        if args.len() == 1 {
            Ok(
                Modes {
                    thread: bare_thread_token(args[0]@)->0,
                    key: KeyMode::Ref,
                    lifetime: LifetimeMode::Problem,
                },
            )
        } else if bare_key_token(args[1]@) is Some {
            Ok(
                Modes {
                    thread: bare_thread_token(args[0]@)->0,
                    key: bare_key_token(args[1]@)->0,
                    lifetime: LifetimeMode::Problem,
                },
            )
        } else {
            Err(ConfigError::UnrecognizedKeyMode)
        }
    } else if bare_key_token(args[0]@) is Some {
        Ok(
            Modes {
                thread: ThreadMode::Single,
                key: bare_key_token(args[0]@)->0,
                lifetime: LifetimeMode::Problem,
            },
        )
    } else {
        Err(ConfigError::UnrecognizedThreadMode)
    }
}

/// The modes of a function configured with nothing.
pub open spec fn default_modes() -> Modes {
    Modes { thread: ThreadMode::Single, key: KeyMode::Ref, lifetime: LifetimeMode::Problem }
}

/// The modes that attribute arguments select: the named ones decide where there are any,
/// else the bare words.
pub open spec fn modes_of(key_args: KeyArgs) -> Result<Modes, ConfigError> {
    if key_args.named_args@.len() > 0 {
        named_modes(key_args.named_args@)
    } else {
        bare_modes(key_args.args@)
    }
}

impl Clone for NamedArg {
    fn clone(&self) -> (copy: NamedArg)
        ensures
            copy == *self,
    {
        NamedArg { key: self.key.clone(), value: self.value.clone() }
    }
}

/// Whether two lists of attribute arguments hold the same words and pairs.
pub open spec fn same_args(a: KeyArgs, b: KeyArgs) -> bool {
    a.args@ == b.args@ && a.named_args@ == b.named_args@
}

impl KeyArgs {
    /// No arguments: the attribute stands alone.
    pub fn new() -> (key_args: KeyArgs)
        ensures
            key_args.args@.len() == 0,
            key_args.named_args@.len() == 0,
    {
        KeyArgs { args: Vec::new(), named_args: Vec::new() }
    }
}

impl Clone for KeyArgs {
    fn clone(&self) -> (copy: KeyArgs)
        ensures
            same_args(copy, *self),
    {
        let mut args: Vec<String> = Vec::new();
        let mut i: usize = 0;
        while i < self.args.len()
            invariant
                i <= self.args.len(),
                args@ == self.args@.subrange(0, i as int),
            decreases self.args.len() - i,
        {
            args.push(self.args[i].clone());
            assert(args@ =~= self.args@.subrange(0, i + 1));
            i += 1;
        }
        assert(args@ =~= self.args@);
        let mut named_args: Vec<NamedArg> = Vec::new();
        let mut j: usize = 0;
        while j < self.named_args.len()
            invariant
                j <= self.named_args.len(),
                named_args@ == self.named_args@.subrange(0, j as int),
            decreases self.named_args.len() - j,
        {
            named_args.push(self.named_args[j].clone());
            assert(named_args@ =~= self.named_args@.subrange(0, j + 1));
            j += 1;
        }
        assert(named_args@ =~= self.named_args@);
        KeyArgs { args, named_args }
    }
}

fn is_word(s: &String, word: &str) -> (same: bool)
    ensures
        same == (s@ == word@),
{
    let w = String::from_str(word);
    *s == w
}

/// Reads a thread mode from the value of `thread = ..`.
pub fn parse_thread_mode(s: &String) -> (mode: Option<ThreadMode>)
    ensures
        mode == thread_token(s@),
{
    if is_word(s, "single") {
        Some(ThreadMode::Single)
    } else if is_word(s, "multi") {
        Some(ThreadMode::Multi)
    } else {
        None
    }
}

/// Reads a key mode from the value of `key = ..`.
pub fn parse_key_mode(s: &String) -> (mode: Option<KeyMode>)
    ensures
        mode == key_token(s@),
{
    if is_word(s, "ptr") {
        Some(KeyMode::Ptr)
    } else if is_word(s, "ref") {
        Some(KeyMode::Ref)
    } else if is_word(s, "val") {
        Some(KeyMode::Val)
    } else {
        None
    }
}

/// Reads a lifetime mode from the value of `lifetime = ..`.
pub fn parse_lifetime_mode(s: &String) -> (mode: Option<LifetimeMode>)
    ensures
        mode == lifetime_token(s@),
{
    if is_word(s, "problem") {
        Some(LifetimeMode::Problem)
    } else if is_word(s, "program") {
        Some(LifetimeMode::Program)
    } else {
        None
    }
}

fn parse_bare_thread_mode(s: &String) -> (mode: Option<ThreadMode>)
    ensures
        mode == bare_thread_token(s@),
{
    if is_word(s, "local") {
        Some(ThreadMode::Single)
    } else {
        parse_thread_mode(s)
    }
}

fn parse_bare_key_mode(s: &String) -> (mode: Option<KeyMode>)
    ensures
        mode == bare_key_token(s@),
{
    if is_word(s, "light") {
        Some(KeyMode::Ptr)
    } else if is_word(s, "normal") {
        Some(KeyMode::Ref)
    } else if is_word(s, "heavy") {
        Some(KeyMode::Val)
    } else {
        parse_key_mode(s)
    }
}

fn parse_named_modes(named: &Vec<NamedArg>) -> (modes: Result<Modes, ConfigError>)
    ensures
        modes == named_modes(named@),
{
    let n: usize = named.len();
    let mut unknown: Option<usize> = None;
    let mut thread: Option<usize> = None;
    let mut key: Option<usize> = None;
    let mut lifetime: Option<usize> = None;
    let mut i: usize = 0;
    while i < n
        invariant
            i <= n,
            n == named@.len(),
            match first_unknown_option(named@, i as int) {
                Some(u) => unknown == Some(u as usize) && 0 <= u < i,
                None => unknown is None,
            },
            match last_value(named@, "thread"@, i as int) {
                Some(v) => thread is Some && thread->0 < i && named@[thread->0 as int].value@ == v,
                None => thread is None,
            },
            match last_value(named@, "key"@, i as int) {
                Some(v) => key is Some && key->0 < i && named@[key->0 as int].value@ == v,
                None => key is None,
            },
            match last_value(named@, "lifetime"@, i as int) {
                Some(v) => lifetime is Some && lifetime->0 < i && named@[lifetime->0 as int].value@
                    == v,
                None => lifetime is None,
            },
        decreases n - i,
    {
        let name = &named[i].key;
        let is_thread = is_word(name, "thread");
        let is_key = is_word(name, "key");
        let is_lifetime = is_word(name, "lifetime");
        if is_thread {
            thread = Some(i);
        }
        if is_key {
            key = Some(i);
        }
        if is_lifetime {
            lifetime = Some(i);
        }
        if !is_thread && !is_key && !is_lifetime && unknown.is_none() {
            unknown = Some(i);
        }
        i += 1;
    }
    if let Some(u) = unknown {
        return Err(ConfigError::UnknownOption { index: u });
    }
    let thread_mode = match thread {
        Some(t) => match parse_thread_mode(&named[t].value) {
            Some(m) => m,
            None => {
                return Err(ConfigError::UnrecognizedThreadMode);
            },
        },
        None => ThreadMode::Single,
    };
    let key_mode = match key {
        Some(k) => match parse_key_mode(&named[k].value) {
            Some(m) => m,
            None => {
                return Err(ConfigError::UnrecognizedKeyMode);
            },
        },
        None => KeyMode::Ref,
    };
    let lifetime_mode = match lifetime {
        Some(l) => match parse_lifetime_mode(&named[l].value) {
            Some(m) => m,
            None => {
                return Err(ConfigError::UnrecognizedLifetimeMode);
            },
        },
        None => LifetimeMode::Problem,
    };
    Ok(Modes { thread: thread_mode, key: key_mode, lifetime: lifetime_mode })
}

fn parse_bare_modes(args: &Vec<String>) -> (modes: Result<Modes, ConfigError>)
    ensures
        modes == bare_modes(args@),
{
    if args.len() == 0 {
        return Ok(
            Modes { thread: ThreadMode::Single, key: KeyMode::Ref, lifetime: LifetimeMode::Problem },
        );
    }
    match parse_bare_thread_mode(&args[0]) {
        Some(thread) => {
            if args.len() == 1 {
                Ok(Modes { thread, key: KeyMode::Ref, lifetime: LifetimeMode::Problem })
            } else {
                match parse_bare_key_mode(&args[1]) {
                    Some(key) => Ok(Modes { thread, key, lifetime: LifetimeMode::Problem }),
                    None => Err(ConfigError::UnrecognizedKeyMode),
                }
            }
        },
        None => match parse_bare_key_mode(&args[0]) {
            Some(key) => Ok(
                Modes { thread: ThreadMode::Single, key, lifetime: LifetimeMode::Problem },
            ),
            None => Err(ConfigError::UnrecognizedThreadMode),
        },
    }
}

/// Reads the modes of a memoized function from its attribute arguments.
///
/// Named arguments decide where there are any: each name must be `thread`, `key` or
/// `lifetime`, and each value one of that option's modes. Else the bare words decide.
/// With neither, the function runs single-threaded, keyed by reference, and its
/// entries live for one top-level call.
pub fn parse_memo_modes(key_args: &KeyArgs) -> (modes: Result<Modes, ConfigError>)
    ensures
        modes == modes_of(*key_args),
{
    if key_args.named_args.len() > 0 {
        parse_named_modes(&key_args.named_args)
    } else {
        parse_bare_modes(&key_args.args)
    }
}

} // verus!
