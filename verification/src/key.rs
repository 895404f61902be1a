//! Cache keys: what is taken from the arguments of one call, how two keys are
//! compared, and how a key is hashed.

use vstd::prelude::*;
use crate::content::{Content, ContentView, HASH_SEED, content_hash, mix, mix_word};
use crate::rule::KeyRule;

verus! {

/// One argument of a call, as key derivation sees it.
#[derive(Debug)]
pub struct Argument {
    /// Where the referent lies; not read for a parameter passed by value.
    pub address: usize,
    /// How many elements a slice or an array has; not read otherwise.
    pub length: usize,
    /// The normalized content; not read where the rule takes the address alone.
    pub content: Content,
}

/// The mathematical value of an `Argument`.
pub ghost struct ArgumentView {
    pub address: usize,
    pub length: usize,
    pub content: ContentView,
}

impl View for Argument {
    type V = ArgumentView;

    open spec fn view(&self) -> ArgumentView {
        ArgumentView { address: self.address, length: self.length, content: self.content@ }
    }
}

/// The part of a cache key that one argument gives.
#[derive(Debug)]
pub enum KeyComponent {
    /// A copy of the content.
    Value(Content),
    /// The address of the referent, with its length if it is a sequence.
    Pointer { address: usize, length: Option<usize> },
    /// The address of the referent and a copy of its content.
    Reference { address: usize, content: Content },
}

/// The mathematical value of a `KeyComponent`.
pub ghost enum ComponentView {
    Value(ContentView),
    Pointer { address: usize, length: Option<usize> },
    Reference { address: usize, content: ContentView },
}

impl View for KeyComponent {
    type V = ComponentView;

    open spec fn view(&self) -> ComponentView {
        match self {
            KeyComponent::Value(content) => ComponentView::Value(content@),
            KeyComponent::Pointer { address, length } => ComponentView::Pointer {
                address: *address,
                length: *length,
            },
            KeyComponent::Reference { address, content } => ComponentView::Reference {
                address: *address,
                content: content@,
            },
        }
    }
}

/// The key of one call: the component itself where the function has one parameter,
/// else the components in the order of the parameters.
#[derive(Debug)]
pub enum CacheKey {
    Single(KeyComponent),
    Tuple(Vec<KeyComponent>),
}

/// The mathematical value of a `CacheKey`.
pub ghost enum KeyView {
    Single(ComponentView),
    Tuple(Seq<ComponentView>),
}

/// The mathematical value of each component of a list, in order.
pub open spec fn component_views(components: Seq<KeyComponent>) -> Seq<ComponentView> {
    Seq::new(components.len(), |i: int| components[i]@)
}

impl View for CacheKey {
    type V = KeyView;

    open spec fn view(&self) -> KeyView {
        match self {
            CacheKey::Single(component) => KeyView::Single(component@),
            CacheKey::Tuple(components) => KeyView::Tuple(component_views(components@)),
        }
    }
}

/// Whether two components are equal as parts of a key. Two references are equal
/// where their addresses are, whatever they hold, and else where their contents are.
pub open spec fn component_matches(a: ComponentView, b: ComponentView) -> bool {
    match (a, b) {
        (ComponentView::Value(x), ComponentView::Value(y)) => x == y,
        (
            ComponentView::Pointer { address: p, length: m },
            ComponentView::Pointer { address: q, length: n },
        ) => p == q && m == n,
        (
            ComponentView::Reference { address: p, content: x },
            ComponentView::Reference { address: q, content: y },
        ) => p == q || x == y,
        _ => false,
    }
}

/// Whether two keys are equal: they have as many components, and these are equal
/// position by position.
pub open spec fn key_matches(a: KeyView, b: KeyView) -> bool {
    match (a, b) {
        (KeyView::Single(x), KeyView::Single(y)) => component_matches(x, y),
        (KeyView::Tuple(xs), KeyView::Tuple(ys)) => {
            &&& xs.len() == ys.len()
            &&& forall|i: int| 0 <= i < xs.len() ==> component_matches(#[trigger] xs[i], ys[i])
        },
        _ => false,
    }
}

/// Whether two components hold the same content. The addresses of two references
/// are not compared.
pub open spec fn component_same_content(a: ComponentView, b: ComponentView) -> bool {
    match (a, b) {
        (ComponentView::Value(x), ComponentView::Value(y)) => x == y,
        (
            ComponentView::Pointer { address: p, length: m },
            ComponentView::Pointer { address: q, length: n },
        ) => p == q && m == n,
        (
            ComponentView::Reference { address: p, content: x },
            ComponentView::Reference { address: q, content: y },
        ) => x == y,
        _ => false,
    }
}

/// Whether two keys hold the same content, position by position.
pub open spec fn same_content(a: KeyView, b: KeyView) -> bool {
    match (a, b) {
        (KeyView::Single(x), KeyView::Single(y)) => component_same_content(x, y),
        (KeyView::Tuple(xs), KeyView::Tuple(ys)) => {
            &&& xs.len() == ys.len()
            &&& forall|i: int|
                0 <= i < xs.len() ==> component_same_content(#[trigger] xs[i], ys[i])
        },
        _ => false,
    }
}

/// The hash of a component. That of a reference is the hash of its content:
/// the address does not enter.
pub open spec fn component_hash(c: ComponentView) -> u64 {
    match c {
        ComponentView::Value(content) => content_hash(content),
        ComponentView::Pointer { address, length } => match length {
            Some(n) => mix(mix(mix(HASH_SEED, 2), address as u64), n as u64),
            None => mix(mix(HASH_SEED, 3), address as u64),
        },
        ComponentView::Reference { address, content } => content_hash(content),
    }
}

/// The hash of the first `n` components of a tuple key.
pub open spec fn tuple_hash(components: Seq<ComponentView>, n: int) -> u64
    decreases n,
{
    if n <= 0 {
        mix(HASH_SEED, 4)
    } else {
        mix(tuple_hash(components, n - 1), component_hash(components[n - 1]))
    }
}

/// The hash of a key.
pub open spec fn key_hash(k: KeyView) -> u64 {
    match k {
        KeyView::Single(c) => component_hash(c),
        KeyView::Tuple(cs) => tuple_hash(cs, cs.len() as int),
    }
}

/// What the rule takes from an argument.
pub open spec fn component_of(rule: KeyRule, arg: ArgumentView) -> ComponentView {
    match rule {
        KeyRule::Value(_) => ComponentView::Value(arg.content),
        KeyRule::Content(_) => ComponentView::Value(arg.content),
        KeyRule::Address => ComponentView::Pointer { address: arg.address, length: None },
        KeyRule::AddressLength => ComponentView::Pointer {
            address: arg.address,
            length: Some(arg.length),
        },
        KeyRule::Reference(_) => ComponentView::Reference {
            address: arg.address,
            content: arg.content,
        },
    }
}

/// Whether the rule takes the address and not the content.
pub open spec fn is_pointer_rule(rule: KeyRule) -> bool {
    rule is Address || rule is AddressLength
}

/// Whether two of the first `n` arguments that are keyed by pointer lie at one address.
pub open spec fn aliased(rules: Seq<KeyRule>, args: Seq<ArgumentView>, n: int) -> bool {
    exists|i: int, j: int|
        0 <= i < j < n && is_pointer_rule(#[trigger] rules[i]) && is_pointer_rule(
            #[trigger] rules[j],
        ) && args[i].address == args[j].address
}

/// The components that the rules take from the arguments, in order.
pub open spec fn components_of(rules: Seq<KeyRule>, args: Seq<ArgumentView>) -> Seq<ComponentView> {
    Seq::new(rules.len(), |i: int| component_of(rules[i], args[i]))
}

/// The key of a call, if the call is cached. It is not where the function has no
/// parameter, where the arguments are not as many as the rules, or where two
/// arguments keyed by pointer lie at one address.
pub open spec fn key_of(rules: Seq<KeyRule>, args: Seq<ArgumentView>) -> Option<KeyView> {
    if rules.len() == 0 || args.len() != rules.len() || aliased(rules, args, rules.len() as int) {
        None
    } else if rules.len() == 1 {
        Some(KeyView::Single(component_of(rules[0], args[0])))
    } else {
        Some(KeyView::Tuple(components_of(rules, args)))
    }
}

/// The mathematical value of each argument of a list, in order.
pub open spec fn argument_views(args: Seq<Argument>) -> Seq<ArgumentView> {
    Seq::new(args.len(), |i: int| args[i]@)
}

impl KeyComponent {
    /// Whether this component equals the other as part of a key. The contents of two
    /// references are compared only where their addresses differ.
    pub fn matches(&self, other: &KeyComponent) -> (eq: bool)
        ensures
            eq == component_matches(self@, other@),
    {
        match self {
            KeyComponent::Value(x) => match other {
                KeyComponent::Value(y) => x.same(y),
                _ => false,
            },
            KeyComponent::Pointer { address: p, length: m } => match other {
                KeyComponent::Pointer { address: q, length: n } => {
                    if *p != *q {
                        false
                    } else {
                        match m {
                            Some(a) => match n {
                                Some(b) => *a == *b,
                                None => false,
                            },
                            None => match n {
                                Some(_) => false,
                                None => true,
                            },
                        }
                    }
                },
                _ => false,
            },
            KeyComponent::Reference { address: p, content: x } => match other {
                KeyComponent::Reference { address: q, content: y } => {
                    if *p == *q {
                        true
                    } else {
                        x.same(y)
                    }
                },
                _ => false,
            },
        }
    }

    /// The hash of this component.
    pub fn digest(&self) -> (h: u64)
        ensures
            h == component_hash(self@),
    {
        match self {
            KeyComponent::Value(content) => content.digest(),
            KeyComponent::Pointer { address, length } => match length {
                Some(n) => mix_word(
                    mix_word(mix_word(HASH_SEED, 2), *address as u64),
                    *n as u64,
                ),
                None => mix_word(mix_word(HASH_SEED, 3), *address as u64),
            },
            KeyComponent::Reference { address, content } => content.digest(),
        }
    }
}

impl Clone for KeyComponent {
    /// A deep copy.
    fn clone(&self) -> (copy: KeyComponent)
        ensures
            copy@ == self@,
    {
        match self {
            KeyComponent::Value(content) => KeyComponent::Value(content.clone()),
            KeyComponent::Pointer { address, length } => KeyComponent::Pointer {
                address: *address,
                length: *length,
            },
            KeyComponent::Reference { address, content } => KeyComponent::Reference {
                address: *address,
                content: content.clone(),
            },
        }
    }
}

impl CacheKey {
    /// Whether this key equals the other. Components are compared in order, up to
    /// the first pair that differs.
    pub fn matches(&self, other: &CacheKey) -> (eq: bool)
        ensures
            eq == key_matches(self@, other@),
    {
        match self {
            CacheKey::Single(x) => match other {
                CacheKey::Single(y) => x.matches(y),
                CacheKey::Tuple(_) => false,
            },
            CacheKey::Tuple(xs) => match other {
                CacheKey::Single(_) => false,
                CacheKey::Tuple(ys) => {
                    if xs.len() != ys.len() {
                        return false;
                    }
                    let mut i: usize = 0;
                    while i < xs.len()
                        invariant
                            i <= xs.len(),
                            xs.len() == ys.len(),
                            self@ == KeyView::Tuple(component_views(xs@)),
                            other@ == KeyView::Tuple(component_views(ys@)),
                            forall|j: int|
                                0 <= j < i ==> component_matches(
                                    #[trigger] component_views(xs@)[j],
                                    component_views(ys@)[j],
                                ),
                        decreases xs.len() - i,
                    {
                        if !xs[i].matches(&ys[i]) {
                            assert(!component_matches(
                                component_views(xs@)[i as int],
                                component_views(ys@)[i as int],
                            ));
                            return false;
                        }
                        i += 1;
                    }
                    true
                },
            },
        }
    }

    /// The hash of this key.
    pub fn digest(&self) -> (h: u64)
        ensures
            h == key_hash(self@),
    {
        match self {
            CacheKey::Single(c) => c.digest(),
            CacheKey::Tuple(cs) => {
                let mut h: u64 = mix_word(HASH_SEED, 4);
                let mut i: usize = 0;
                while i < cs.len()
                    invariant
                        i <= cs.len(),
                        h == tuple_hash(component_views(cs@), i as int),
                    decreases cs.len() - i,
                {
                    let c = cs[i].digest();
                    h = mix_word(h, c);
                    i += 1;
                }
                h
            },
        }
    }
}

impl Clone for CacheKey {
    /// A deep copy.
    fn clone(&self) -> (copy: CacheKey)
        ensures
            copy@ == self@,
    {
        match self {
            CacheKey::Single(c) => CacheKey::Single(c.clone()),
            CacheKey::Tuple(cs) => {
                let mut copies: Vec<KeyComponent> = Vec::new();
                let mut i: usize = 0;
                while i < cs.len()
                    invariant
                        i <= cs.len(),
                        copies@.len() == i,
                        forall|j: int| 0 <= j < i ==> copies@[j]@ == cs@[j]@,
                    decreases cs.len() - i,
                {
                    copies.push(cs[i].clone());
                    i += 1;
                }
                assert(component_views(copies@) =~= component_views(cs@));
                CacheKey::Tuple(copies)
            },
        }
    }
}

/// Takes from an argument what the rule says.
pub fn derive_component(rule: &KeyRule, arg: &Argument) -> (component: KeyComponent)
    ensures
        component@ == component_of(*rule, arg@),
{
    match rule {
        KeyRule::Value(_) => KeyComponent::Value(arg.content.clone()),
        KeyRule::Content(_) => KeyComponent::Value(arg.content.clone()),
        KeyRule::Address => KeyComponent::Pointer { address: arg.address, length: None },
        KeyRule::AddressLength => KeyComponent::Pointer {
            address: arg.address,
            length: Some(arg.length),
        },
        KeyRule::Reference(_) => KeyComponent::Reference {
            address: arg.address,
            content: arg.content.clone(),
        },
    }
}

fn takes_pointer(rule: &KeyRule) -> (yes: bool)
    ensures
        yes == is_pointer_rule(*rule),
{
    match rule {
        KeyRule::Address => true,
        KeyRule::AddressLength => true,
        _ => false,
    }
}

fn has_alias(rules: &Vec<KeyRule>, args: &Vec<Argument>) -> (yes: bool)
    requires
        rules@.len() == args@.len(),
    ensures
        yes == aliased(rules@, argument_views(args@), rules@.len() as int),
{
    let n: usize = rules.len();
    let mut j: usize = 0;
    while j < n
        invariant
            j <= n,
            n == rules@.len(),
            n == args@.len(),
            !aliased(rules@, argument_views(args@), j as int),
        decreases n - j,
    {
        if takes_pointer(&rules[j]) {
            let mut i: usize = 0;
            while i < j
                invariant
                    i <= j,
                    j < n,
                    n == rules@.len(),
                    n == args@.len(),
                    is_pointer_rule(rules@[j as int]),
                    forall|k: int|
                        0 <= k < i ==> !(is_pointer_rule(#[trigger] rules@[k])
                            && argument_views(args@)[k].address == argument_views(
                            args@,
                        )[j as int].address),
                decreases j - i,
            {
                if takes_pointer(&rules[i]) && args[i].address == args[j].address {
                    assert(is_pointer_rule(rules@[i as int]) && is_pointer_rule(rules@[j as int])
                        && argument_views(args@)[i as int].address == argument_views(
                        args@,
                    )[j as int].address);
                    return true;
                }
                i += 1;
            }
        }
        j += 1;
    }
    false
}

/// Derives the key of a call from its arguments, by the rules of the function.
///
/// Returns `None` where the call is not to be cached: the function has no parameter,
/// the arguments are not as many as the rules, or two arguments keyed by pointer
/// lie at one address.
pub fn derive_key(rules: &Vec<KeyRule>, args: &Vec<Argument>) -> (key: Option<CacheKey>)
    ensures
        match key {
            Some(k) => key_of(rules@, argument_views(args@)) == Some(k@),
            None => key_of(rules@, argument_views(args@)) is None,
        },
{
    if rules.len() == 0 || args.len() != rules.len() {
        return None;
    }
    if has_alias(rules, args) {
        return None;
    }
    if rules.len() == 1 {
        return Some(CacheKey::Single(derive_component(&rules[0], &args[0])));
    }
    let mut components: Vec<KeyComponent> = Vec::new();
    let mut i: usize = 0;
    while i < rules.len()
        invariant
            i <= rules.len(),
            rules@.len() == args@.len(),
            components@.len() == i,
            forall|j: int|
                0 <= j < i ==> (#[trigger] components@[j])@ == component_of(rules@[j], args@[j]@),
        decreases rules.len() - i,
    {
        components.push(derive_component(&rules[i], &args[i]));
        i += 1;
    }
    assert(component_views(components@) =~= components_of(rules@, argument_views(args@)));
    Some(CacheKey::Tuple(components))
}

} // verus!
