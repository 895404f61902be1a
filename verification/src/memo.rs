//! Setting a function up for memoization, and the path of one call through its cache.

use vstd::prelude::*;
use crate::config::{
    ConfigError, KeyArgs, KeyMode, LifetimeMode, Modes, ThreadMode, default_modes, modes_of,
    parse_memo_modes, same_args,
};
use crate::key::{Argument, CacheKey, argument_views, derive_key, key_of};
use crate::lifetime::{clears_after_call, clears_at_boundary};
use crate::rule::{KeyRule, embeds_address, generate_cache_keys, key_embeds_address, rules_for};
use crate::shape::{Parameter, ParameterDescriptor, describe, descriptor_of, refusal, shapes_of};
use crate::store::{Cache, Slot, find, put};

verus! {

/// A function to memoize: its name, what each attribute on it reads as, and its
/// parameters.
pub struct FunctionItem {
    pub name: String,
    /// One entry for each attribute, in order: its arguments where it reads as a
    /// memoization attribute, else `None`.
    pub attrs: Vec<Option<KeyArgs>>,
    pub params: Vec<Parameter>,
}

/// What was decided when a function was set up: its modes, the rule for each
/// parameter, and whether its cache is emptied after every top-level call.
pub struct MemoPlan {
    name: String,
    params: Vec<ParameterDescriptor>,
    modes: Modes,
    rules: Vec<KeyRule>,
    embeds: bool,
    clears: bool,
}

impl MemoPlan {
    #[verifier::type_invariant]
    spec fn consistent(&self) -> bool {
        &&& self.rules@ == rules_for(shapes_of(self.params@), self.modes.key)
        &&& self.embeds == embeds_address(shapes_of(self.params@), self.modes.key)
        &&& self.clears == clears_at_boundary(self.modes.lifetime, self.embeds)
    }

    /// The name of the function.
    pub closed spec fn spec_name(&self) -> Seq<char> {
        self.name@
    }

    /// The parameters of the function.
    pub closed spec fn spec_params(&self) -> Seq<ParameterDescriptor> {
        self.params@
    }

    /// The modes of the function.
    pub closed spec fn spec_modes(&self) -> Modes {
        self.modes
    }

    /// The rule for each parameter, in order.
    pub open spec fn spec_rules(&self) -> Seq<KeyRule> {
        rules_for(shapes_of(self.spec_params()), self.spec_modes().key)
    }

    /// Whether keys of the function hold an address.
    pub open spec fn spec_embeds_address(&self) -> bool {
        embeds_address(shapes_of(self.spec_params()), self.spec_modes().key)
    }

    /// Whether the cache is emptied at the end of every top-level call.
    pub open spec fn spec_clears_after_call(&self) -> bool {
        clears_at_boundary(self.spec_modes().lifetime, self.spec_embeds_address())
    }

    /// The name of the function.
    pub fn name(&self) -> (name: &String)
        ensures
            name@ == self.spec_name(),
    {
        &self.name
    }

    /// The parameters of the function.
    pub fn params(&self) -> (params: &Vec<ParameterDescriptor>)
        ensures
            params@ == self.spec_params(),
    {
        &self.params
    }

    /// The modes of the function.
    pub fn modes(&self) -> (modes: Modes)
        ensures
            modes == self.spec_modes(),
    {
        self.modes
    }

    /// How reference parameters enter the key.
    pub fn key_mode(&self) -> (mode: KeyMode)
        ensures
            mode == self.spec_modes().key,
    {
        self.modes.key
    }

    /// Where the cache is stored.
    pub fn thread_mode(&self) -> (mode: ThreadMode)
        ensures
            mode == self.spec_modes().thread,
    {
        self.modes.thread
    }

    /// How long entries are asked to live.
    pub fn lifetime_mode(&self) -> (mode: LifetimeMode)
        ensures
            mode == self.spec_modes().lifetime,
    {
        self.modes.lifetime
    }

    /// The rule for each parameter, in order.
    pub fn rules(&self) -> (rules: &Vec<KeyRule>)
        ensures
            rules@ == self.spec_rules(),
    {
        proof {
            use_type_invariant(self);
        }
        &self.rules
    }

    /// Whether keys of the function hold an address.
    pub fn embeds_address(&self) -> (embeds: bool)
        ensures
            embeds == self.spec_embeds_address(),
    {
        proof {
            use_type_invariant(self);
        }
        self.embeds
    }

    /// Whether the cache is emptied at the end of every top-level call.
    pub fn clears_after_call(&self) -> (clears: bool)
        ensures
            clears == self.spec_clears_after_call(),
    {
        proof {
            use_type_invariant(self);
        }
        self.clears
    }
}

/// Why a function cannot be set up with the given attribute arguments, if it cannot:
/// what is wrong with the modes, else what is wrong with the parameters.
pub open spec fn setup_error(attr: KeyArgs, params: Seq<Parameter>) -> Option<ConfigError> {
    match modes_of(attr) {
        Err(e) => Some(e),
        Ok(_) => refusal(params),
    }
}

/// Whether the plan is the one for the named function with the given attribute
/// arguments and parameters.
pub open spec fn plans(plan: MemoPlan, name: Seq<char>, attr: KeyArgs, params: Seq<Parameter>) -> bool {
    &&& plan.spec_name() == name
    &&& modes_of(attr) == Ok::<Modes, ConfigError>(plan.spec_modes())
    &&& plan.spec_params().len() == params.len()
    &&& forall|i: int|
        0 <= i < params.len() ==> (#[trigger] plan.spec_params()[i])@ == descriptor_of(params[i])
}

fn plan_function(name: &String, attr: &KeyArgs, params: &Vec<Parameter>) -> (out: Result<
    MemoPlan,
    ConfigError,
>)
    ensures
        match out {
            Ok(plan) => setup_error(*attr, params@) is None && plans(plan, name@, *attr, params@),
            Err(e) => setup_error(*attr, params@) == Some(e),
        },
{
    let modes = match parse_memo_modes(attr) {
        Ok(modes) => modes,
        Err(e) => {
            return Err(e);
        },
    };
    let descriptors = match describe(params) {
        Ok(descriptors) => descriptors,
        Err(e) => {
            return Err(e);
        },
    };
    let rules = generate_cache_keys(&descriptors, modes.key);
    let embeds = key_embeds_address(&descriptors, modes.key);
    let clears = clears_after_call(modes.lifetime, embeds);
    Ok(MemoPlan { name: name.clone(), params: descriptors, modes, rules, embeds, clears })
}

/// Sets a function up for memoization with the given attribute arguments.
///
/// The modes are read first, then the parameters are checked. What can be decided
/// from the signature is decided here, once: the rule for each parameter, and
/// whether the cache is emptied after every top-level call.
pub fn memo(attr: &KeyArgs, item: &FunctionItem) -> (out: Result<MemoPlan, ConfigError>)
    ensures
        match out {
            Ok(plan) => setup_error(*attr, item.params@) is None && plans(
                plan,
                item.name@,
                *attr,
                item.params@,
            ),
            Err(e) => setup_error(*attr, item.params@) == Some(e),
        },
{
    plan_function(&item.name, attr, &item.params)
}

/// The position of the first of the first `n` attributes that reads as a
/// memoization attribute.
pub open spec fn first_parsed(attrs: Seq<Option<KeyArgs>>, n: int) -> Option<int>
    decreases n,
{
    if n <= 0 {
        None
    } else {
        match first_parsed(attrs, n - 1) {
            Some(i) => Some(i),
            None => if attrs[n - 1] is Some {
                Some(n - 1)
            } else {
                None
            },
        }
    }
}

proof fn lemma_first_parsed_stays(attrs: Seq<Option<KeyArgs>>, m: int, n: int)
    requires
        0 <= m <= n,
        first_parsed(attrs, m) is Some,
    ensures
        first_parsed(attrs, n) == first_parsed(attrs, m),
    decreases n - m,
{
    if m < n {
        lemma_first_parsed_stays(attrs, m, n - 1);
    }
}

/// Reads the memoization arguments of a function from its attributes: those of
/// the first attribute that reads as one, and none where no attribute does.
pub fn parse_fn_attributes(attrs: &Vec<Option<KeyArgs>>) -> (key_args: KeyArgs)
    ensures
        match first_parsed(attrs@, attrs@.len() as int) {
            Some(i) => same_args(key_args, attrs@[i]->0),
            None => key_args.args@.len() == 0 && key_args.named_args@.len() == 0,
        },
{
    let mut i: usize = 0;
    while i < attrs.len()
        invariant
            i <= attrs.len(),
            first_parsed(attrs@, i as int) is None,
        decreases attrs.len() - i,
    {
        if let Some(key_args) = &attrs[i] {
            proof {
                assert(first_parsed(attrs@, i + 1) == Some(i as int));
                lemma_first_parsed_stays(attrs@, i + 1, attrs@.len() as int);
            }
            return key_args.clone();
        }
        i += 1;
    }
    KeyArgs::new()
}

/// The modes of a function in a block: those that its first memoization attribute
/// selects, and the defaults where it has none.
pub open spec fn item_modes(item: FunctionItem) -> Result<Modes, ConfigError> {
    match first_parsed(item.attrs@, item.attrs@.len() as int) {
        Some(i) => modes_of(item.attrs@[i]->0),
        None => Ok(default_modes()),
    }
}

/// Why a function in a block cannot be set up, if it cannot.
pub open spec fn item_error(item: FunctionItem) -> Option<ConfigError> {
    match item_modes(item) {
        Err(e) => Some(e),
        Ok(_) => refusal(item.params@),
    }
}

/// Whether the plan is the one for the given function of a block.
pub open spec fn plans_item(plan: MemoPlan, item: FunctionItem) -> bool {
    &&& plan.spec_name() == item.name@
    &&& item_modes(item) == Ok::<Modes, ConfigError>(plan.spec_modes())
    &&& plan.spec_params().len() == item.params@.len()
    &&& forall|i: int|
        0 <= i < item.params@.len() ==> (#[trigger] plan.spec_params()[i])@ == descriptor_of(
            item.params@[i],
        )
}

/// Sets every function of a block up for memoization, each with the arguments of
/// its own first memoization attribute. The first function that cannot be set up
/// ends the work with its error.
pub fn memo_block(items: &Vec<FunctionItem>) -> (out: Result<Vec<MemoPlan>, ConfigError>)
    ensures
        match out {
            Ok(plans) => {
                &&& plans@.len() == items@.len()
                &&& forall|i: int|
                    0 <= i < items@.len() ==> item_error(#[trigger] items@[i]) is None
                        && plans_item(plans@[i], items@[i])
            },
            Err(e) => exists|i: int|
                {
                    &&& 0 <= i < items@.len()
                    &&& item_error(#[trigger] items@[i]) == Some(e)
                    &&& forall|j: int| 0 <= j < i ==> item_error(#[trigger] items@[j]) is None
                },
        },
{
    let mut plans: Vec<MemoPlan> = Vec::new();
    let mut i: usize = 0;
    while i < items.len()
        invariant
            i <= items.len(),
            plans@.len() == i,
            forall|j: int|
                0 <= j < i ==> item_error(#[trigger] items@[j]) is None && plans_item(
                    plans@[j],
                    items@[j],
                ),
        decreases items.len() - i,
    {
        let item = &items[i];
        let key_args = parse_fn_attributes(&item.attrs);
        assert(modes_of(key_args) == item_modes(*item));
        match plan_function(&item.name, &key_args, &item.params) {
            Ok(plan) => {
                plans.push(plan);
            },
            Err(e) => {
                assert(item_error(items@[i as int]) == Some(e));
                return Err(e);
            },
        }
        i += 1;
    }
    Ok(plans)
}

/// Where one call stands after its key was looked up.
pub enum Step<R> {
    /// The result was stored: here is a copy, and nothing is left to do.
    Hit(R),
    /// Nothing was stored under this key: compute, then store the result under it.
    Miss(CacheKey),
    /// The call is not cached: compute.
    Bypass,
}

/// A memoized function: the plan it was set up with, and its cache.
pub struct Memo<R> {
    plan: MemoPlan,
    cache: Cache<R>,
}

impl<R> View for Memo<R> {
    type V = Map<u64, Seq<Slot<R>>>;

    /// What the cache holds.
    closed spec fn view(&self) -> Map<u64, Seq<Slot<R>>> {
        self.cache@
    }
}

impl<R> Memo<R> {
    /// The plan the function was set up with.
    pub closed spec fn spec_plan(&self) -> MemoPlan {
        self.plan
    }

    /// The key of a call with the given arguments, if the call is cached.
    pub open spec fn spec_key(&self, args: Seq<Argument>) -> Option<crate::key::KeyView> {
        key_of(self.spec_plan().spec_rules(), argument_views(args))
    }

    /// A memoized function with an empty cache.
    pub fn new(plan: MemoPlan) -> (memo: Memo<R>)
        ensures
            memo.spec_plan() == plan,
            memo@ == Map::<u64, Seq<Slot<R>>>::empty(),
    {
        Memo { plan, cache: Cache::new() }
    }

    /// The plan the function was set up with.
    pub fn plan(&self) -> (plan: &MemoPlan)
        ensures
            *plan == self.spec_plan(),
    {
        &self.plan
    }

    /// Begins a call: derives its key and looks it up. The cache is left as it is.
    pub fn begin(&self, args: &Vec<Argument>) -> (step: Step<R>) where R: Clone
        ensures
            match self.spec_key(args@) {
                None => step is Bypass,
                Some(k) => match find(self@, k) {
                    Some(stored) => step is Hit && cloned(stored, step->Hit_0),
                    None => step is Miss && step->Miss_0@ == k,
                },
            },
    {
        match derive_key(self.plan.rules(), args) {
            None => Step::Bypass,
            Some(key) => match self.cache.lookup(&key) {
                Some(value) => Step::Hit(value),
                None => Step::Miss(key),
            },
        }
    }

    /// Completes a call that missed: stores its result under its key.
    /// A call that ended without a result stores nothing, and is computed again
    /// when it is next made.
    pub fn complete(&mut self, key: CacheKey, value: R)
        ensures
            final(self)@ == put(old(self)@, key@, value),
            final(self).spec_plan() == old(self).spec_plan(),
    {
        self.cache.insert(key, value);
    }

    /// Removes every entry from the cache.
    pub fn clear(&mut self)
        ensures
            final(self)@ == Map::<u64, Seq<Slot<R>>>::empty(),
            final(self).spec_plan() == old(self).spec_plan(),
    {
        self.cache.clear();
    }

    /// Ends a top-level call: the cache is emptied where the plan says so, and
    /// else left as it is.
    pub fn finish(&mut self)
        ensures
            final(self)@ == if old(self).spec_plan().spec_clears_after_call() {
                Map::<u64, Seq<Slot<R>>>::empty()
            } else {
                old(self)@
            },
            final(self).spec_plan() == old(self).spec_plan(),
    {
        if self.plan.clears_after_call() {
            self.cache.clear();
        }
    }

    /// Makes one call through the cache. A stored result is copied out and `f` is
    /// not run. Else `f` runs on the arguments as they were given, and a copy of
    /// its result is stored, unless the call is not cached at all.
    pub fn call<F>(&mut self, args: &Vec<Argument>, f: F) -> (result: R) where
        R: Clone,
        F: Fn(&Vec<Argument>) -> R,

        requires
            call_requires(f, (args,)),
        ensures
            final(self).spec_plan() == old(self).spec_plan(),
            match old(self).spec_key(args@) {
                None => call_ensures(f, (args,), result) && final(self)@ == old(self)@,
                Some(k) => match find(old(self)@, k) {
                    Some(stored) => cloned(stored, result) && final(self)@ == old(self)@,
                    None => call_ensures(f, (args,), result) && exists|copy: R|
                        cloned(result, copy) && final(self)@ == put(old(self)@, k, copy),
                },
            },
    {
        match self.begin(args) {
            Step::Hit(value) => value,
            Step::Bypass => f(args),
            Step::Miss(key) => {
                let result = f(args);
                let copy = result.clone();
                self.complete(key, copy);
                assert(cloned(result, copy) && self@ == put(old(self)@, key@, copy));
                result
            },
        }
    }

    /// Makes one top-level call through the cache, and ends it.
    pub fn start<F>(&mut self, args: &Vec<Argument>, f: F) -> (result: R) where
        R: Clone,
        F: Fn(&Vec<Argument>) -> R,

        requires
            call_requires(f, (args,)),
        ensures
            final(self).spec_plan() == old(self).spec_plan(),
            match old(self).spec_key(args@) {
                None => call_ensures(f, (args,), result),
                Some(k) => match find(old(self)@, k) {
                    Some(stored) => cloned(stored, result),
                    None => call_ensures(f, (args,), result),
                },
            },
            old(self).spec_plan().spec_clears_after_call() ==> final(self)@ == Map::<
                u64,
                Seq<Slot<R>>,
            >::empty(),
            !old(self).spec_plan().spec_clears_after_call() ==> match old(self).spec_key(args@) {
                None => final(self)@ == old(self)@,
                Some(k) => match find(old(self)@, k) {
                    Some(stored) => final(self)@ == old(self)@,
                    None => exists|copy: R|
                        cloned(result, copy) && final(self)@ == put(old(self)@, k, copy),
                },
            },
    {
        let result = self.call(args, f);
        self.finish();
        result
    }
}

} // verus!
