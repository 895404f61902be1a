//! The lifetime rule: whether the cache of a function is emptied when a
//! top-level call of it ends.

use vstd::prelude::*;
use crate::config::{KeyMode, LifetimeMode};
use crate::rule::embeds_address;
use crate::shape::ParamShape;

verus! {

/// Whether the cache is emptied at the end of every top-level call. It is where
/// entries are to live for one such call, and also where keys hold an address:
/// a later call could meet that address again with other content behind it.
pub open spec fn clears_at_boundary(lifetime: LifetimeMode, embeds: bool) -> bool {
    lifetime == LifetimeMode::Problem || embeds
}

/// Decides whether the cache is emptied at the end of every top-level call, from
/// the lifetime asked for and from whether keys hold an address.
pub fn clears_after_call(lifetime: LifetimeMode, embeds: bool) -> (clears: bool)
    ensures
        clears == clears_at_boundary(lifetime, embeds),
{
    match lifetime {
        LifetimeMode::Problem => true,
        LifetimeMode::Program => embeds,
    }
}

/// Under program lifetime the cache outlives a top-level call exactly where no
/// address enters a key: the function is keyed by value, or none of its
/// parameters is a reference.
pub proof fn lemma_program_lifetime_honored(shapes: Seq<ParamShape>, mode: KeyMode)
    ensures
        !clears_at_boundary(LifetimeMode::Program, embeds_address(shapes, mode)) <==> (mode
            == KeyMode::Val || forall|i: int|
            0 <= i < shapes.len() ==> #[trigger] shapes[i] is ByValue),
{
    if !(forall|i: int| 0 <= i < shapes.len() ==> #[trigger] shapes[i] is ByValue) {
        let i = choose|i: int| 0 <= i < shapes.len() && !(#[trigger] shapes[i] is ByValue);
        assert(shapes[i] is ByImmutableRef);
    }
}

/// Under problem lifetime the cache is emptied after every top-level call,
/// whatever the parameters and the key mode.
pub proof fn lemma_problem_lifetime_clears(shapes: Seq<ParamShape>, mode: KeyMode)
    ensures
        clears_at_boundary(LifetimeMode::Problem, embeds_address(shapes, mode)),
{
}

} // verus!
