//! Key rules: for each parameter, decided once from its shape and the key mode,
//! what of an argument enters the cache key.

use vstd::prelude::*;
use crate::config::KeyMode;
use crate::shape::{ParamShape, ParameterDescriptor, TypeShape, shapes_of};

verus! {

/// How a value is brought into a form that can be compared and hashed.
#[derive(Debug)]
pub enum Normalization {
    /// The value is copied as it is.
    Copy,
    /// A floating-point number is replaced by its bit pattern.
    Bits,
    /// A slice or an array becomes an owned sequence, each element normalized as given.
    Each(Box<Normalization>),
}

/// What of an argument enters the cache key.
#[derive(Debug)]
pub enum KeyRule {
    /// The normalized value of a parameter passed by value.
    Value(Normalization),
    /// The address of the referent.
    Address,
    /// The address of a slice or an array, and its length.
    AddressLength,
    /// The address of the referent together with its normalized content.
    Reference(Normalization),
    /// The normalized content of the referent.
    Content(Normalization),
}

/// The normalization of a value of the given shape: bit patterns for floating-point
/// numbers at any depth, owned sequences for slices and arrays alike.
pub open spec fn normal_form(ty: TypeShape) -> Normalization
    decreases ty,
{
    match ty {
        TypeShape::Float => Normalization::Bits,
        TypeShape::Plain => Normalization::Copy,
        TypeShape::Sequence(element) => Normalization::Each(Box::new(normal_form(*element))),
    }
}

/// The rule for a parameter keyed by pointer.
pub open spec fn ptr_rule(shape: ParamShape) -> KeyRule {
    match shape {
        ParamShape::ByValue(ty) => KeyRule::Value(normal_form(ty)),
        ParamShape::ByImmutableRef(ty) => if ty is Sequence {
            KeyRule::AddressLength
        } else {
            KeyRule::Address
        },
    }
}

/// The rule for a parameter keyed by reference.
pub open spec fn ref_rule(shape: ParamShape) -> KeyRule {
    match shape {
        ParamShape::ByValue(ty) => KeyRule::Value(normal_form(ty)),
        ParamShape::ByImmutableRef(ty) => KeyRule::Reference(normal_form(ty)),
    }
}

/// The rule for a parameter keyed by value.
pub open spec fn val_rule(shape: ParamShape) -> KeyRule {
    match shape {
        ParamShape::ByValue(ty) => KeyRule::Value(normal_form(ty)),
        ParamShape::ByImmutableRef(ty) => KeyRule::Content(normal_form(ty)),
    }
}

/// The rule for a parameter under the given key mode.
pub open spec fn rule_for(mode: KeyMode, shape: ParamShape) -> KeyRule {
    match mode {
        KeyMode::Ptr => ptr_rule(shape),
        KeyMode::Ref => ref_rule(shape),
        KeyMode::Val => val_rule(shape),
    }
}

/// The rules for a parameter list under the given key mode, in order.
pub open spec fn rules_for(shapes: Seq<ParamShape>, mode: KeyMode) -> Seq<KeyRule> {
    Seq::new(shapes.len(), |i: int| rule_for(mode, shapes[i]))
}

/// Whether the rule puts an address into the key.
pub open spec fn rule_embeds_address(rule: KeyRule) -> bool {
    rule is Address || rule is AddressLength || rule is Reference
}

/// Whether keys of these parameters under the given mode hold an address: the mode
/// is not by value and some parameter is a reference.
pub open spec fn embeds_address(shapes: Seq<ParamShape>, mode: KeyMode) -> bool {
    mode != KeyMode::Val && exists|i: int| 0 <= i < shapes.len() && #[trigger] shapes[i] is ByImmutableRef
}

/// Computes the normalization of a value of the given shape.
pub fn normalize(ty: &TypeShape) -> (form: Normalization)
    ensures
        form == normal_form(*ty),
    decreases ty,
{
    match ty {
        TypeShape::Float => Normalization::Bits,
        TypeShape::Plain => Normalization::Copy,
        TypeShape::Sequence(element) => Normalization::Each(Box::new(normalize(element))),
    }
}

/// Appends the rule for a parameter keyed by pointer: address and length for a
/// reference to a slice or an array, the address alone for any other reference,
/// the value itself for a parameter passed by value.
pub fn generate_ptr_mode_key(shape: &ParamShape, rules: &mut Vec<KeyRule>)
    ensures
        final(rules)@ == old(rules)@.push(ptr_rule(*shape)),
{
    match shape {
        ParamShape::ByImmutableRef(ty) => {
            if ty.is_sequence() {
                rules.push(KeyRule::AddressLength);
            } else {
                rules.push(KeyRule::Address);
            }
        },
        ParamShape::ByValue(ty) => {
            rules.push(KeyRule::Value(normalize(ty)));
        },
    }
}

/// Appends the rule for a parameter keyed by reference: the address of the referent
/// with its normalized content, or the value itself for a parameter passed by value.
pub fn generate_normal_mode_key(shape: &ParamShape, rules: &mut Vec<KeyRule>)
    ensures
        final(rules)@ == old(rules)@.push(ref_rule(*shape)),
{
    match shape {
        ParamShape::ByImmutableRef(ty) => {
            rules.push(KeyRule::Reference(normalize(ty)));
        },
        ParamShape::ByValue(ty) => {
            rules.push(KeyRule::Value(normalize(ty)));
        },
    }
}

/// Appends the rule for a parameter keyed by value: the normalized content of the
/// referent, or the value itself for a parameter passed by value.
pub fn generate_heavy_mode_key(shape: &ParamShape, rules: &mut Vec<KeyRule>)
    ensures
        final(rules)@ == old(rules)@.push(val_rule(*shape)),
{
    match shape {
        ParamShape::ByImmutableRef(ty) => {
            rules.push(KeyRule::Content(normalize(ty)));
        },
        ParamShape::ByValue(ty) => {
            rules.push(KeyRule::Value(normalize(ty)));
        },
    }
}

/// Computes the key rules of a parameter list, one for each parameter, in order.
pub fn generate_cache_keys(params: &Vec<ParameterDescriptor>, mode: KeyMode) -> (rules: Vec<KeyRule>)
    ensures
        rules@ == rules_for(shapes_of(params@), mode),
{
    let mut rules: Vec<KeyRule> = Vec::new();
    let mut i: usize = 0;
    while i < params.len()
        invariant
            i <= params.len(),
            rules@ == rules_for(shapes_of(params@), mode).subrange(0, i as int),
        decreases params.len() - i,
    {
        match mode {
            KeyMode::Ptr => generate_ptr_mode_key(&params[i].shape, &mut rules),
            KeyMode::Ref => generate_normal_mode_key(&params[i].shape, &mut rules),
            KeyMode::Val => generate_heavy_mode_key(&params[i].shape, &mut rules),
        }
        assert(rules@ =~= rules_for(shapes_of(params@), mode).subrange(0, i + 1));
        i += 1;
    }
    assert(rules@ =~= rules_for(shapes_of(params@), mode));
    rules
}

/// Decides whether keys of these parameters under the given mode hold an address.
pub fn key_embeds_address(params: &Vec<ParameterDescriptor>, mode: KeyMode) -> (yes: bool)
    ensures
        yes == embeds_address(shapes_of(params@), mode),
{
    if mode == KeyMode::Val {
        return false;
    }
    let mut i: usize = 0;
    while i < params.len()
        invariant
            i <= params.len(),
            mode != KeyMode::Val,
            forall|j: int| 0 <= j < i ==> !(#[trigger] shapes_of(params@)[j] is ByImmutableRef),
        decreases params.len() - i,
    {
        let by_ref = match &params[i].shape {
            ParamShape::ByImmutableRef(_) => true,
            ParamShape::ByValue(_) => false,
        };
        if by_ref {
            assert(shapes_of(params@)[i as int] is ByImmutableRef);
            return true;
        }
        i += 1;
    }
    false
}

/// The key of a function holds an address exactly if one of its rules puts one there.
pub proof fn lemma_embeds_address_by_rules(shapes: Seq<ParamShape>, mode: KeyMode)
    ensures
        embeds_address(shapes, mode) <==> exists|i: int|
            0 <= i < shapes.len() && rule_embeds_address(#[trigger] rules_for(shapes, mode)[i]),
{
    if embeds_address(shapes, mode) {
        let i = choose|i: int| 0 <= i < shapes.len() && #[trigger] shapes[i] is ByImmutableRef;
        assert(rule_embeds_address(rules_for(shapes, mode)[i]));
    }
    if exists|i: int|
        0 <= i < shapes.len() && rule_embeds_address(#[trigger] rules_for(shapes, mode)[i]) {
        let i = choose|i: int|
            0 <= i < shapes.len() && rule_embeds_address(#[trigger] rules_for(shapes, mode)[i]);
        assert(shapes[i] is ByImmutableRef);
    }
}

} // verus!
