//! Parameters of a function to memoize: how each is bound, how it is passed,
//! and the shape of its type as far as key derivation reads it.

use vstd::prelude::*;
use crate::config::ConfigError;

verus! {

/// The shape of a parameter's type, behind the reference if it has one.
#[derive(Debug)]
pub enum TypeShape {
    /// A floating-point number.
    Float,
    /// Any other type that is no sequence: it is copied, compared and hashed as it is.
    Plain,
    /// A slice or an array with elements of the given shape.
    Sequence(Box<TypeShape>),
}

/// How a parameter is bound in the function's signature.
#[derive(Debug)]
pub enum Binding {
    /// A plain binding with this name.
    Named(String),
    /// A destructuring pattern.
    Pattern,
    /// A `self` receiver.
    Receiver,
}

/// How a parameter is passed.
#[derive(Clone, Copy, Debug, PartialEq, Eq, Structural)]
pub enum Passing {
    Value,
    SharedRef,
    MutableRef,
}

/// A parameter as the signature declares it.
#[derive(Debug)]
pub struct Parameter {
    pub binding: Binding,
    pub passing: Passing,
    pub ty: TypeShape,
}

/// How an accepted parameter is passed, with the shape of the value passed or referred to.
#[derive(Debug)]
pub enum ParamShape {
    ByValue(TypeShape),
    ByImmutableRef(TypeShape),
}

/// A parameter that memoization accepts.
#[derive(Debug)]
pub struct ParameterDescriptor {
    pub name: String,
    pub shape: ParamShape,
}

/// The mathematical value of a `ParameterDescriptor`.
pub ghost struct DescriptorView {
    pub name: Seq<char>,
    pub shape: ParamShape,
}

impl View for ParameterDescriptor {
    type V = DescriptorView;

    open spec fn view(&self) -> DescriptorView {
        DescriptorView { name: self.name@, shape: self.shape }
    }
}

/// The shapes of a list of descriptors, in order.
pub open spec fn shapes_of(params: Seq<ParameterDescriptor>) -> Seq<ParamShape> {
    Seq::new(params.len(), |i: int| params[i].shape)
}

/// The position of the first parameter among the first `n` that is not a plain binding.
pub open spec fn first_unnamed(params: Seq<Parameter>, n: int) -> Option<int>
    decreases n,
{
    if n <= 0 {
        None
    } else {
        match first_unnamed(params, n - 1) {
            Some(i) => Some(i),
            None => if params[n - 1].binding is Named {
                None
            } else {
                Some(n - 1)
            },
        }
    }
}

/// The position of the first parameter among the first `n` that is a mutable reference.
pub open spec fn first_mutable(params: Seq<Parameter>, n: int) -> Option<int>
    decreases n,
{
    if n <= 0 {
        None
    } else {
        match first_mutable(params, n - 1) {
            Some(i) => Some(i),
            None => if params[n - 1].passing == Passing::MutableRef {
                Some(n - 1)
            } else {
                None
            },
        }
    }
}

/// Why a parameter list is refused, if it is: the first parameter that is no plain
/// binding, else the first mutable reference.
pub open spec fn refusal(params: Seq<Parameter>) -> Option<ConfigError> {
    let n = params.len() as int;
    match first_unnamed(params, n) {
        Some(i) => if params[i].binding is Receiver {
            Some(ConfigError::ReceiverParameter { index: i as usize })
        } else {
            Some(ConfigError::UnsupportedPattern { index: i as usize })
        },
        None => match first_mutable(params, n) {
            Some(i) => Some(ConfigError::MutableReference { index: i as usize }),
            None => None,
        },
    }
}

/// The descriptor of an accepted parameter.
pub open spec fn descriptor_of(p: Parameter) -> DescriptorView {
    DescriptorView {
        name: p.binding->Named_0@,
        shape: if p.passing == Passing::Value {
            ParamShape::ByValue(p.ty)
        } else {
            ParamShape::ByImmutableRef(p.ty)
        },
    }
}

impl TypeShape {
    /// A copy of this shape.
    pub fn duplicate(&self) -> (copy: TypeShape)
        ensures
            copy == *self,
        decreases self,
    {
        match self {
            TypeShape::Float => TypeShape::Float,
            TypeShape::Plain => TypeShape::Plain,
            TypeShape::Sequence(element) => TypeShape::Sequence(Box::new(element.duplicate())),
        }
    }

    /// Whether this is the shape of a slice or an array.
    pub fn is_sequence(&self) -> (yes: bool)
        ensures
            yes == (*self is Sequence),
    {
        match self {
            TypeShape::Sequence(_) => true,
            _ => false,
        }
    }
}

fn check_bindings(params: &Vec<Parameter>) -> (bad: Option<usize>)
    ensures
        first_unnamed(params@, params@.len() as int) == match bad {
            Some(i) => Some(i as int),
            None => None,
        },
        bad is Some ==> bad->0 < params@.len(),
{
    let mut i: usize = 0;
    while i < params.len()
        invariant
            i <= params.len(),
            first_unnamed(params@, i as int) is None,
        decreases params.len() - i,
    {
        match &params[i].binding {
            Binding::Named(_) => {},
            _ => {
                assert(first_unnamed(params@, i + 1) == Some(i as int));
                proof {
                    lemma_first_unnamed_stays(params@, i + 1, params@.len() as int);
                }
                return Some(i);
            },
        }
        i += 1;
    }
    None
}

proof fn lemma_first_unnamed_stays(params: Seq<Parameter>, m: int, n: int)
    requires
        0 <= m <= n,
        first_unnamed(params, m) is Some,
    ensures
        first_unnamed(params, n) == first_unnamed(params, m),
    decreases n - m,
{
    if m < n {
        lemma_first_unnamed_stays(params, m, n - 1);
    }
}

proof fn lemma_first_mutable_stays(params: Seq<Parameter>, m: int, n: int)
    requires
        0 <= m <= n,
        first_mutable(params, m) is Some,
    ensures
        first_mutable(params, n) == first_mutable(params, m),
    decreases n - m,
{
    if m < n {
        lemma_first_mutable_stays(params, m, n - 1);
    }
}

fn check_passing(params: &Vec<Parameter>) -> (bad: Option<usize>)
    ensures
        first_mutable(params@, params@.len() as int) == match bad {
            Some(i) => Some(i as int),
            None => None,
        },
        bad is Some ==> bad->0 < params@.len(),
{
    let mut i: usize = 0;
    while i < params.len()
        invariant
            i <= params.len(),
            first_mutable(params@, i as int) is None,
        decreases params.len() - i,
    {
        if params[i].passing == Passing::MutableRef {
            assert(first_mutable(params@, i + 1) == Some(i as int));
            proof {
                lemma_first_mutable_stays(params@, i + 1, params@.len() as int);
            }
            return Some(i);
        }
        i += 1;
    }
    None
}

/// Checks the parameters of a function to memoize and describes them.
///
/// A parameter that is no plain binding is refused, and so is a mutable reference:
/// what a cached result was computed from could change between two calls.
pub fn describe(params: &Vec<Parameter>) -> (out: Result<Vec<ParameterDescriptor>, ConfigError>)
    ensures
        match out {
            Ok(descriptors) => {
                &&& refusal(params@) is None
                &&& descriptors@.len() == params@.len()
                &&& forall|i: int|
                    0 <= i < params@.len() ==> (#[trigger] descriptors@[i])@ == descriptor_of(
                        params@[i],
                    )
            },
            Err(e) => refusal(params@) == Some(e),
        },
{
    if let Some(i) = check_bindings(params) {
        let receiver = match &params[i].binding {
            Binding::Receiver => true,
            _ => false,
        };
        if receiver {
            return Err(ConfigError::ReceiverParameter { index: i });
        }
        return Err(ConfigError::UnsupportedPattern { index: i });
    }
    if let Some(i) = check_passing(params) {
        return Err(ConfigError::MutableReference { index: i });
    }
    let mut descriptors: Vec<ParameterDescriptor> = Vec::new();
    let mut i: usize = 0;
    while i < params.len()
        invariant
            i <= params.len(),
            descriptors@.len() == i,
            first_unnamed(params@, params@.len() as int) is None,
            forall|j: int| 0 <= j < i ==> (#[trigger] descriptors@[j])@ == descriptor_of(params@[j]),
        decreases params.len() - i,
    {
        let p = &params[i];
        proof {
            lemma_all_named(params@, params@.len() as int, i as int);
        }
        let name = match &p.binding {
            Binding::Named(name) => name.clone(),
            _ => String::new(),
        };
        let shape = if p.passing == Passing::Value {
            ParamShape::ByValue(p.ty.duplicate())
        } else {
            ParamShape::ByImmutableRef(p.ty.duplicate())
        };
        descriptors.push(ParameterDescriptor { name, shape });
        i += 1;
    }
    Ok(descriptors)
}

proof fn lemma_all_named(params: Seq<Parameter>, n: int, i: int)
    requires
        0 <= i < n,
        first_unnamed(params, n) is None,
    ensures
        params[i].binding is Named,
    decreases n,
{
    if i < n - 1 {
        lemma_all_named(params, n - 1, i);
    }
}

} // verus!
