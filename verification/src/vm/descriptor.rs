use vstd::prelude::*;

use jdescriptor::MethodDescriptor;
use jdescriptor::TypeDescriptor as T;
use std::str::FromStr;

verus! {

/// The kind of type that a field or parameter descriptor names.
#[derive(Debug, Clone, Copy, PartialEq, Eq, Structural)]
pub enum FieldKind {
    Byte,
    Char,
    Double,
    Float,
    Int,
    Long,
    Short,
    Boolean,
    Void,
    /// An array type.
    Array,
    /// A class type.
    Object,
}

/// The kind that `jdescriptor::TypeDescriptor::from_str` gives for
/// `descriptor`, or `None` where it reports an error.
pub uninterp spec fn spec_type_kind(descriptor: Seq<char>) -> Option<FieldKind>;

/// The kinds of the parameters that `jdescriptor::MethodDescriptor::from_str`
/// finds in `descriptor`, or `None` where it reports an error.
pub uninterp spec fn spec_param_kinds(descriptor: Seq<char>) -> Option<Seq<FieldKind>>;

/// Parses a field descriptor with `jdescriptor::TypeDescriptor::from_str`
/// and gives the kind of the type.
///
/// Trusted: the result is the one named by `spec_type_kind`. The crate
/// decides by the first character: an empty descriptor is an error, and
/// `Z`, `B`, `C`, `S`, `I`, `J`, `F`, `D` and `V` give the primitive types
/// they stand for, whatever follows.
#[verifier::external_body]
pub(crate) fn type_kind(descriptor: &str) -> (r: Option<FieldKind>)
    ensures
        r == spec_type_kind(descriptor@),
        descriptor@.len() == 0 ==> r is None,
        descriptor@.len() > 0 && descriptor@[0] == 'Z' ==> r == Some(FieldKind::Boolean),
        descriptor@.len() > 0 && descriptor@[0] == 'B' ==> r == Some(FieldKind::Byte),
        descriptor@.len() > 0 && descriptor@[0] == 'C' ==> r == Some(FieldKind::Char),
        descriptor@.len() > 0 && descriptor@[0] == 'S' ==> r == Some(FieldKind::Short),
        descriptor@.len() > 0 && descriptor@[0] == 'I' ==> r == Some(FieldKind::Int),
        descriptor@.len() > 0 && descriptor@[0] == 'J' ==> r == Some(FieldKind::Long),
        descriptor@.len() > 0 && descriptor@[0] == 'F' ==> r == Some(FieldKind::Float),
        descriptor@.len() > 0 && descriptor@[0] == 'D' ==> r == Some(FieldKind::Double),
        descriptor@.len() > 0 && descriptor@[0] == 'V' ==> r == Some(FieldKind::Void),
{
    let Ok(t) = T::from_str(descriptor) else { return None };
    Some(match t {
        T::Byte => FieldKind::Byte,
        T::Char => FieldKind::Char,
        T::Double => FieldKind::Double,
        T::Float => FieldKind::Float,
        T::Integer => FieldKind::Int,
        T::Long => FieldKind::Long,
        T::Short => FieldKind::Short,
        T::Boolean => FieldKind::Boolean,
        T::Void => FieldKind::Void,
        T::Array(_, _) => FieldKind::Array,
        T::Object(_) => FieldKind::Object,
    })
}

/// Parses a method descriptor with `jdescriptor::MethodDescriptor::from_str`
/// and gives the kind of parameter `k`: `None` where the descriptor is an
/// error, `Some(None)` where there is no parameter `k`.
///
/// Trusted: the result is read off the list named by `spec_param_kinds`.
#[verifier::external_body]
pub(crate) fn param_kind_at(descriptor: &str, k: usize) -> (r: Option<Option<FieldKind>>)
    ensures
        match spec_param_kinds(descriptor@) {
            Some(ks) => r == Some(if k < ks.len() { Some(ks[k as int]) } else { None::<FieldKind> }),
            None => r is None,
        },
{
    let Ok(d) = MethodDescriptor::from_str(descriptor) else { return None };
    let Some(t) = d.parameter_types().get(k) else { return Some(None) };
    Some(Some(match t {
        T::Byte => FieldKind::Byte,
        T::Char => FieldKind::Char,
        T::Double => FieldKind::Double,
        T::Float => FieldKind::Float,
        T::Integer => FieldKind::Int,
        T::Long => FieldKind::Long,
        T::Short => FieldKind::Short,
        T::Boolean => FieldKind::Boolean,
        T::Void => FieldKind::Void,
        T::Array(_, _) => FieldKind::Array,
        T::Object(_) => FieldKind::Object,
    }))
}

/// The kinds of the parameters of a method of descriptor `descriptor`, in
/// order; `None` where the descriptor does not parse.
pub fn param_kinds(descriptor: &str) -> (r: Option<Vec<FieldKind>>)
    ensures
        r is Some == spec_param_kinds(descriptor@) is Some,
        r matches Some(v) ==> v@ == spec_param_kinds(descriptor@)->Some_0,
{
    let mut kinds: Vec<FieldKind> = Vec::new();
    let mut k: usize = 0;
    loop
        invariant
            spec_param_kinds(descriptor@) matches Some(ks) ==> k <= ks.len() && kinds@
                == ks.subrange(0, k as int),
        decreases spec_param_kinds(descriptor@)->Some_0.len() - k,
    {
        match param_kind_at(descriptor, k) {
            None => {
                return None;
            },
            Some(None) => {
                proof {
                    let ks = spec_param_kinds(descriptor@)->Some_0;
                    assert(ks.subrange(0, k as int) =~= ks);
                }
                return Some(kinds);
            },
            Some(Some(kind)) => {
                proof {
                    let ks = spec_param_kinds(descriptor@)->Some_0;
                    assert(ks.subrange(0, k + 1) =~= ks.subrange(0, k as int).push(ks[k as int]));
                }
                kinds.push(kind);
                // `kinds` now holds k + 1 kinds, a count that fits in a `usize`.
                k = kinds.len();
            },
        }
    }
}

} // verus!
