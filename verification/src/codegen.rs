//! The interface between a record type and the formats prepared against it.

use vstd::prelude::*;
use crate::plan::{count_argument, format_argument, ResolvedArgument, Role};
use crate::value::{FormatTrait, ValueType};

verus! {

/// The resolved argument that renders field `index`, of type `ty`, under
/// `kind`; none if the type does not support the kind.
pub open spec fn combined(kind: FormatTrait, index: usize, ty: ValueType) -> Option<
    ResolvedArgument,
> {
    if kind.spec_allowed(ty) {
        Some(format_argument(index, kind))
    } else {
        None
    }
}

/// The resolved argument that takes a count from field `index`; none unless
/// the field can supply one.
pub open spec fn counted(index: usize, counts: bool) -> Option<ResolvedArgument> {
    if counts {
        Some(count_argument(index))
    } else {
        None
    }
}

/// The kind itself if values of type `ty` support it.
pub fn get_formatter(kind: FormatTrait, ty: ValueType) -> (r: Option<FormatTrait>)
    ensures
        r == if kind.spec_allowed(ty) {
            Some(kind)
        } else {
            None::<FormatTrait>
        },
{
    if kind.allowed(ty) {
        Some(kind)
    } else {
        None
    }
}

/// Puts a field and a display kind together.
pub fn make_combined(index: usize, kind: FormatTrait) -> (r: ResolvedArgument)
    ensures
        r == format_argument(index, kind),
{
    ResolvedArgument { index, role: Role::Format(kind) }
}

/// Combines the field `index`, of type `ty`, with a display kind: the
/// resolved argument that renders the field under the kind, or `None` if
/// the kind is not applicable to the type.
pub fn combine(kind: FormatTrait, index: usize, ty: ValueType) -> (r: Option<ResolvedArgument>)
    ensures
        r == combined(kind, index, ty),
{
    match get_formatter(kind, ty) {
        Some(k) => Some(make_combined(index, k)),
        None => None,
    }
}

/// A record type against which format strings can be checked before any
/// value of the type is at hand.
pub trait FormatArgs {
    /// The field that `name` stands for.
    spec fn name_to_index(&self, name: Seq<char>) -> Option<usize>;

    /// Is there a field `index`?
    spec fn has_index(&self, index: usize) -> bool;

    /// The type of field `index`.
    spec fn child_type(&self, index: usize) -> ValueType;

    /// Can field `index` supply a count?
    spec fn child_counts(&self, index: usize) -> bool;

    /// Finds the field that `name` stands for. A field that is found exists.
    fn validate_name(&self, name: &str) -> (r: Option<usize>)
        ensures
            r == self.name_to_index(name@),
            r matches Some(i) ==> self.has_index(i),
    ;

    /// Is `index` the index of a field?
    fn validate_index(&self, index: usize) -> (r: bool)
        ensures
            r == self.has_index(index),
    ;

    /// The resolved argument that renders field `index` under `kind`, or
    /// `None` if the field does not support the kind.
    fn get_child(&self, kind: FormatTrait, index: usize) -> (r: Option<ResolvedArgument>)
        requires
            self.has_index(index),
        ensures
            r == combined(kind, index, self.child_type(index)),
    ;

    /// The resolved argument that takes a count from field `index`, or
    /// `None` if the field cannot supply one.
    fn as_usize(&self, index: usize) -> (r: Option<ResolvedArgument>)
        requires
            self.has_index(index),
        ensures
            r == counted(index, self.child_counts(index)),
    ;
}

} // verus!
