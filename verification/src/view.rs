//! Structure declarations: a name, an optional size, fields at offsets, and
//! which declaration extends which.
use crate::memory::CopyConstructable;
use core::marker::PhantomData;
use vstd::prelude::*;

verus! {

/// A declared structure. `name_spec` is its name as proofs know it, stated
/// by overriding it.
pub trait Viewable {
    open spec fn name_spec() -> Seq<char> {
        arbitrary()
    }

    /// The name the structure was declared under.
    fn name() -> (name: &'static str)
        ensures
            name@ == Self::name_spec(),
    ;
}

/// A declared structure of known size: `Memory` is a value of exactly its
/// bytes.
pub trait ViewableSized: Viewable {
    type Memory: CopyConstructable;

    /// The number of bytes the structure takes.
    fn memory_size() -> (size: usize)
        requires
            Self::Memory::encoded_len() <= usize::MAX,
        ensures
            size == Self::Memory::encoded_len(),
    {
        Self::Memory::byte_size()
    }
}

/// A structure that extends `T` lies over the same memory as `T`: the fields
/// of `T` can be accessed through it.
pub trait ViewableExtends<T> {

}

/// Every structure extends itself.
impl<T> ViewableExtends<T> for T {

}

/// A field of a structure, as far as its type does not matter.
pub trait ViewableField {
    spec fn name_spec(&self) -> Seq<char>;

    /// Whether the field's offset can be resolved.
    spec fn resolvable(&self) -> bool;

    /// Whether resolving the field's offset can give `offset`.
    spec fn resolves_to(&self, offset: u64) -> bool;

    fn name(&self) -> (name: &'static str)
        ensures
            name@ == self.name_spec(),
    ;

    /// Resolves the offset the field is at.
    fn offset(&self) -> (offset: u64)
        requires
            self.resolvable(),
        ensures
            self.resolves_to(offset),
    ;
}

/// A field of type `T`, declared by the structure `V`. Its offset is
/// resolved anew on every use.
pub struct TypedViewableField<V, T, F: Fn() -> u64> {
    name: &'static str,
    offset_fn: F,
    _type: PhantomData<(V, T)>,
}

impl<V, T, F: Fn() -> u64> TypedViewableField<V, T, F> {
    /// The resolver the field was defined with.
    pub closed spec fn resolver(&self) -> F {
        self.offset_fn
    }

    pub closed spec fn declared_name(&self) -> Seq<char> {
        self.name@
    }

    pub fn define(name: &'static str, offset_fn: F) -> (field: Self)
        ensures
            field.declared_name() == name@,
            field.resolver() == offset_fn,
    {
        TypedViewableField { name, offset_fn, _type: PhantomData }
    }
}

impl<V, T, F: Fn() -> u64> ViewableField for TypedViewableField<V, T, F> {
    open spec fn name_spec(&self) -> Seq<char> {
        self.declared_name()
    }

    open spec fn resolvable(&self) -> bool {
        call_requires(self.resolver(), ())
    }

    open spec fn resolves_to(&self, offset: u64) -> bool {
        call_ensures(self.resolver(), (), offset)
    }

    fn name(&self) -> (name: &'static str) {
        self.name
    }

    fn offset(&self) -> (offset: u64) {
        (self.offset_fn)()
    }
}

} // verus!
