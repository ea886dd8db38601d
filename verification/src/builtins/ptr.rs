//! A 64-bit address with the type of what it points to.
use crate::copy;
use crate::copy::copy_spec;
use crate::encoding::{
    le_decode, le_encode, le_to_nat, lemma_le_bytes_round_trip, lemma_le_to_nat_bound,
    lemma_le_to_nat_zero, lemma_nat_to_le_len, lemma_pow256_values, nat_to_le,
};
use crate::error::MemoryDecodeError;
use crate::memory::{read_object_spec, CopyConstructable, FromMemoryView, MemoryView};
use crate::reference::Reference;
use crate::view::{Viewable, ViewableSized};
use core::marker::PhantomData;
use vstd::prelude::*;

verus! {

/// The address of a `T` in some memory source. It owns nothing: to read what
/// it points to takes a memory source.
#[derive(Debug, PartialEq, Eq, PartialOrd, Ord)]
pub struct Ptr64<T: ?Sized> {
    address: u64,
    _type: PhantomData<T>,
}

impl<T: ?Sized> Clone for Ptr64<T> {
    fn clone(&self) -> (copy: Self)
        ensures
            copy == *self,
    {
        *self
    }
}

impl<T: ?Sized> Copy for Ptr64<T> {

}

impl<T: ?Sized> Ptr64<T> {
    pub closed spec fn spec_address(&self) -> u64 {
        self.address
    }

    /// The pointer to `address`.
    pub closed spec fn at(address: u64) -> Self {
        Ptr64 { address, _type: PhantomData }
    }

    /// A pointer is no more than its address.
    pub proof fn lemma_at(self)
        ensures
            self == Self::at(self.spec_address()),
            forall|address: u64| #[trigger] Self::at(address).spec_address() == address,
    {
    }

    pub fn new(address: u64) -> (ptr: Self)
        ensures
            ptr == Self::at(address),
            ptr.spec_address() == address,
    {
        Ptr64 { address, _type: PhantomData }
    }

    pub fn address(&self) -> (address: u64)
        ensures
            address == self.spec_address(),
    {
        self.address
    }

    pub fn is_null(&self) -> (null: bool)
        ensures
            null == (self.spec_address() == 0),
    {
        self.address == 0
    }

    /// The same address, taken as that of a `V`.
    pub fn cast<V: ?Sized>(&self) -> (ptr: Ptr64<V>)
        ensures
            ptr == Ptr64::<V>::at(self.spec_address()),
            ptr.spec_address() == self.spec_address(),
    {
        Ptr64::<V> { address: self.address, _type: PhantomData }
    }
}

impl<T: FromMemoryView> Ptr64<T> {
    /// Decodes what the pointer points to in `memory`; nothing, and without
    /// a read, if the pointer is null.
    #[must_use]
    pub fn read_value<M: MemoryView>(&self, memory: &M) -> (res: Result<
        Option<T>,
        MemoryDecodeError<M::AccessError, T::DecodeError>,
    >)
        requires
            T::read_len() <= usize::MAX,
        ensures
            res == if self.spec_address() == 0 {
                Ok(None)
            } else {
                match read_object_spec::<T, M>(memory, self.spec_address()) {
                    Ok(value) => Ok(Some(value)),
                    Err(error) => Err(error),
                }
            },
    {
        if self.address > 0 {
            match T::read_object(memory, self.address) {
                Ok(value) => Ok(Some(value)),
                Err(error) => Err(error),
            }
        } else {
            Ok(None)
        }
    }
}

impl<T: Viewable> Ptr64<T> {
    /// A reference to what the pointer points to in `memory`; none if the
    /// pointer is null.
    #[must_use]
    pub fn reference_value<M: MemoryView>(&self, memory: M) -> (res: Option<Reference<T, M>>)
        ensures
            res == if self.spec_address() == 0 {
                None
            } else {
                Some(Reference::<T, M>::at(memory, self.spec_address()))
            },
    {
        if self.address > 0 {
            Some(Reference::new(memory, self.address))
        } else {
            None
        }
    }
}

impl<T: ViewableSized> Ptr64<T> {
    /// Copies what the pointer points to out of `memory`; nothing, and
    /// without a read, if the pointer is null.
    #[must_use]
    pub fn copy_value<M: MemoryView>(&self, memory: &M) -> (res: Result<
        Option<copy::Copy<T>>,
        M::AccessError,
    >)
        requires
            T::Memory::encoded_len() <= usize::MAX,
        ensures
            res == if self.spec_address() == 0 {
                Ok(None)
            } else {
                match copy_spec::<T, M>(memory, self.spec_address()) {
                    Ok(copy) => Ok(Some(copy)),
                    Err(fault) => Err(fault),
                }
            },
    {
        if self.address > 0 {
            match copy::Copy::<T>::read_from_memory(memory, self.address) {
                Ok(copy) => Ok(Some(copy)),
                Err(fault) => Err(fault),
            }
        } else {
            Ok(None)
        }
    }
}

/// A pointer is the eight bytes of its address, least significant first.
impl<T: ?Sized> CopyConstructable for Ptr64<T> {
    open spec fn encoded_len() -> nat {
        8
    }

    open spec fn decode_bytes(bytes: Seq<u8>) -> Self {
        Self::at(le_to_nat(bytes) as u64)
    }

    open spec fn encode_bytes(self) -> Seq<u8> {
        nat_to_le(self.spec_address() as nat, 8)
    }

    proof fn lemma_encode_len(self) {
        lemma_nat_to_le_len(self.spec_address() as nat, 8);
    }

    proof fn lemma_decode_encode(bytes: Seq<u8>) {
        lemma_pow256_values();
        lemma_le_to_nat_bound(bytes);
        lemma_le_bytes_round_trip(bytes);
        Self::at(0).lemma_at();
    }

    fn byte_size() -> (size: usize) {
        8
    }

    fn zeroed() -> (value: Self) {
        proof {
            lemma_le_to_nat_zero(8);
        }
        Self::new(0)
    }

    fn from_bytes(bytes: &[u8]) -> (value: Self) {
        Self::new(le_decode(bytes))
    }

    fn to_bytes(&self) -> (bytes: Vec<u8>) {
        le_encode(self.address, 8)
    }
}

} // verus!
