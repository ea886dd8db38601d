//! Arrays and pairs of values that are their bytes: the parts' bytes, one
//! after the other, with nothing between them.
use crate::memory::{decode_sequence, zero_bytes, CopyConstructable};
use vstd::array::spec_array_update;
use vstd::prelude::*;

verus! {

/// The bytes of the values of `items`, one after the other.
pub open spec fn encode_sequence<T: CopyConstructable>(items: Seq<T>) -> Seq<u8>
    decreases items.len(),
{
    if items.len() == 0 {
        Seq::empty()
    } else {
        encode_sequence(items.drop_last()) + items.last().encode_bytes()
    }
}

/// The array whose elements are `items`.
pub open spec fn array_of<T, const N: usize>(items: Seq<T>) -> [T; N] {
    choose|array: [T; N]| array@ == items
}

spec fn array_upto<T, const N: usize>(items: Seq<T>, upto: nat) -> [T; N]
    decreases upto,
{
    if upto == 0 {
        arbitrary()
    } else {
        spec_array_update(array_upto(items, (upto - 1) as nat), upto - 1, items[upto - 1])
    }
}

proof fn lemma_array_upto<T, const N: usize>(items: Seq<T>, upto: nat)
    requires
        upto <= N,
    ensures
        forall|i: int| 0 <= i < upto ==> array_upto::<T, N>(items, upto)@[i] == items[i],
    decreases upto,
{
    broadcast use vstd::array::group_array_axioms;

    if upto > 0 {
        lemma_array_upto::<T, N>(items, (upto - 1) as nat);
    }
}

/// There is an array of any `N` items.
pub proof fn lemma_array_of<T, const N: usize>(items: Seq<T>)
    requires
        items.len() == N,
    ensures
        array_of::<T, N>(items)@ == items,
{
    broadcast use vstd::array::group_array_axioms;

    lemma_array_upto::<T, N>(items, N as nat);
    let witness = array_upto::<T, N>(items, N as nat);
    assert(witness@ =~= items);
}

pub proof fn lemma_encode_sequence_len<T: CopyConstructable>(items: Seq<T>)
    ensures
        encode_sequence(items).len() == items.len() * T::encoded_len(),
    decreases items.len(),
{
    if items.len() > 0 {
        lemma_encode_sequence_len(items.drop_last());
        items.last().lemma_encode_len();
        assert((items.len() - 1) * T::encoded_len() + T::encoded_len() == items.len()
            * T::encoded_len()) by (nonlinear_arith);
    } else {
        assert(items.len() * T::encoded_len() == 0) by (nonlinear_arith)
            requires
                items.len() == 0,
        ;
    }
}

/// Decoding `count` values from bytes and spelling them again gives the
/// bytes back.
pub proof fn lemma_sequence_round_trip<T: CopyConstructable>(bytes: Seq<u8>, count: nat)
    requires
        bytes.len() == count * T::encoded_len(),
    ensures
        encode_sequence(decode_sequence::<T>(bytes, count)) == bytes,
    decreases count,
{
    let size = T::encoded_len();
    let items = decode_sequence::<T>(bytes, count);
    if count == 0 {
        assert(bytes.len() == 0) by (nonlinear_arith)
            requires
                bytes.len() == count * size,
                count == 0,
        ;
        assert(encode_sequence(items) =~= bytes);
    } else {
        let before = (count - 1) as nat;
        assert(before * size + size == count * size) by (nonlinear_arith)
            requires
                before + 1 == count,
        ;
        assert(0 <= before * size) by (nonlinear_arith);
        let head = bytes.subrange(0, (before * size) as int);
        let tail = bytes.subrange((before * size) as int, (count * size) as int);
        lemma_sequence_round_trip::<T>(head, before);
        assert(items.drop_last() =~= decode_sequence::<T>(head, before)) by {
            assert forall|i: int| 0 <= i < before implies #[trigger] items.drop_last()[i]
                == decode_sequence::<T>(head, before)[i] by {
                assert(0 <= i * size && (i + 1) * size <= before * size && i * size + size == (i
                    + 1) * size) by (nonlinear_arith)
                    requires
                        0 <= i < before,
                ;
                assert(head.subrange(i * size, (i + 1) * size) =~= bytes.subrange(
                    i * size,
                    (i + 1) * size,
                ));
            }
        }
        assert(items.last() == T::decode_bytes(tail));
        T::lemma_decode_encode(tail);
        assert(encode_sequence(items) =~= bytes);
    }
}

impl<T: CopyConstructable, const N: usize> CopyConstructable for [T; N] {
    open spec fn encoded_len() -> nat {
        (N * T::encoded_len()) as nat
    }

    open spec fn decode_bytes(bytes: Seq<u8>) -> Self {
        array_of(decode_sequence::<T>(bytes, N as nat))
    }

    open spec fn encode_bytes(self) -> Seq<u8> {
        encode_sequence(self@)
    }

    proof fn lemma_encode_len(self) {
        lemma_encode_sequence_len(self@);
    }

    proof fn lemma_decode_encode(bytes: Seq<u8>) {
        lemma_array_of::<T, N>(decode_sequence::<T>(bytes, N as nat));
        lemma_sequence_round_trip::<T>(bytes, N as nat);
    }

    fn byte_size() -> (size: usize) {
        if N == 0 {
            assert(N * T::encoded_len() == 0) by (nonlinear_arith)
                requires
                    N == 0,
            ;
            0
        } else {
            assert(T::encoded_len() <= N * T::encoded_len()) by (nonlinear_arith)
                requires
                    N >= 1,
            ;
            N * T::byte_size()
        }
    }

    fn zeroed() -> (value: Self) {
        let value: [T; N] = [T::zeroed();N];
        proof {
            broadcast use vstd::array::group_array_axioms;

            let size = T::encoded_len();
            let zeros = zero_bytes((N * size) as nat);
            let items = decode_sequence::<T>(zeros, N as nat);
            assert forall|i: int| 0 <= i < N implies #[trigger] items[i] == value@[i] by {
                assert(0 <= i * size && (i + 1) * size <= N * size && i * size + size == (i + 1)
                    * size) by (nonlinear_arith)
                    requires
                        0 <= i < N,
                ;
                assert(zeros.subrange(i * size, (i + 1) * size) =~= zero_bytes(size));
            }
            assert(value@ =~= items);
            lemma_array_of::<T, N>(items);
            assert(value =~= array_of::<T, N>(items));
        }
        value
    }

    fn from_bytes(bytes: &[u8]) -> (value: Self) {
        let mut value: [T; N] = [T::zeroed();N];
        let total: usize = bytes.len();
        let mut index: usize = 0;
        if N > 0 {
            assert(T::encoded_len() <= N * T::encoded_len()) by (nonlinear_arith)
                requires
                    N >= 1,
            ;
            let size: usize = T::byte_size();
            while index < N
                invariant
                    index <= N,
                    size == T::encoded_len(),
                    total == N * size,
                    bytes@.len() == total,
                    forall|i: int|
                        0 <= i < index ==> value@[i] == T::decode_bytes(
                            #[trigger] bytes@.subrange(i * size, (i + 1) * size),
                        ),
                decreases N - index,
            {
                proof {
                    assert(index * size + size == (index + 1) * size) by (nonlinear_arith);
                    assert(0 <= index * size) by (nonlinear_arith);
                    assert((index + 1) * size <= N * size) by (nonlinear_arith)
                        requires
                            index + 1 <= N,
                    ;
                }
                let start: usize = index * size;
                let chunk = vstd::slice::slice_subrange(bytes, start, start + size);
                value[index] = T::from_bytes(chunk);
                index = index + 1;
            }
        }
        proof {
            broadcast use vstd::array::group_array_axioms;

            let items = decode_sequence::<T>(bytes@, N as nat);
            assert(value@ =~= items);
            lemma_array_of::<T, N>(items);
            assert(value =~= array_of::<T, N>(items));
        }
        value
    }

    fn to_bytes(&self) -> (bytes: Vec<u8>) {
        let mut bytes: Vec<u8> = Vec::new();
        let mut index: usize = 0;
        assert(self@.take(0) =~= Seq::<T>::empty());
        while index < N
            invariant
                index <= N,
                bytes@ == encode_sequence(self@.take(index as int)),
            decreases N - index,
        {
            let part = self[index].to_bytes();
            bytes.extend_from_slice(part.as_slice());
            proof {
                let upto = self@.take(index + 1);
                assert(upto.drop_last() =~= self@.take(index as int));
                assert(upto.last() == self@[index as int]);
            }
            index = index + 1;
        }
        assert(self@.take(N as int) =~= self@);
        bytes
    }
}

/// A pair is the bytes of its first part, then those of its second.
impl<T1: CopyConstructable, T2: CopyConstructable> CopyConstructable for (T1, T2) where
    (T1, T2): Copy,
 {
    open spec fn encoded_len() -> nat {
        T1::encoded_len() + T2::encoded_len()
    }

    open spec fn decode_bytes(bytes: Seq<u8>) -> Self {
        (
            T1::decode_bytes(bytes.subrange(0, T1::encoded_len() as int)),
            T2::decode_bytes(bytes.subrange(T1::encoded_len() as int, bytes.len() as int)),
        )
    }

    open spec fn encode_bytes(self) -> Seq<u8> {
        self.0.encode_bytes() + self.1.encode_bytes()
    }

    proof fn lemma_encode_len(self) {
        self.0.lemma_encode_len();
        self.1.lemma_encode_len();
    }

    proof fn lemma_decode_encode(bytes: Seq<u8>) {
        let first = bytes.subrange(0, T1::encoded_len() as int);
        let second = bytes.subrange(T1::encoded_len() as int, bytes.len() as int);
        T1::lemma_decode_encode(first);
        T2::lemma_decode_encode(second);
        assert(first + second =~= bytes);
    }

    fn byte_size() -> (size: usize) {
        T1::byte_size() + T2::byte_size()
    }

    fn zeroed() -> (value: Self) {
        proof {
            let zeros = zero_bytes(T1::encoded_len() + T2::encoded_len());
            assert(zeros.subrange(0, T1::encoded_len() as int) =~= zero_bytes(T1::encoded_len()));
            assert(zeros.subrange(T1::encoded_len() as int, zeros.len() as int) =~= zero_bytes(
                T2::encoded_len(),
            ));
        }
        (T1::zeroed(), T2::zeroed())
    }

    fn from_bytes(bytes: &[u8]) -> (value: Self) {
        let total: usize = bytes.len();
        assert(total == T1::encoded_len() + T2::encoded_len());
        let split: usize = T1::byte_size();
        let first = vstd::slice::slice_subrange(bytes, 0, split);
        let second = vstd::slice::slice_subrange(bytes, split, total);
        (T1::from_bytes(first), T2::from_bytes(second))
    }

    fn to_bytes(&self) -> (bytes: Vec<u8>) {
        let mut bytes = self.0.to_bytes();
        let second = self.1.to_bytes();
        bytes.extend_from_slice(second.as_slice());
        bytes
    }
}

} // verus!
