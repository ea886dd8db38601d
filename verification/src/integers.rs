//! The integers as values that are their bytes, least significant byte first;
//! the signed ones in two's complement.
use crate::encoding::{
    from_signed, le_decode, le_decode_signed, le_encode, le_encode_signed, le_to_nat,
    lemma_le_bytes_round_trip, lemma_le_to_nat_bound, lemma_le_to_nat_zero, lemma_nat_to_le_len,
    lemma_pow256_values, nat_to_le, to_signed,
};
use crate::memory::CopyConstructable;
use vstd::prelude::*;

verus! {

impl CopyConstructable for u8 {
    open spec fn encoded_len() -> nat {
        1
    }

    open spec fn decode_bytes(bytes: Seq<u8>) -> u8 {
        le_to_nat(bytes) as u8
    }

    open spec fn encode_bytes(self) -> Seq<u8> {
        nat_to_le(self as nat, 1)
    }

    proof fn lemma_encode_len(self) {
        lemma_nat_to_le_len(self as nat, 1);
    }

    proof fn lemma_decode_encode(bytes: Seq<u8>) {
        lemma_pow256_values();
        lemma_le_to_nat_bound(bytes);
        lemma_le_bytes_round_trip(bytes);
    }

    fn byte_size() -> (size: usize) {
        1
    }

    fn zeroed() -> (value: u8) {
        proof {
            lemma_le_to_nat_zero(1);
        }
        0
    }

    fn from_bytes(bytes: &[u8]) -> (value: u8) {
        proof {
            lemma_pow256_values();
            lemma_le_to_nat_bound(bytes@);
        }
        le_decode(bytes) as u8
    }

    fn to_bytes(&self) -> (bytes: Vec<u8>) {
        le_encode(*self as u64, 1)
    }
}

impl CopyConstructable for u16 {
    open spec fn encoded_len() -> nat {
        2
    }

    open spec fn decode_bytes(bytes: Seq<u8>) -> u16 {
        le_to_nat(bytes) as u16
    }

    open spec fn encode_bytes(self) -> Seq<u8> {
        nat_to_le(self as nat, 2)
    }

    proof fn lemma_encode_len(self) {
        lemma_nat_to_le_len(self as nat, 2);
    }

    proof fn lemma_decode_encode(bytes: Seq<u8>) {
        lemma_pow256_values();
        lemma_le_to_nat_bound(bytes);
        lemma_le_bytes_round_trip(bytes);
    }

    fn byte_size() -> (size: usize) {
        2
    }

    fn zeroed() -> (value: u16) {
        proof {
            lemma_le_to_nat_zero(2);
        }
        0
    }

    fn from_bytes(bytes: &[u8]) -> (value: u16) {
        proof {
            lemma_pow256_values();
            lemma_le_to_nat_bound(bytes@);
        }
        le_decode(bytes) as u16
    }

    fn to_bytes(&self) -> (bytes: Vec<u8>) {
        le_encode(*self as u64, 2)
    }
}

impl CopyConstructable for u32 {
    open spec fn encoded_len() -> nat {
        4
    }

    open spec fn decode_bytes(bytes: Seq<u8>) -> u32 {
        le_to_nat(bytes) as u32
    }

    open spec fn encode_bytes(self) -> Seq<u8> {
        nat_to_le(self as nat, 4)
    }

    proof fn lemma_encode_len(self) {
        lemma_nat_to_le_len(self as nat, 4);
    }

    proof fn lemma_decode_encode(bytes: Seq<u8>) {
        lemma_pow256_values();
        lemma_le_to_nat_bound(bytes);
        lemma_le_bytes_round_trip(bytes);
    }

    fn byte_size() -> (size: usize) {
        4
    }

    fn zeroed() -> (value: u32) {
        proof {
            lemma_le_to_nat_zero(4);
        }
        0
    }

    fn from_bytes(bytes: &[u8]) -> (value: u32) {
        proof {
            lemma_pow256_values();
            lemma_le_to_nat_bound(bytes@);
        }
        le_decode(bytes) as u32
    }

    fn to_bytes(&self) -> (bytes: Vec<u8>) {
        le_encode(*self as u64, 4)
    }
}

impl CopyConstructable for u64 {
    open spec fn encoded_len() -> nat {
        8
    }

    open spec fn decode_bytes(bytes: Seq<u8>) -> u64 {
        le_to_nat(bytes) as u64
    }

    open spec fn encode_bytes(self) -> Seq<u8> {
        nat_to_le(self as nat, 8)
    }

    proof fn lemma_encode_len(self) {
        lemma_nat_to_le_len(self as nat, 8);
    }

    proof fn lemma_decode_encode(bytes: Seq<u8>) {
        lemma_pow256_values();
        lemma_le_to_nat_bound(bytes);
        lemma_le_bytes_round_trip(bytes);
    }

    fn byte_size() -> (size: usize) {
        8
    }

    fn zeroed() -> (value: u64) {
        proof {
            lemma_le_to_nat_zero(8);
        }
        0
    }

    fn from_bytes(bytes: &[u8]) -> (value: u64) {
        proof {
            lemma_pow256_values();
            lemma_le_to_nat_bound(bytes@);
        }
        le_decode(bytes) as u64
    }

    fn to_bytes(&self) -> (bytes: Vec<u8>) {
        le_encode(*self as u64, 8)
    }
}

impl CopyConstructable for i8 {
    open spec fn encoded_len() -> nat {
        1
    }

    open spec fn decode_bytes(bytes: Seq<u8>) -> i8 {
        to_signed(le_to_nat(bytes), 1) as i8
    }

    open spec fn encode_bytes(self) -> Seq<u8> {
        nat_to_le(from_signed(self as int, 1), 1)
    }

    proof fn lemma_encode_len(self) {
        lemma_nat_to_le_len(from_signed(self as int, 1), 1);
    }

    proof fn lemma_decode_encode(bytes: Seq<u8>) {
        lemma_pow256_values();
        lemma_le_to_nat_bound(bytes);
        lemma_le_bytes_round_trip(bytes);
    }

    fn byte_size() -> (size: usize) {
        1
    }

    fn zeroed() -> (value: i8) {
        proof {
            lemma_pow256_values();
            lemma_le_to_nat_zero(1);
        }
        0
    }

    fn from_bytes(bytes: &[u8]) -> (value: i8) {
        proof {
            lemma_pow256_values();
            lemma_le_to_nat_bound(bytes@);
        }
        le_decode_signed(bytes) as i8
    }

    fn to_bytes(&self) -> (bytes: Vec<u8>) {
        proof {
            lemma_pow256_values();
        }
        le_encode_signed(*self as i64, 1)
    }
}

impl CopyConstructable for i16 {
    open spec fn encoded_len() -> nat {
        2
    }

    open spec fn decode_bytes(bytes: Seq<u8>) -> i16 {
        to_signed(le_to_nat(bytes), 2) as i16
    }

    open spec fn encode_bytes(self) -> Seq<u8> {
        nat_to_le(from_signed(self as int, 2), 2)
    }

    proof fn lemma_encode_len(self) {
        lemma_nat_to_le_len(from_signed(self as int, 2), 2);
    }

    proof fn lemma_decode_encode(bytes: Seq<u8>) {
        lemma_pow256_values();
        lemma_le_to_nat_bound(bytes);
        lemma_le_bytes_round_trip(bytes);
    }

    fn byte_size() -> (size: usize) {
        2
    }

    fn zeroed() -> (value: i16) {
        proof {
            lemma_pow256_values();
            lemma_le_to_nat_zero(2);
        }
        0
    }

    fn from_bytes(bytes: &[u8]) -> (value: i16) {
        proof {
            lemma_pow256_values();
            lemma_le_to_nat_bound(bytes@);
        }
        le_decode_signed(bytes) as i16
    }

    fn to_bytes(&self) -> (bytes: Vec<u8>) {
        proof {
            lemma_pow256_values();
        }
        le_encode_signed(*self as i64, 2)
    }
}

impl CopyConstructable for i32 {
    open spec fn encoded_len() -> nat {
        4
    }

    open spec fn decode_bytes(bytes: Seq<u8>) -> i32 {
        to_signed(le_to_nat(bytes), 4) as i32
    }

    open spec fn encode_bytes(self) -> Seq<u8> {
        nat_to_le(from_signed(self as int, 4), 4)
    }

    proof fn lemma_encode_len(self) {
        lemma_nat_to_le_len(from_signed(self as int, 4), 4);
    }

    proof fn lemma_decode_encode(bytes: Seq<u8>) {
        lemma_pow256_values();
        lemma_le_to_nat_bound(bytes);
        lemma_le_bytes_round_trip(bytes);
    }

    fn byte_size() -> (size: usize) {
        4
    }

    fn zeroed() -> (value: i32) {
        proof {
            lemma_pow256_values();
            lemma_le_to_nat_zero(4);
        }
        0
    }

    fn from_bytes(bytes: &[u8]) -> (value: i32) {
        proof {
            lemma_pow256_values();
            lemma_le_to_nat_bound(bytes@);
        }
        le_decode_signed(bytes) as i32
    }

    fn to_bytes(&self) -> (bytes: Vec<u8>) {
        proof {
            lemma_pow256_values();
        }
        le_encode_signed(*self as i64, 4)
    }
}

impl CopyConstructable for i64 {
    open spec fn encoded_len() -> nat {
        8
    }

    open spec fn decode_bytes(bytes: Seq<u8>) -> i64 {
        to_signed(le_to_nat(bytes), 8) as i64
    }

    open spec fn encode_bytes(self) -> Seq<u8> {
        nat_to_le(from_signed(self as int, 8), 8)
    }

    proof fn lemma_encode_len(self) {
        lemma_nat_to_le_len(from_signed(self as int, 8), 8);
    }

    proof fn lemma_decode_encode(bytes: Seq<u8>) {
        lemma_pow256_values();
        lemma_le_to_nat_bound(bytes);
        lemma_le_bytes_round_trip(bytes);
    }

    fn byte_size() -> (size: usize) {
        8
    }

    fn zeroed() -> (value: i64) {
        proof {
            lemma_pow256_values();
            lemma_le_to_nat_zero(8);
        }
        0
    }

    fn from_bytes(bytes: &[u8]) -> (value: i64) {
        proof {
            lemma_pow256_values();
            lemma_le_to_nat_bound(bytes@);
        }
        le_decode_signed(bytes) as i64
    }

    fn to_bytes(&self) -> (bytes: Vec<u8>) {
        proof {
            lemma_pow256_values();
        }
        le_encode_signed(*self as i64, 8)
    }
}

} // verus!
