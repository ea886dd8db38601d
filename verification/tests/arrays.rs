use std::cell::RefCell;

use raw_struct::builtins::{Array, Ptr64, SizedArray};
use raw_struct::{
    MemoryView, MemoryViewDereferenceable, OutOfBoundsViolation, Reference, TypedViewableField,
    Viewable, ViewableSized,
};

/// A slice that keeps a list of the reads made of it, and whose addresses
/// are its offsets.
#[derive(Clone)]
struct Recording<'a> {
    bytes: &'a [u8],
    reads: RefCell<Vec<(u64, usize)>>,
}

impl<'a> Recording<'a> {
    fn new(bytes: &'a [u8]) -> Self {
        Recording {
            bytes,
            reads: RefCell::new(Vec::new()),
        }
    }
}

impl MemoryView for Recording<'_> {
    type AccessError = OutOfBoundsViolation;

    fn read_memory(&self, offset: u64, buffer: &mut [u8]) -> Result<(), OutOfBoundsViolation> {
        self.reads.borrow_mut().push((offset, buffer.len()));
        self.bytes.read_memory(offset, buffer)
    }
}

impl MemoryViewDereferenceable for Recording<'_> {
    fn dereference(&self, address: u64) -> Result<u64, OutOfBoundsViolation> {
        Ok(address)
    }
}

struct MyStruct;

impl Viewable for MyStruct {
    fn name() -> &'static str {
        "MyStruct"
    }
}

impl ViewableSized for MyStruct {
    type Memory = [u8; 0x40];
}

fn field_e() -> TypedViewableField<MyStruct, Ptr64<[u8]>, impl Fn() -> u64> {
    TypedViewableField::define("field_e", || 0x10)
}

struct Element;

impl Viewable for Element {
    fn name() -> &'static str {
        "Element"
    }
}

impl ViewableSized for Element {
    type Memory = [u8; 0x08];
}

fn word() -> TypedViewableField<Element, u32, impl Fn() -> u64> {
    TypedViewableField::define("word", || 0x04)
}

fn counted() -> [u8; 0x44] {
    let mut memory = [0u8; 0x44];
    for (index, byte) in memory.iter_mut().enumerate() {
        *byte = index as u8;
    }
    memory
}

#[test]
fn the_elements_of_a_range_come_in_one_read_that_spans_them() {
    let mut memory = [0u8; 0x44];
    memory[0x10..0x18].copy_from_slice(&0x10u64.to_le_bytes());
    memory[0x40..0x44].copy_from_slice(&0xAAu32.to_le_bytes());
    let source = Recording::new(&memory);

    let object = Reference::<MyStruct, _>::new(&source, 0x00);
    let pointer = object.read_field(&field_e()).unwrap();
    assert_eq!(pointer.address(), 0x10);
    source.reads.borrow_mut().clear();

    let elements = pointer.elements(&source, 0..0x10).unwrap();
    assert_eq!(elements, memory[0x10..0x20].to_vec());
    assert_eq!(*source.reads.borrow(), vec![(0x10, 0x10)]);
}

#[test]
fn the_pointed_to_array_is_read_element_by_element_through_its_reference() {
    let mut memory = [0u8; 0x44];
    memory[0x10..0x18].copy_from_slice(&0x10u64.to_le_bytes());
    memory[0x40..0x44].copy_from_slice(&0xAAu32.to_le_bytes());
    let source = Recording::new(&memory);

    let object = Reference::<MyStruct, _>::new(&source, 0x00);
    let array = object.dereference_field(&field_e()).unwrap();
    assert_eq!(array.memory_address(), 0x10);
    for index in 0..0x10 {
        assert_eq!(array.read_element(index), Ok(memory[0x10 + index]));
    }
    assert_eq!(array.read_element(0x30), Ok(0xAA));
    assert_eq!(
        array.read_element(0x34),
        Err(OutOfBoundsViolation {
            access_offset: 0x44,
            access_len: 1,
            src_len: 0x44,
        })
    );
}

#[test]
fn a_range_is_read_from_its_first_element_on() {
    let memory = counted();
    let source = Recording::new(&memory);
    let pointer = Ptr64::<[u16]>::new(0x20);

    assert_eq!(
        pointer.elements(&source, 2..5),
        Ok(vec![0x2524, 0x2726, 0x2928])
    );
    assert_eq!(*source.reads.borrow(), vec![(0x24, 6)]);
    assert_eq!(pointer.elements(&source, 3..3), Ok(vec![]));
    assert_eq!(
        pointer.elements(&source, 0x10..0x13).err(),
        Some(OutOfBoundsViolation {
            access_offset: 0x40,
            access_len: 6,
            src_len: 0x44,
        })
    );
}

#[test]
fn an_element_lies_at_the_start_plus_its_index_times_the_size() {
    let memory = counted();
    let source = memory.as_slice();
    let pointer = Ptr64::<[u32]>::new(0x08);

    assert_eq!(pointer.start_address(), 0x08);
    assert_eq!(pointer.known_len(), None);
    assert_eq!(pointer.element_at(&source, 0), Ok(0x0B0A_0908));
    assert_eq!(pointer.element_at(&source, 3), Ok(0x1716_1514));
    assert!(pointer.element_at(&source, 0x0F).is_err());
}

#[test]
fn a_sized_array_knows_its_length() {
    let pointer = Ptr64::<[u32; 7]>::new(0x08);
    assert_eq!(SizedArray::len(&pointer), 7);
    assert_eq!(pointer.known_len(), Some(7));
    assert_eq!(pointer.start_address(), 0x08);
    let memory = counted();
    let reference = Reference::<[u32; 7], _>::new(memory.as_slice(), 0x08);
    assert_eq!(reference.len(), 7);
}

#[test]
fn structured_elements_are_referred_to_and_copied() {
    let memory = counted();
    let source = memory.as_slice();
    let pointer = Ptr64::<[Element]>::new(0x10);

    let third = pointer.element_reference(source, 2);
    assert_eq!(third.memory_address(), 0x20);
    assert_eq!(third.read_field(&word()), Ok(0x2726_2524));

    let copy = pointer.element_copy(&source, 2).unwrap();
    assert_eq!(copy.read_field(&word()), Ok(0x2726_2524));
    assert!(pointer.element_copy(&source, 7).is_err());

    let references = pointer.elements_reference(source, 1..4);
    let addresses: Vec<u64> = references.iter().map(|one| one.memory_address()).collect();
    assert_eq!(addresses, vec![0x18, 0x20, 0x28]);
    assert_eq!(references[2].read_field(&word()), Ok(0x2F2E_2D2C));
    assert!(pointer.elements_reference(source, 4..4).is_empty());
}

#[test]
fn structured_elements_of_a_range_are_copied_in_one_read() {
    let memory = counted();
    let source = Recording::new(&memory);
    let pointer = Ptr64::<[Element]>::new(0x10);

    let copies = pointer.elements_copy(&source, 1..3).unwrap();
    assert_eq!(*source.reads.borrow(), vec![(0x18, 0x10)]);
    assert_eq!(copies.len(), 2);
    assert_eq!(copies[0].read_field(&word()), Ok(0x1F1E_1D1C));
    assert_eq!(copies[1].read_field(&word()), Ok(0x2726_2524));
    assert_eq!(
        pointer.elements_copy(&source, 5..8).err(),
        Some(OutOfBoundsViolation {
            access_offset: 0x38,
            access_len: 0x18,
            src_len: 0x44,
        })
    );
}

#[test]
fn a_reference_to_a_sequence_reads_refers_and_copies_by_index() {
    let memory = counted();
    let source = memory.as_slice();

    let numbers = Reference::<[u16], _>::new(source, 0x02);
    assert_eq!(numbers.read_element(0), Ok(0x0302));
    assert_eq!(numbers.read_element(0x20), Ok(0x4342));
    assert_eq!(
        numbers.read_element(0x21),
        Err(OutOfBoundsViolation {
            access_offset: 0x44,
            access_len: 2,
            src_len: 0x44,
        })
    );

    let elements = Reference::<[Element], _>::new(source, 0x08);
    assert_eq!(elements.reference_element(3).memory_address(), 0x20);
    assert_eq!(
        elements.copy_element(3).unwrap().read_field(&word()),
        Ok(0x2726_2524)
    );
    assert!(elements.copy_element(8).is_err());
}

#[test]
fn a_reference_to_a_sized_sequence_reads_all_elements_in_one_read() {
    let memory = counted();
    let source = Recording::new(&memory);

    let numbers = Reference::<[u16; 4], _>::new(&source, 0x10);
    assert_eq!(numbers.read_element(1), Ok(0x1312));
    assert_eq!(numbers.read_element(4), Ok(0x1918));
    source.reads.borrow_mut().clear();
    assert_eq!(
        numbers.read_elements(),
        Ok(vec![0x1110, 0x1312, 0x1514, 0x1716])
    );
    assert_eq!(*source.reads.borrow(), vec![(0x10, 8)]);

    let beyond = Reference::<[u16; 4], _>::new(&source, 0x40);
    assert_eq!(
        beyond.read_elements(),
        Err(OutOfBoundsViolation {
            access_offset: 0x40,
            access_len: 8,
            src_len: 0x44,
        })
    );
}

#[test]
fn a_reference_to_a_sized_sequence_of_structures() {
    let memory = counted();
    let source = memory.as_slice();

    let elements = Reference::<[Element; 3], _>::new(source, 0x10);
    assert_eq!(elements.reference_element(1).memory_address(), 0x18);
    assert_eq!(
        elements.copy_element(2).unwrap().read_field(&word()),
        Ok(0x2726_2524)
    );

    let references = elements.reference_elements();
    let addresses: Vec<u64> = references.iter().map(|one| one.memory_address()).collect();
    assert_eq!(addresses, vec![0x10, 0x18, 0x20]);

    let copies = elements.copy_elements().unwrap();
    assert_eq!(copies.len(), 3);
    assert_eq!(copies[0].read_field(&word()), Ok(0x1716_1514));
    assert_eq!(copies[2].read_field(&word()), Ok(0x2726_2524));

    let beyond = Reference::<[Element; 3], _>::new(source, 0x30);
    assert_eq!(
        beyond.copy_elements().err(),
        Some(OutOfBoundsViolation {
            access_offset: 0x40,
            access_len: 8,
            src_len: 0x44,
        })
    );
    assert_eq!(beyond.reference_elements().len(), 3);
}
