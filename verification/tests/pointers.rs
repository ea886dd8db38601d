use std::cell::RefCell;

use raw_struct::builtins::Ptr64;
use raw_struct::{
    MemoryView, OutOfBoundsViolation, Reference, TypedViewableField, Viewable, ViewableSized,
};

/// A slice that keeps a list of the reads made of it.
struct Recording<'a> {
    bytes: &'a [u8],
    reads: RefCell<Vec<(u64, usize)>>,
}

impl<'a> Recording<'a> {
    fn new(bytes: &'a [u8]) -> Self {
        Recording {
            bytes,
            reads: RefCell::new(Vec::new()),
        }
    }
}

impl MemoryView for Recording<'_> {
    type AccessError = OutOfBoundsViolation;

    fn read_memory(&self, offset: u64, buffer: &mut [u8]) -> Result<(), OutOfBoundsViolation> {
        self.reads.borrow_mut().push((offset, buffer.len()));
        self.bytes.read_memory(offset, buffer)
    }
}

struct Node;

impl Viewable for Node {
    fn name() -> &'static str {
        "Node"
    }
}

impl ViewableSized for Node {
    type Memory = [u8; 0x0C];
}

#[test]
fn a_pointer_is_its_address() {
    let pointer = Ptr64::<u32>::new(0x1234);
    assert_eq!(pointer.address(), 0x1234);
    assert!(!pointer.is_null());
    assert!(Ptr64::<u32>::new(0).is_null());
    let cast = pointer.cast::<[u8]>();
    assert_eq!(cast.address(), 0x1234);
    let copy = pointer;
    assert_eq!(copy, pointer.clone());
}

#[test]
fn a_null_pointer_points_to_nothing_and_reads_nothing() {
    let bytes = [0xAAu8; 0x20];
    let memory = Recording::new(&bytes);

    assert_eq!(Ptr64::<u32>::new(0).read_value(&memory), Ok(None));
    assert!(Ptr64::<Node>::new(0).reference_value(&memory).is_none());
    assert!(matches!(Ptr64::<Node>::new(0).copy_value(&memory), Ok(None)));
    assert!(memory.reads.borrow().is_empty());

    let nothing: [u8; 0] = [];
    assert_eq!(Ptr64::<u32>::new(0).read_value(&nothing.as_slice()), Ok(None));
}

#[test]
fn a_pointer_reads_its_value_in_one_read() {
    let mut bytes = [0u8; 0x20];
    bytes[0x10..0x14].copy_from_slice(&0xDEADBEEFu32.to_le_bytes());
    let memory = Recording::new(&bytes);

    assert_eq!(
        Ptr64::<u32>::new(0x10).read_value(&memory),
        Ok(Some(0xDEADBEEF))
    );
    assert_eq!(*memory.reads.borrow(), vec![(0x10, 4)]);
}

#[test]
fn a_pointer_copies_its_structure_in_one_read_of_its_size() {
    let mut bytes = [0u8; 0x20];
    bytes[0x14..0x18].copy_from_slice(&0x55u32.to_le_bytes());
    let memory = Recording::new(&bytes);

    let copy = Ptr64::<Node>::new(0x10).copy_value(&memory).unwrap().unwrap();
    assert_eq!(*memory.reads.borrow(), vec![(0x10, 0x0C)]);
    assert_eq!(copy.as_reference().memory().0[4], 0x55);
}

#[test]
fn a_pointer_refers_to_its_structure_without_a_read() {
    let bytes = [0u8; 0x20];
    let memory = Recording::new(&bytes);
    let reference: Reference<Node, _> = Ptr64::<Node>::new(0x08).reference_value(&memory).unwrap();
    assert_eq!(reference.memory_address(), 0x08);
    assert!(memory.reads.borrow().is_empty());
}

#[test]
fn a_pointer_outside_the_memory_fails_with_the_fault_of_the_source() {
    let bytes = [0u8; 0x10];
    let memory = bytes.as_slice();
    assert_eq!(
        Ptr64::<u64>::new(0x0C).read_value(&memory),
        Err(raw_struct::MemoryDecodeError::MemoryAccess(
            OutOfBoundsViolation {
                access_offset: 0x0C,
                access_len: 8,
                src_len: 0x10,
            }
        ))
    );
    assert_eq!(
        Ptr64::<Node>::new(0x08).copy_value(&memory).err(),
        Some(OutOfBoundsViolation {
            access_offset: 0x08,
            access_len: 0x0C,
            src_len: 0x10,
        })
    );
}

#[test]
fn references_over_one_source_read_no_more_than_the_fields_asked_for() {
    let mut bytes = [0u8; 0x20];
    bytes[0x04..0x08].copy_from_slice(&0x55u32.to_le_bytes());
    bytes[0x18..0x1A].copy_from_slice(&0x66u16.to_le_bytes());
    let memory = Recording::new(&bytes);

    let first = Reference::<Node, _>::new(&memory, 0x00);
    let second = Reference::<Node, _>::new(&memory, 0x10);
    let low = TypedViewableField::<Node, u32, _>::define("low", || 0x04);
    let high = TypedViewableField::<Node, u16, _>::define("high", || 0x08);

    assert_eq!(first.read_field(&low), Ok(0x55));
    assert_eq!(second.read_field(&high), Ok(0x66));
    assert_eq!(first.read_field(&high), Ok(0));
    assert_eq!(*memory.reads.borrow(), vec![(0x04, 4), (0x18, 2), (0x08, 2)]);
}
