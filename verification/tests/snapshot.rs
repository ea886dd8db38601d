use raw_struct::{Reference, TypedViewableField, Viewable, ViewableSized};

struct Header;

impl Viewable for Header {
    fn name() -> &'static str {
        "Header"
    }
}

impl ViewableSized for Header {
    type Memory = [u8; 0x10];
}

fn magic() -> TypedViewableField<Header, u32, impl Fn() -> u64> {
    TypedViewableField::define("magic", || 0x00)
}

fn length() -> TypedViewableField<Header, u64, impl Fn() -> u64> {
    TypedViewableField::define("length", || 0x08)
}

#[test]
fn a_copy_keeps_what_the_source_held_when_it_was_made() {
    let mut memory = vec![0u8; 0x20];
    memory[0x10..0x14].copy_from_slice(&0xCAFEBABEu32.to_le_bytes());
    memory[0x18..0x20].copy_from_slice(&0x1122_3344_5566_7788u64.to_le_bytes());

    let copy = raw_struct::copy::Copy::<Header>::read_from_memory(&memory.as_slice(), 0x10).unwrap();

    memory[0x10..0x14].copy_from_slice(&0u32.to_le_bytes());
    memory[0x18..0x20].copy_from_slice(&u64::MAX.to_le_bytes());
    memory.truncate(4);

    assert_eq!(copy.read_field(&magic()), Ok(0xCAFEBABE));
    assert_eq!(copy.read_field(&length()), Ok(0x1122_3344_5566_7788));

    let reference = Reference::<Header, _>::new(memory.as_slice(), 0x00);
    assert!(reference.read_field(&length()).is_err());
}

#[test]
fn a_copy_reads_what_the_source_reads_at_the_same_place() {
    let mut memory = [0u8; 0x30];
    for (index, byte) in memory.iter_mut().enumerate() {
        *byte = index as u8;
    }
    let source = memory.as_slice();
    let reference = Reference::<Header, _>::new(source, 0x20);
    let copy = reference.create_copy().unwrap();
    assert_eq!(
        copy.read_field(&magic()).unwrap(),
        reference.read_field(&magic()).unwrap()
    );
    assert_eq!(
        copy.read_field(&length()).unwrap(),
        reference.read_field(&length()).unwrap()
    );
    assert_eq!(copy.read_field(&length()).unwrap(), 0x2F2E_2D2C_2B2A_2928);
}

#[test]
fn copying_fails_where_the_structure_does_not_fit() {
    let memory = [0u8; 0x18];
    let source = memory.as_slice();
    assert!(raw_struct::copy::Copy::<Header>::read_from_memory(&source, 0x08).is_ok());
    assert_eq!(
        raw_struct::copy::Copy::<Header>::read_from_memory(&source, 0x09).err(),
        Some(raw_struct::OutOfBoundsViolation {
            access_offset: 0x09,
            access_len: 0x10,
            src_len: 0x18,
        })
    );
    assert!(Reference::<Header, _>::new(source, 0x09).create_copy().is_err());
}

#[test]
fn a_copy_of_zeros_and_a_clone() {
    let zeros = raw_struct::copy::Copy::<Header>::new_zerod();
    assert_eq!(zeros.read_field(&magic()), Ok(0));
    assert_eq!(zeros.read_field(&length()), Ok(0));

    let mut memory = [0u8; 0x10];
    memory[0..4].copy_from_slice(&7u32.to_le_bytes());
    let copy = raw_struct::copy::Copy::<Header>::new(memory);
    let clone = copy.clone();
    assert_eq!(clone.read_field(&magic()), Ok(7));
    assert_eq!(clone.as_reference().memory_address(), 0);
    assert_eq!(clone.as_reference().memory().0, memory);
}

#[test]
fn a_field_outside_the_copy_is_refused() {
    let copy = raw_struct::copy::Copy::<Header>::new([0u8; 0x10]);
    let beyond = TypedViewableField::<Header, u32, _>::define("beyond", || 0x0E);
    let error = copy.read_field(&beyond).unwrap_err();
    assert_eq!(error.object, "Header");
    assert_eq!(error.member, "beyond");
    assert_eq!(error.offset, 0x0E);
    assert_eq!(error.size, 4);
    assert_eq!(
        error.source,
        raw_struct::MemoryDecodeError::MemoryAccess(raw_struct::OutOfBoundsViolation {
            access_offset: 0x0E,
            access_len: 4,
            src_len: 0x10,
        })
    );
}
