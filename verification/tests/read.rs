use raw_struct::{TypedViewableField, Viewable, ViewableSized};

struct Dummy;

impl Viewable for Dummy {
    fn name() -> &'static str {
        "Dummy"
    }
}

impl ViewableSized for Dummy {
    type Memory = [u8; 0x100];
}

fn field_a() -> TypedViewableField<Dummy, u32, impl Fn() -> u64> {
    TypedViewableField::define("field_a", || 0x00)
}

fn field_b() -> TypedViewableField<Dummy, u32, impl Fn() -> u64> {
    TypedViewableField::define("field_b", || 0x04)
}

fn field_c() -> TypedViewableField<Dummy, [u8; 0x08], impl Fn() -> u64> {
    TypedViewableField::define("field_c", || 0x08)
}

#[test]
fn test_field_read() {
    let mut memory = [0u8; 0x100];
    memory[0..4].copy_from_slice(&0xDEADBEEFu32.to_le_bytes());
    memory[4..8].copy_from_slice(&0x99u32.to_le_bytes());

    let object = raw_struct::copy::Copy::<Dummy>::new(memory);

    assert_eq!(object.read_field(&field_a()).unwrap(), 0xDEADBEEF);
    assert_eq!(object.read_field(&field_b()).unwrap(), 0x99);
    assert_eq!(object.read_field(&field_c()).unwrap(), [0u8; 0x08]);
}

#[test]
fn test_field_reference() {
    let mut memory = [0u8; 0x100];
    memory[0..4].copy_from_slice(&0xDEADBEEFu32.to_le_bytes());
    memory[4..8].copy_from_slice(&0x99u32.to_le_bytes());

    let object = raw_struct::copy::Copy::<Dummy>::new(memory);
    let field_b = object.reference_field(&field_b());
    assert_eq!(field_b.read().unwrap(), 0x99);
}
