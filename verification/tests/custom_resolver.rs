use raw_struct::{Reference, TypedViewableField, Viewable};

#[allow(dead_code)]
enum Offset {
    FieldA,
    FieldB,
}

impl Offset {
    fn resolve(self) -> u64 {
        match self {
            Self::FieldA => 0x00,
            Self::FieldB => 0x01,
        }
    }
}

struct Dummy;

impl Viewable for Dummy {
    fn name() -> &'static str {
        "Dummy"
    }
}

#[allow(dead_code)]
fn field_a() -> TypedViewableField<Dummy, u8, impl Fn() -> u64> {
    TypedViewableField::define("field_a", || Offset::resolve(Offset::FieldA))
}

fn field_b() -> TypedViewableField<Dummy, u8, impl Fn() -> u64> {
    TypedViewableField::define("field_b", || Offset::resolve(Offset::FieldB))
}

#[test]
fn test_custom_resolver() {
    let data = [0xFFu8, 0x10].as_slice();
    let value = Reference::<Dummy, _>::new(&data, 0x00);
    assert_eq!(value.read_field(&field_b()), Ok(0x10));
}
