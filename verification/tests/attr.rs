use raw_struct::{TypedViewableField, Viewable, ViewableSized};

struct Dummy;

impl Viewable for Dummy {
    fn name() -> &'static str {
        "Dummy"
    }
}

impl ViewableSized for Dummy {
    type Memory = [u8; 0x08];
}

fn get_field_d(
    instance: &raw_struct::copy::Copy<Dummy>,
) -> Result<
    u64,
    raw_struct::AccessError<
        raw_struct::MemoryDecodeError<raw_struct::OutOfBoundsViolation, std::convert::Infallible>,
    >,
> {
    instance.read_field(&TypedViewableField::<Dummy, u64, _>::define("field_a", || 0x00))
}

#[test]
fn test_getter_rename() {
    let instance = raw_struct::copy::Copy::<Dummy>::new([0x00; 0x08]);
    get_field_d(&instance).unwrap();
}
