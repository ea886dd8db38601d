use std::sync::atomic::{AtomicBool, Ordering};

use raw_struct::{TypedViewableField, Viewable, ViewableSized};

struct Dummy;

impl Viewable for Dummy {
    fn name() -> &'static str {
        "Dummy"
    }
}

impl ViewableSized for Dummy {
    type Memory = [u8; 0x10];
}

#[test]
fn test() {
    let fn_called = AtomicBool::new(false);
    let get_offset = || -> u64 {
        assert!(!fn_called.load(Ordering::Relaxed));
        fn_called.store(true, Ordering::Relaxed);

        0x00
    };
    let field_01 = TypedViewableField::<Dummy, u64, _>::define("field_01", get_offset);

    assert!(!fn_called.load(Ordering::Relaxed));
    let value = raw_struct::copy::Copy::<Dummy>::new([0x0; 0x10]);
    value.read_field(&field_01).unwrap();
    assert!(fn_called.load(Ordering::Relaxed));
}
