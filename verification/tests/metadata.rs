use raw_struct::{TypedViewableField, Viewable, ViewableField};

#[test]
fn test_struct_metadata() {
    struct MyStruct;

    impl Viewable for MyStruct {
        fn name() -> &'static str {
            "MyStruct"
        }
    }

    let field_a = TypedViewableField::<MyStruct, u32, _>::define("FieldA", || 0x00);
    let field_b = TypedViewableField::<MyStruct, u32, _>::define("FieldB", || 0x08);
    let field_x = TypedViewableField::<MyStruct, u8, _>::define("FieldX", || 0xEB);

    assert_eq!(MyStruct::name(), "MyStruct");

    let declared: Vec<&dyn ViewableField> = vec![&field_a, &field_b, &field_x];
    let fields = declared
        .iter()
        .map(|field| format!("{:X}->{}", field.offset(), field.name()))
        .collect::<Vec<_>>();

    assert_eq!(fields, &["0->FieldA", "8->FieldB", "EB->FieldX"]);
}
