use rasterkit::{DataType, Dimensions};

#[test]
fn test_data_type_size() {
    assert_eq!(DataType::U8.size(), 1);
    assert_eq!(DataType::U16.size(), 2);
    assert_eq!(DataType::U32.size(), 4);
    assert_eq!(DataType::F32.size(), 4);
    assert_eq!(DataType::F64.size(), 8);
}

#[test]
fn test_data_type_name() {
    assert_eq!(DataType::U8.name(), "U8");
    assert_eq!(DataType::F32.name(), "F32");
}

#[test]
fn types_test_dimensions() {
    let dims = Dimensions::new(100, 200);
    assert_eq!(dims.width, 100);
    assert_eq!(dims.height, 200);
    assert_eq!(dims.pixel_count(), 20000);
}

#[test]
fn data_type_sizes_and_names_of_signed_types() {
    assert_eq!(DataType::I8.size(), 1);
    assert_eq!(DataType::I16.size(), 2);
    assert_eq!(DataType::I32.size(), 4);
    assert_eq!(DataType::I8.name(), "I8");
    assert_eq!(DataType::I16.name(), "I16");
    assert_eq!(DataType::I32.name(), "I32");
    assert_eq!(DataType::U16.name(), "U16");
    assert_eq!(DataType::U32.name(), "U32");
    assert_eq!(DataType::F64.name(), "F64");
}
