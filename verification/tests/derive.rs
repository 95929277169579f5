use pipewire_native::pod::builder::Builder;
use pipewire_native::pod::parser::Parser;
use pipewire_native::pod::types::ObjectType;

// The numeric enumerations convert to and from their stable codes: every
// value survives the round trip and unknown codes are rejected.
#[test]
fn test_derive_enum_u32() {
    assert_eq!(ObjectType::Start.to_u32(), 0x40000);
    assert_eq!(ObjectType::from_u32(0x40001).unwrap(), ObjectType::PropInfo);
    assert_eq!(ObjectType::from_u32(0x40002).unwrap(), ObjectType::Props);
    assert_eq!(ObjectType::from_u32(0x4000D).unwrap(), ObjectType::ParamTag);
    assert_eq!(ObjectType::from_u32(1), None);
}

// A record of named fields is carried as a Struct POD of its fields in
// order, and decodes back to the same record.
#[test]
fn test_derive_pod_struct() {
    let buf = vec![0u8; 1024];

    let i: i32 = 10;
    let s = "hello, world!\n".to_string();

    let res = Builder::new(buf).push_struct(|b| b.push_int(i).push_string(&s)).build().unwrap();

    let pod_size = res.len();
    assert!(pod_size > 0);

    let mut parser = Parser::new(&res);
    let mut sp = parser.pop_struct().unwrap();
    let dec_i = sp.pop_int().unwrap();
    let dec_s = sp.pop_string().unwrap();
    let dec_size = parser.pos;

    assert_eq!(pod_size, dec_size);
    assert_eq!((dec_i, dec_s), (i, s));
}
