use pipewire_native::error::Error;
use pipewire_native::pod::builder::Builder;
use pipewire_native::pod::parser::Parser;
use pipewire_native::pod::types::{Choice, Float, Id, ObjectType, PropertyFlags, Rectangle,
    PROPERTY_FLAG_READ_ONLY};

fn w32(out: &mut Vec<u8>, v: u32) {
    out.extend_from_slice(&v.to_le_bytes());
}

#[test]
fn test_struct_of_four_members_round_trips() {
    let res = Builder::new(vec![0u8; 1024])
        .push_struct(|b| {
            b.push_id(Id(1))
                .push_long(2)
                .push_rectangle(3840, 2160)
                .push_float(Float(3.0f32.to_bits()))
        })
        .build()
        .unwrap();

    // Each member is padded to 8, so the body is four times (8 + 8) bytes.
    assert_eq!(u32::from_le_bytes(res[0..4].try_into().unwrap()), 4 * (8 + 8));
    assert_eq!(res.len(), 8 + 64);

    let mut parser = Parser::new(&res);
    let mut sp = parser.pop_struct().unwrap();
    assert_eq!(sp.pop_id().unwrap(), Id(1));
    assert_eq!(sp.pop_long().unwrap(), 2);
    assert_eq!(sp.pop_rectangle().unwrap(), Rectangle { width: 3840, height: 2160 });
    assert_eq!(sp.pop_float().unwrap(), Float(3.0f32.to_bits()));
}

#[test]
fn test_string_pod_layout() {
    let res = Builder::new(vec![0u8; 64]).push_string("hello").build().unwrap();
    assert_eq!(
        res,
        vec![
            0x06, 0x00, 0x00, 0x00, 0x08, 0x00, 0x00, 0x00, 0x68, 0x65, 0x6C, 0x6C, 0x6F, 0x00,
            0x00, 0x00,
        ]
    );

    let mut parser = Parser::new(&res);
    assert_eq!(parser.pop_string().unwrap(), "hello");
    assert_eq!(parser.pos, 16);
}

#[test]
fn test_empty_bool_array_layout() {
    let res = Builder::new(vec![0u8; 64]).push_array::<bool>(&[]).build().unwrap();
    assert_eq!(
        res,
        vec![
            0x08, 0x00, 0x00, 0x00, 0x0D, 0x00, 0x00, 0x00, 0x04, 0x00, 0x00, 0x00, 0x02, 0x00,
            0x00, 0x00,
        ]
    );

    let mut parser = Parser::new(&res);
    assert_eq!(parser.pop_array::<bool>().unwrap(), Vec::<bool>::new());
    assert_eq!(parser.pos, 16);
}

#[test]
fn test_props_object_with_one_property() {
    // Key 0x10003 is Prop::Volume; parameter kind 2 is Props.
    let volume = pipewire_native::param::props::Prop::Volume.to_u32();
    let res = Builder::new(vec![0u8; 1024])
        .push_object(ObjectType::Props, 2, |b| {
            b.push_property(
                volume,
                PropertyFlags(PROPERTY_FLAG_READ_ONLY),
                &Float(0.5f32.to_bits()),
            )
        })
        .build()
        .unwrap();

    let mut parser = Parser::new(&res);
    let (ptype, mut op) = parser.pop_object(ObjectType::Props).unwrap();
    assert_eq!(ptype, pipewire_native::param::ParamType::Props);

    let prop = op.pop_property().unwrap().unwrap();
    assert_eq!(prop.0, volume);
    assert_eq!(prop.1, PropertyFlags(PROPERTY_FLAG_READ_ONLY));
    let mut vp = Parser::new(prop.2);
    assert_eq!(vp.pop_float().unwrap(), Float(0.5f32.to_bits()));

    assert_eq!(op.pop_property().unwrap(), None);
}

#[test]
fn test_object_unknown_key_is_surfaced_raw() {
    let unknown_key: u32 = 0x7777;
    let res = Builder::new(vec![0u8; 1024])
        .push_object(ObjectType::Props, 2, |b| {
            b.push_property(unknown_key, PropertyFlags(0), &7i32)
        })
        .build()
        .unwrap();

    let mut parser = Parser::new(&res);
    let (_, mut op) = parser.pop_object(ObjectType::Props).unwrap();
    let prop = op.pop_property().unwrap().unwrap();
    assert_eq!(prop.0, unknown_key);
    let mut vp = Parser::new(prop.2);
    assert_eq!(vp.pop_int().unwrap(), 7);
}

#[test]
fn test_object_kind_mismatch_is_invalid() {
    let res = Builder::new(vec![0u8; 1024])
        .push_object(ObjectType::Props, 2, |b| b.push_property(1, PropertyFlags(0), &7i32))
        .build()
        .unwrap();

    let mut parser = Parser::new(&res);
    match parser.pop_object(ObjectType::Format) {
        Err(e) => assert_eq!(e, Error::Invalid),
        Ok(_) => panic!("an object of a different kind must be refused"),
    }
    assert_eq!(parser.pos, 0);
}

#[test]
fn test_trailing_padding_does_not_change_result() {
    let mut res = Builder::new(vec![0u8; 64]).push_int(7).build().unwrap();
    res.extend_from_slice(&[0u8; 24]);
    let mut parser = Parser::new(&res);
    assert_eq!(parser.pop_int().unwrap(), 7);
    assert_eq!(parser.pos, 16);
}

#[test]
fn test_every_encoded_pod_is_aligned() {
    let pods: Vec<Vec<u8>> = vec![
        Builder::new(vec![0u8; 64]).push_none().build().unwrap(),
        Builder::new(vec![0u8; 64]).push_bool(false).build().unwrap(),
        Builder::new(vec![0u8; 64]).push_string("ab").build().unwrap(),
        Builder::new(vec![0u8; 64]).push_bytes(&[1, 2, 3]).build().unwrap(),
        Builder::new(vec![0u8; 64]).push_array(&[1i32, 2, 3]).build().unwrap(),
        Builder::new(vec![0u8; 64]).push_choice(&Choice::NoneVal(1i32)).build().unwrap(),
    ];
    for p in pods {
        assert_eq!(p.len() % 8, 0);
        let size = u32::from_le_bytes(p[0..4].try_into().unwrap()) as usize;
        assert!(8 + size <= p.len());
    }
}

#[test]
fn test_choice_size_discipline() {
    // A well-formed Range choice over Int, then the same bytes with a
    // wrong declared size: the latter must be refused.
    let good = Builder::new(vec![0u8; 64])
        .push_choice(&Choice::Range { default: 1i32, min: 0, max: 10 })
        .build()
        .unwrap();
    let mut parser = Parser::new(&good);
    assert!(parser.pop_choice::<i32>().is_ok());

    let mut bad: Vec<u8> = Vec::new();
    w32(&mut bad, 24); // declares 16 + 2 * 4: one value short of Range arity
    w32(&mut bad, 19);
    w32(&mut bad, 1);
    w32(&mut bad, 0);
    w32(&mut bad, 4);
    w32(&mut bad, 4);
    w32(&mut bad, 1);
    w32(&mut bad, 0);
    let mut parser = Parser::new(&bad);
    assert_eq!(parser.pop_choice::<i32>().unwrap_err(), Error::Invalid);
    assert_eq!(parser.pos, 0);
}

#[test]
fn test_no_space_is_sticky() {
    let b = Builder::new(vec![0u8; 8]).push_int(1).push_int(2);
    assert_eq!(b.build().unwrap_err(), Error::NoSpace);
}

#[test]
fn test_wrong_kind_is_invalid_and_cursor_holds() {
    let res = Builder::new(vec![0u8; 64]).push_int(7).build().unwrap();
    let mut parser = Parser::new(&res);
    assert_eq!(parser.pop_long().unwrap_err(), Error::Invalid);
    assert_eq!(parser.pos, 0);
    assert_eq!(parser.pop_int().unwrap(), 7);
}

#[test]
fn test_string_without_terminator_is_invalid() {
    let mut bad: Vec<u8> = Vec::new();
    w32(&mut bad, 6);
    w32(&mut bad, 8);
    bad.extend_from_slice(b"helloX\0\0");
    let mut parser = Parser::new(&bad);
    assert_eq!(parser.pop_string().unwrap_err(), Error::Invalid);
}

#[test]
fn test_nested_struct_scopes() {
    let res = Builder::new(vec![0u8; 1024])
        .push_struct(|b| {
            b.push_int(1).push_struct(|inner| inner.push_long(2).push_bool(true)).push_int(3)
        })
        .build()
        .unwrap();

    let mut parser = Parser::new(&res);
    let mut outer = parser.pop_struct().unwrap();
    assert_eq!(outer.pop_int().unwrap(), 1);
    let mut inner = outer.pop_struct().unwrap();
    assert_eq!(inner.pop_long().unwrap(), 2);
    assert_eq!(inner.pop_bool().unwrap(), true);
    assert_eq!(outer.pop_int().unwrap(), 3);
}

#[test]
fn test_unread_trailing_properties_are_tolerated() {
    let res = Builder::new(vec![0u8; 1024])
        .push_object(ObjectType::Props, 2, |b| {
            b.push_property(1, PropertyFlags(0), &10i32)
                .push_property(2, PropertyFlags(0), &20i32)
                .push_property(3, PropertyFlags(0), &30i32)
        })
        .push_int(99)
        .build()
        .unwrap();

    let mut parser = Parser::new(&res);
    let (_, mut op) = parser.pop_object(ObjectType::Props).unwrap();
    // Read only the first property; the outer cursor already sits past
    // the whole object.
    let first = op.pop_property().unwrap().unwrap();
    assert_eq!(first.0, 1);
    assert_eq!(parser.pop_int().unwrap(), 99);
}
