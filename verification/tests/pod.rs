use pipewire_native::pod::builder::Builder;
use pipewire_native::pod::Pod;
use pipewire_native::pod::parser::Parser;
use pipewire_native::pod::types::{Choice, Double, Fd, Float, Fraction, Id, Pointer, Rectangle,
    Type};

fn w32(out: &mut Vec<u8>, v: u32) {
    out.extend_from_slice(&v.to_le_bytes());
}

fn w64(out: &mut Vec<u8>, v: u64) {
    out.extend_from_slice(&v.to_le_bytes());
}

#[test]
fn test_pod_builder() {
    let buf = vec![0u8; 1024];
    let builder = Builder::new(buf);
    let res = builder
        .push_none()
        .push_bool(true)
        .push_id(Id(1))
        .push_int(2)
        .push_long(3)
        .push_float(Float(4.0f32.to_bits()))
        .push_double(Double(5.0f64.to_bits()))
        .push_string("hello")
        .push_bytes(&[6, 7, 8, 9])
        .push_pointer(Type::Int, 0xdeadc0de)
        .push_fd(-1)
        .push_rectangle(1920, 1080)
        .push_fraction(30001, 1)
        .push_array(&[Float(11.0f32.to_bits()), Float(12.0f32.to_bits()), Float(
            13.0f32.to_bits(),
        )])
        .push_array::<bool>(&[])
        .push_choice(&Choice::NoneVal(14i64))
        .push_choice(&Choice::Range { default: 1i32, min: 0, max: 10 })
        .push_choice(&Choice::Step {
            default: Float(1.5f32.to_bits()),
            min: Float(0.0f32.to_bits()),
            max: Float(10.0f32.to_bits()),
            step: Float(0.25f32.to_bits()),
        })
        .push_choice(&Choice::Enum { default: Id(2), alternatives: vec![Id(1), Id(2), Id(3), Id(4)] })
        .build()
        .unwrap();

    let mut exp: Vec<u8> = Vec::new();
    // none
    w32(&mut exp, 0);
    w32(&mut exp, 1);
    // bool true
    w32(&mut exp, 4);
    w32(&mut exp, 2);
    w32(&mut exp, 1);
    w32(&mut exp, 0);
    // id 1
    w32(&mut exp, 4);
    w32(&mut exp, 3);
    w32(&mut exp, 1);
    w32(&mut exp, 0);
    // int 2
    w32(&mut exp, 4);
    w32(&mut exp, 4);
    w32(&mut exp, 2);
    w32(&mut exp, 0);
    // long 3
    w32(&mut exp, 8);
    w32(&mut exp, 5);
    w64(&mut exp, 3);
    // float 4.0
    w32(&mut exp, 4);
    w32(&mut exp, 6);
    w32(&mut exp, 4.0f32.to_bits());
    w32(&mut exp, 0);
    // double 5.0
    w32(&mut exp, 8);
    w32(&mut exp, 7);
    w64(&mut exp, 5.0f64.to_bits());
    // string "hello"
    w32(&mut exp, 6);
    w32(&mut exp, 8);
    exp.extend_from_slice(b"hello\0\0\0");
    // bytes [6,7,8,9]
    w32(&mut exp, 4);
    w32(&mut exp, 9);
    exp.extend_from_slice(&[6, 7, 8, 9, 0, 0, 0, 0]);
    // pointer (Int, 0xdeadc0de)
    w32(&mut exp, 16);
    w32(&mut exp, 17);
    w32(&mut exp, 4);
    w32(&mut exp, 0);
    w64(&mut exp, 0xdeadc0de);
    // fd -1
    w32(&mut exp, 8);
    w32(&mut exp, 18);
    w64(&mut exp, (-1i64) as u64);
    // rectangle
    w32(&mut exp, 8);
    w32(&mut exp, 10);
    w32(&mut exp, 1920);
    w32(&mut exp, 1080);
    // fraction
    w32(&mut exp, 8);
    w32(&mut exp, 11);
    w32(&mut exp, 30001);
    w32(&mut exp, 1);
    // array of three floats
    w32(&mut exp, 20);
    w32(&mut exp, 13);
    w32(&mut exp, 4);
    w32(&mut exp, 6);
    w32(&mut exp, 11.0f32.to_bits());
    w32(&mut exp, 12.0f32.to_bits());
    w32(&mut exp, 13.0f32.to_bits());
    w32(&mut exp, 0);
    // empty array of bool
    w32(&mut exp, 8);
    w32(&mut exp, 13);
    w32(&mut exp, 4);
    w32(&mut exp, 2);
    // choice none over long 14
    w32(&mut exp, 24);
    w32(&mut exp, 19);
    w32(&mut exp, 0);
    w32(&mut exp, 0);
    w32(&mut exp, 8);
    w32(&mut exp, 5);
    w64(&mut exp, 14);
    // choice range over int 1, 0, 10
    w32(&mut exp, 28);
    w32(&mut exp, 19);
    w32(&mut exp, 1);
    w32(&mut exp, 0);
    w32(&mut exp, 4);
    w32(&mut exp, 4);
    w32(&mut exp, 1);
    w32(&mut exp, 0);
    w32(&mut exp, 10);
    w32(&mut exp, 0);
    // choice step over float 1.5, 0.0, 10.0, 0.25
    w32(&mut exp, 32);
    w32(&mut exp, 19);
    w32(&mut exp, 2);
    w32(&mut exp, 0);
    w32(&mut exp, 4);
    w32(&mut exp, 6);
    w32(&mut exp, 1.5f32.to_bits());
    w32(&mut exp, 0.0f32.to_bits());
    w32(&mut exp, 10.0f32.to_bits());
    w32(&mut exp, 0.25f32.to_bits());
    // choice enum over id 2; 1, 2, 3, 4
    w32(&mut exp, 36);
    w32(&mut exp, 19);
    w32(&mut exp, 3);
    w32(&mut exp, 0);
    w32(&mut exp, 4);
    w32(&mut exp, 3);
    w32(&mut exp, 2);
    w32(&mut exp, 1);
    w32(&mut exp, 2);
    w32(&mut exp, 3);
    w32(&mut exp, 4);
    w32(&mut exp, 0);

    assert_eq!(res, exp);
}

#[test]
fn test_pod_decode() {
    let mut buf: Vec<u8>;

    buf = Builder::new(vec![0u8; 64]).push_bool(true).build().unwrap();
    let mut p = Parser::new(&buf);
    assert_eq!(p.pop_bool().unwrap(), true);

    buf = Builder::new(vec![0u8; 64]).push_int(-123).build().unwrap();
    let mut p = Parser::new(&buf);
    assert_eq!(p.pop_int().unwrap(), -123);

    buf = Builder::new(vec![0u8; 64]).push_long(i64::MIN).build().unwrap();
    let mut p = Parser::new(&buf);
    assert_eq!(p.pop_long().unwrap(), i64::MIN);

    buf = Builder::new(vec![0u8; 64]).push_string("hello").build().unwrap();
    let mut p = Parser::new(&buf);
    assert_eq!(p.pop_string().unwrap(), "hello");

    buf = Builder::new(vec![0u8; 64]).push_bytes(&[1u8, 2, 3, 4]).build().unwrap();
    let mut p = Parser::new(&buf);
    assert_eq!(p.pop_bytes().unwrap(), vec![1u8, 2, 3, 4]);

    buf = Builder::new(vec![0u8; 64]).push_pointer(Type::Int, 0xdeadbeef).build().unwrap();
    let mut p = Parser::new(&buf);
    assert_eq!(p.pop_pointer().unwrap(), Pointer { type_: Type::Int, ptr: 0xdeadbeef });

    buf = Builder::new(vec![0u8; 64]).push_fd(-1).build().unwrap();
    let mut p = Parser::new(&buf);
    assert_eq!(p.pop_fd().unwrap(), Fd(-1));

    buf = Builder::new(vec![0u8; 64]).push_rectangle(1920, 1080).build().unwrap();
    let mut p = Parser::new(&buf);
    assert_eq!(p.pop_rectangle().unwrap(), Rectangle { width: 1920, height: 1080 });

    buf = Builder::new(vec![0u8; 64]).push_fraction(30001, 1).build().unwrap();
    let mut p = Parser::new(&buf);
    assert_eq!(p.pop_fraction().unwrap(), Fraction { num: 30001, denom: 1 });

    let floats = [Float(11.0f32.to_bits()), Float(12.0f32.to_bits()), Float(13.0f32.to_bits())];
    buf = Builder::new(vec![0u8; 64]).push_array(&floats).build().unwrap();
    let mut p = Parser::new(&buf);
    assert_eq!(p.pop_array::<Float>().unwrap(), floats.to_vec());

    buf = Builder::new(vec![0u8; 64]).push_choice(&Choice::NoneVal(14i64)).build().unwrap();
    let mut p = Parser::new(&buf);
    assert_eq!(p.pop_choice::<i64>().unwrap(), Choice::NoneVal(14i64));

    buf = Builder::new(vec![0u8; 64])
        .push_choice(&Choice::Range { default: 1i32, min: 0, max: 10 })
        .build()
        .unwrap();
    let mut p = Parser::new(&buf);
    assert_eq!(p.pop_choice::<i32>().unwrap(), Choice::Range { default: 1i32, min: 0, max: 10 });

    let step = Choice::Step {
        default: Float(1.5f32.to_bits()),
        min: Float(0.0f32.to_bits()),
        max: Float(10.0f32.to_bits()),
        step: Float(0.25f32.to_bits()),
    };
    buf = Builder::new(vec![0u8; 64]).push_choice(&step).build().unwrap();
    let mut p = Parser::new(&buf);
    assert_eq!(p.pop_choice::<Float>().unwrap(), step);

    let en = Choice::Enum { default: Id(2), alternatives: vec![Id(1), Id(2), Id(3), Id(4)] };
    buf = Builder::new(vec![0u8; 64]).push_choice(&en).build().unwrap();
    let mut p = Parser::new(&buf);
    assert_eq!(p.pop_choice::<Id>().unwrap(), en);
}

#[test]
fn test_pod_parser() {
    let buf = vec![0u8; 1024];
    let builder = Builder::new(buf);
    let res = builder
        .push_none()
        .push_bool(true)
        .push_id(Id(1))
        .push_int(2)
        .push_long(3)
        .push_float(Float(4.0f32.to_bits()))
        .push_double(Double(5.0f64.to_bits()))
        .push_string("hello")
        .push_bytes(&[6, 7, 8, 9])
        .push_pointer(Type::Int, 0xdeadc0de)
        .push_fd(-1)
        .push_rectangle(1920, 1080)
        .push_fraction(30001, 1)
        .push_array(&[Float(11.0f32.to_bits()), Float(12.0f32.to_bits()), Float(
            13.0f32.to_bits(),
        )])
        .push_choice(&Choice::NoneVal(14i64))
        .push_choice(&Choice::Range { default: 1i32, min: 0, max: 10 })
        .push_choice(&Choice::Step {
            default: Float(1.5f32.to_bits()),
            min: Float(0.0f32.to_bits()),
            max: Float(10.0f32.to_bits()),
            step: Float(0.25f32.to_bits()),
        })
        .push_choice(&Choice::Enum { default: Id(2), alternatives: vec![Id(1), Id(2), Id(3), Id(4)] })
        .build()
        .unwrap();

    let mut parser = Parser::new(&res);
    assert_eq!(parser.pop_none().unwrap(), ());
    assert_eq!(parser.pop_bool().unwrap(), true);
    assert_eq!(parser.pop_id().unwrap(), Id(1));
    assert_eq!(parser.pop_int().unwrap(), 2);
    assert_eq!(parser.pop_long().unwrap(), 3);
    assert_eq!(parser.pop_float().unwrap(), Float(4.0f32.to_bits()));
    assert_eq!(parser.pop_double().unwrap(), Double(5.0f64.to_bits()));
    assert_eq!(parser.pop_string().unwrap(), "hello");
    assert_eq!(parser.pop_bytes().unwrap(), vec![6, 7, 8, 9]);
    assert_eq!(parser.pop_pointer().unwrap(), Pointer { type_: Type::Int, ptr: 0xdeadc0de });
    assert_eq!(parser.pop_fd().unwrap(), Fd(-1));
    assert_eq!(parser.pop_rectangle().unwrap(), Rectangle { width: 1920, height: 1080 });
    assert_eq!(parser.pop_fraction().unwrap(), Fraction { num: 30001, denom: 1 });
    assert_eq!(
        parser.pop_array::<Float>().unwrap(),
        vec![Float(11.0f32.to_bits()), Float(12.0f32.to_bits()), Float(13.0f32.to_bits())]
    );
    assert_eq!(parser.pop_choice::<i64>().unwrap(), Choice::NoneVal(14i64));
    assert_eq!(
        parser.pop_choice::<i32>().unwrap(),
        Choice::Range { default: 1i32, min: 0, max: 10 }
    );
    assert_eq!(
        parser.pop_choice::<Float>().unwrap(),
        Choice::Step {
            default: Float(1.5f32.to_bits()),
            min: Float(0.0f32.to_bits()),
            max: Float(10.0f32.to_bits()),
            step: Float(0.25f32.to_bits()),
        }
    );
    assert_eq!(
        parser.pop_choice::<Id>().unwrap(),
        Choice::Enum { default: Id(2), alternatives: vec![Id(1), Id(2), Id(3), Id(4)] }
    );
}

#[test]
fn test_pod_builder_struct_empty() {
    let buf = vec![0u8; 1024];

    let builder = Builder::new(buf);
    let res = builder.push_struct(|b| b).build().unwrap();

    let mut exp: Vec<u8> = Vec::new();
    w32(&mut exp, 0);
    w32(&mut exp, 14);
    assert_eq!(res, exp);

    let mut parser = Parser::new(&res);
    let sub = parser.pop_struct().unwrap();
    assert_eq!(sub.data.len(), 0);
}

#[test]
fn test_pod_builder_struct() {
    let buf = vec![0u8; 1024];

    let builder = Builder::new(buf);
    let res = builder
        .push_struct(|b| {
            b.push_id(Id(1))
                .push_long(2)
                .push_rectangle(3840, 2160)
                .push_float(Float(3.0f32.to_bits()))
        })
        .build()
        .unwrap();

    let mut exp: Vec<u8> = Vec::new();
    w32(&mut exp, 64);
    w32(&mut exp, 14);
    w32(&mut exp, 4);
    w32(&mut exp, 3);
    w32(&mut exp, 1);
    w32(&mut exp, 0);
    w32(&mut exp, 8);
    w32(&mut exp, 5);
    w64(&mut exp, 2);
    w32(&mut exp, 8);
    w32(&mut exp, 10);
    w32(&mut exp, 3840);
    w32(&mut exp, 2160);
    w32(&mut exp, 4);
    w32(&mut exp, 6);
    w32(&mut exp, 3.0f32.to_bits());
    w32(&mut exp, 0);
    assert_eq!(res, exp);

    let mut parser = Parser::new(&res);
    let mut sp = parser.pop_struct().unwrap();
    assert_eq!(sp.pop_id().unwrap(), Id(1));
    assert_eq!(sp.pop_long().unwrap(), 2);
    assert_eq!(sp.pop_rectangle().unwrap(), Rectangle { width: 3840, height: 2160 });
    assert_eq!(sp.pop_float().unwrap(), Float(3.0f32.to_bits()));
}

#[test]
fn test_pod_trait_round_trip() {
    let mut buf: Vec<u8> = Vec::new();
    Fraction { num: 30001, denom: 1 }.encode(&mut buf);
    7i32.encode(&mut buf);

    let (frac, n1) = Fraction::decode(&buf).unwrap();
    assert_eq!(frac, Fraction { num: 30001, denom: 1 });
    let (seven, n2) = i32::decode(&buf[n1..]).unwrap();
    assert_eq!(seven, 7);
    assert_eq!(n1 + n2, buf.len());
}
