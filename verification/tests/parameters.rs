use trek::params::{match_variant, DecodeError, Parameters};

fn pairs(items: &[(&str, &str)]) -> Vec<(String, String)> {
    items.iter().map(|(k, v)| (k.to_string(), v.to_string())).collect()
}

#[test]
fn new_parameters() {
    // struct target: fields read by name; an Option field may be absent
    #[derive(Debug)]
    struct MyStruct {
        user_id: usize,
        photo_id: Option<usize>,
    }

    let p = Parameters::new(pairs(&[("user_id", "233"), ("photo_id", "377")]));
    let s = MyStruct {
        user_id: p.field_u64("user_id").unwrap() as usize,
        photo_id: p.field_opt_u64("photo_id").unwrap().map(|v| v as usize),
    };
    assert_eq!(s.user_id, 233);
    assert_eq!(s.photo_id.unwrap(), 377);

    let p = Parameters::new(pairs(&[("user_id", "233")]));
    let s = MyStruct {
        user_id: p.field_u64("user_id").unwrap() as usize,
        photo_id: p.field_opt_u64("photo_id").unwrap().map(|v| v as usize),
    };
    assert_eq!(s.user_id, 233);
    assert_eq!(s.photo_id, None);

    // seq target: values in positional order
    let p = Parameters::new(pairs(&[("user_id", "233"), ("photo_id", "377")]));
    let s: Vec<String> = p.values();
    assert_eq!(s, vec!["233", "377"]);

    // fixed-size-array target
    let p = Parameters::new(pairs(&[("user_id", "233"), ("photo_id", "377")]));
    p.tuple_arity(2).unwrap();
    let s: [usize; 2] = [p.u64_at(0).unwrap() as usize, p.u64_at(1).unwrap() as usize];
    assert_eq!(s, [233, 377]);

    // tuple target
    let p = Parameters::new(pairs(&[("key", "age"), ("value", "32")]));
    p.tuple_arity(2).unwrap();
    let s: (String, String) = (p.string_at(0).unwrap(), p.string_at(1).unwrap());
    assert_eq!(s.0, "age");
    assert_eq!(s.1, "32");

    // tuple target with a numeric element
    let p = Parameters::new(pairs(&[("key", "age"), ("value", "32")]));
    p.tuple_arity(2).unwrap();
    let s: (String, usize) = (p.string_at(0).unwrap(), p.u64_at(1).unwrap() as usize);
    assert_eq!(s.0, "age");
    assert_eq!(s.1, 32);

    // tuple-struct target
    #[derive(Debug)]
    struct MyStructTuple(String, u32);

    let p = Parameters::new(pairs(&[("key", "age"), ("value", "32")]));
    p.tuple_arity(2).unwrap();
    let s = MyStructTuple(p.string_at(0).unwrap(), p.u64_at(1).unwrap() as u32);
    assert_eq!(s.0, "age");
    assert_eq!(s.1, 32);

    // named-struct target
    #[derive(Debug)]
    struct MyStruct2 {
        key: String,
        value: usize,
    }

    let p = Parameters::new(pairs(&[("key", "age"), ("value", "32")]));
    let s = MyStruct2 {
        key: p.field_string("key").unwrap(),
        value: p.field_u64("value").unwrap() as usize,
    };
    assert_eq!(s.key, "age");
    assert_eq!(s.value, 32);

    // single scalar target
    let p = Parameters::new(pairs(&[("id", "32")]));
    let s: i64 = p.one_i64().unwrap();
    assert_eq!(s, 32);

    // unit-enum target: the first capture's value picks the variant
    #[derive(Debug, PartialEq)]
    enum MyEnum {
        Val1,
        Val2,
    }
    let variants = ["val1", "val2"];
    let of_index = |i: usize| if i == 0 { MyEnum::Val1 } else { MyEnum::Val2 };

    let p = Parameters::new(pairs(&[("val", "val1")]));
    let s = of_index(p.variant(&variants).unwrap());
    assert_eq!(s, MyEnum::Val1);

    let p = Parameters::new(pairs(&[("val", "val2")]));
    let s = of_index(p.variant(&variants).unwrap());
    assert_eq!(s, MyEnum::Val2);

    // positional enum decoding reads each value, not the keys
    let p = Parameters::new(pairs(&[("val1", "val2"), ("val2", "val1")]));
    let s = (
        of_index(p.variant_at(0, &variants).unwrap()),
        of_index(p.variant_at(1, &variants).unwrap()),
    );
    assert_eq!(s.0, MyEnum::Val2);
    assert_eq!(s.1, MyEnum::Val1);

    // enum inside a named struct: the field's value picks the variant
    #[derive(Debug)]
    struct MyStructEnum {
        val: MyEnum,
    }

    let p = Parameters::new(pairs(&[("val", "val1")]));
    let s = MyStructEnum {
        val: of_index(match_variant(p.field("val").unwrap().as_str(), &variants).unwrap()),
    };
    assert_eq!(s.val, MyEnum::Val1);

    // a value naming no variant fails, and the message says what was seen
    // and what was expected
    let p = Parameters::new(pairs(&[("val", "val3")]));
    let s: Result<usize, DecodeError> = p.variant(&variants);
    assert!(s.is_err());
    assert!(format!("{:?}", s).contains("unknown variant `val3`, expected `val1` or `val2`"));
}

#[test]
fn decode_error_variants() {
    // wrong arity: a scalar wants exactly one capture
    let p = Parameters::new(pairs(&[("a", "1"), ("b", "2"), ("c", "3")]));
    let e = p.one_u64().unwrap_err();
    assert_eq!(e.message().as_str(), "wrong number of parameters: 3 expected 1");

    // wrong arity: a tuple wants at least its arity
    let p = Parameters::new(pairs(&[("a", "1")]));
    let e = p.tuple_arity(2).unwrap_err();
    assert_eq!(e.message().as_str(), "wrong number of parameters: 1 expected 2");

    // unparsable scalar
    let p = Parameters::new(pairs(&[("id", "abc")]));
    let e = p.one_u64().unwrap_err();
    assert_eq!(e.message().as_str(), "can not parse `abc` to a u64");
    let e = p.one_i64().unwrap_err();
    assert_eq!(e.message().as_str(), "can not parse `abc` to a i64");
    let e = p.one_bool().unwrap_err();
    assert_eq!(e.message().as_str(), "can not parse `abc` to a bool");
    let e = p.one_char().unwrap_err();
    assert_eq!(e.message().as_str(), "can not parse `abc` to a char");

    // missing field
    let p = Parameters::new(pairs(&[("id", "1")]));
    let e = p.field_u64("name").unwrap_err();
    assert_eq!(e.message().as_str(), "missing field `name`");

    // enum decoding needs at least one capture
    let p = Parameters::new(Vec::new());
    let e = p.variant(&["a", "b"]).unwrap_err();
    assert_eq!(e.message().as_str(), "expected at least one parameter");

    // unknown variant, against one and against many declared variants
    let e = match_variant("x", &["only"]).unwrap_err();
    assert_eq!(e.message().as_str(), "unknown variant `x`, expected `only`");
    let e = match_variant("x", &["a", "b", "c"]).unwrap_err();
    assert_eq!(e.message().as_str(), "unknown variant `x`, expected one of `a`, `b`, `c`");
}

#[test]
fn scalar_decoding() {
    let p = Parameters::new(pairs(&[("id", "42")]));
    assert_eq!(p.one_u64().unwrap(), 42);
    assert_eq!(p.one_string().unwrap(), "42");
    assert_eq!(p.len(), 1);

    let p = Parameters::new(pairs(&[("neg", "-7")]));
    assert_eq!(p.one_i64().unwrap(), -7);

    let p = Parameters::new(pairs(&[("flag", "true")]));
    assert_eq!(p.one_bool().unwrap(), true);
    let p = Parameters::new(pairs(&[("flag", "false")]));
    assert_eq!(p.one_bool().unwrap(), false);

    let p = Parameters::new(pairs(&[("c", "x")]));
    assert_eq!(p.one_char().unwrap(), 'x');
}
