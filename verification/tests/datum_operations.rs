use vm_rust::allocator::DatumAllocator;
use vm_rust::datum::{ColorRef, Datum, ScriptErrorCode};
use vm_rust::datum_operations::{add_datums, concat_datums, divide_datums, multiply_datums, subtract_datums};

fn s(t: &str) -> Datum {
    Datum::String(t.to_string())
}

fn sym(t: &str) -> Datum {
    Datum::Symbol(t.to_string())
}

#[test]
fn integers_add_with_wrap_around() {
    assert!(matches!(add_datums(Datum::Int(2), Datum::Int(3)).unwrap(), Datum::Int(5)));
    assert!(matches!(add_datums(Datum::Int(i32::MAX), Datum::Int(1)).unwrap(), Datum::Int(i32::MIN)));
    assert!(matches!(subtract_datums(Datum::Int(2), Datum::Int(5)).unwrap(), Datum::Int(-3)));
}

#[test]
fn void_is_the_identity_of_addition() {
    assert!(matches!(add_datums(Datum::Void, Datum::Int(7)).unwrap(), Datum::Int(7)));
    assert!(matches!(add_datums(Datum::Point(1, 2), Datum::Void).unwrap(), Datum::Point(1, 2)));
}

#[test]
fn rect_plus_int_and_point() {
    assert!(matches!(add_datums(Datum::Rect(1, 2, 3, 4), Datum::Int(10)).unwrap(), Datum::Rect(11, 12, 13, 14)));
    assert!(matches!(
        add_datums(Datum::Rect(1, 2, 3, 4), Datum::Point(10, 20)).unwrap(),
        Datum::Rect(11, 22, 13, 24)
    ));
    assert!(matches!(subtract_datums(Datum::Point(5, 5), Datum::Int(1)).unwrap(), Datum::Point(4, 4)));
}

#[test]
fn a_point_component_out_of_range_is_unrepresentable() {
    let e = add_datums(Datum::Point(i32::MAX, 0), Datum::Int(1)).unwrap_err();
    assert_eq!(e.code, ScriptErrorCode::Unrepresentable);
}

#[test]
fn list_with_scalar_applies_to_each_item() {
    let list = Datum::List(vec![Datum::Int(1), Datum::Int(2), Datum::Int(3)]);
    match add_datums(list, Datum::Int(10)).unwrap() {
        Datum::List(items) => {
            assert_eq!(items.len(), 3);
            assert!(matches!(items[0], Datum::Int(11)));
            assert!(matches!(items[2], Datum::Int(13)));
        }
        other => panic!("expected a list, got {:?}", other),
    }
    // Scalar on the left: 10 - item.
    let list = Datum::List(vec![Datum::Int(1), Datum::Int(2)]);
    match subtract_datums(Datum::Int(10), list).unwrap() {
        Datum::List(items) => {
            assert!(matches!(items[0], Datum::Int(9)));
            assert!(matches!(items[1], Datum::Int(8)));
        }
        other => panic!("expected a list, got {:?}", other),
    }
}

#[test]
fn two_lists_combine_over_their_common_length() {
    let a = Datum::List(vec![Datum::Int(1), Datum::Int(2), Datum::Int(3)]);
    let b = Datum::List(vec![Datum::Int(10), Datum::Int(20)]);
    match add_datums(a, b).unwrap() {
        Datum::List(items) => {
            assert_eq!(items.len(), 2);
            assert!(matches!(items[1], Datum::Int(22)));
        }
        other => panic!("expected a list, got {:?}", other),
    }
}

#[test]
fn proplists_combine_under_the_left_names() {
    let a = Datum::PropList(vec![(sym("norm"), Datum::Int(1)), (sym("easy"), Datum::Int(2))]);
    let b = Datum::PropList(vec![(sym("x"), Datum::Int(10)), (sym("y"), Datum::Int(20))]);
    match add_datums(a, b).unwrap() {
        Datum::PropList(pairs) => {
            assert_eq!(pairs.len(), 2);
            assert!(matches!(&pairs[0].0, Datum::Symbol(n) if n == "norm"));
            assert!(matches!(pairs[0].1, Datum::Int(11)));
            assert!(matches!(&pairs[1].0, Datum::Symbol(n) if n == "easy"));
            assert!(matches!(pairs[1].1, Datum::Int(22)));
        }
        other => panic!("expected a property list, got {:?}", other),
    }
}

#[test]
fn a_symbol_counts_as_its_name() {
    // `#none - 0`: the name reads as a number, which Director gives as a float.
    let e = subtract_datums(sym("none"), Datum::Int(0)).unwrap_err();
    assert_eq!(e.code, ScriptErrorCode::Unrepresentable);
    // A string on the left joins the other value's text.
    match add_datums(s("ab"), sym("cd")).unwrap() {
        Datum::String(t) => assert_eq!(t, "abcd"),
        other => panic!("expected a string, got {:?}", other),
    }
}

#[test]
fn colors_add_channel_wise() {
    match add_datums(Datum::ColorRef(ColorRef::Rgb(250, 1, 2)), Datum::ColorRef(ColorRef::Rgb(10, 1, 2))).unwrap() {
        Datum::ColorRef(ColorRef::Rgb(r, g, b)) => assert_eq!((r, g, b), (4, 2, 4)),
        other => panic!("expected a color, got {:?}", other),
    }
}

#[test]
fn mismatched_operands_are_a_script_error() {
    let e = add_datums(Datum::Stage, Datum::Int(1)).unwrap_err();
    assert_eq!(e.code, ScriptErrorCode::Generic);
}

#[test]
fn multiply_and_divide_read_the_store() {
    let mut a = DatumAllocator::new();
    let p = a.alloc_datum(Datum::Point(2, 3));
    let n = a.alloc_datum(Datum::Int(4));
    assert!(matches!(multiply_datums(&p, &n, &a).unwrap(), Datum::Point(8, 12)));
    let r = a.alloc_datum(Datum::Rect(8, 12, 16, 20));
    assert!(matches!(divide_datums(&r, &n, &a).unwrap(), Datum::Rect(2, 3, 4, 5)));
    let seven = a.alloc_datum(Datum::Int(7));
    let zero = a.alloc_datum(Datum::Int(0));
    // A zero divisor counts as 1.
    assert!(matches!(divide_datums(&seven, &zero, &a).unwrap(), Datum::Int(7)));
    let neg = a.alloc_datum(Datum::Int(-7));
    let two = a.alloc_datum(Datum::Int(2));
    // Integer division truncates toward zero.
    assert!(matches!(divide_datums(&neg, &two, &a).unwrap(), Datum::Int(-3)));
}

#[test]
fn multiply_list_by_integer() {
    let mut a = DatumAllocator::new();
    let l = a.alloc_datum(Datum::List(vec![Datum::Int(1), Datum::Point(1, 2)]));
    let n = a.alloc_datum(Datum::Int(3));
    match multiply_datums(&l, &n, &a).unwrap() {
        Datum::List(items) => {
            assert!(matches!(items[0], Datum::Int(3)));
            assert!(matches!(items[1], Datum::Point(3, 6)));
        }
        other => panic!("expected a list, got {:?}", other),
    }
    let void = a.alloc_datum(Datum::Void);
    assert!(matches!(multiply_datums(&void, &n, &a).unwrap(), Datum::Int(0)));
}

#[test]
fn concat_joins_text() {
    match concat_datums(s("a"), Datum::Int(5)).unwrap() {
        Datum::String(t) => assert_eq!(t, "a5"),
        other => panic!("expected a string, got {:?}", other),
    }
    match concat_datums(sym("x"), Datum::Void).unwrap() {
        Datum::String(t) => assert_eq!(t, "x"),
        other => panic!("expected a string, got {:?}", other),
    }
    let list = Datum::List(vec![Datum::Int(1), s("b")]);
    match concat_datums(list, Datum::Point(1, 2)).unwrap() {
        Datum::String(t) => assert_eq!(t, "[1, b]point(1, 2)"),
        other => panic!("expected a string, got {:?}", other),
    }
}

#[test]
fn a_string_that_is_no_number_times_an_integer_is_123456789() {
    assert!(matches!(multiply_datums_values(s("abc"), Datum::Int(3)), Ok(Datum::Int(123456789))));
    assert!(matches!(multiply_datums_values(s("abc"), Datum::Int(0)), Ok(Datum::Int(0))));
    // A string that reads as a number gives a floating-point value.
    for t in ["2.5", "-3", "1e4", "+.5", "inf", "NaN", "7.e-2"] {
        let e = multiply_datums_values(s(t), Datum::Int(3)).unwrap_err();
        assert_eq!(e.code, ScriptErrorCode::Unrepresentable);
    }
    for t in ["", ".", "1e", "e5", "1.2.3", " 1", "--1", "infinit"] {
        assert!(matches!(multiply_datums_values(s(t), Datum::Int(2)), Ok(Datum::Int(123456789))), "{}", t);
    }
}

fn multiply_datums_values(l: Datum, r: Datum) -> Result<Datum, vm_rust::datum::ScriptError> {
    let mut a = DatumAllocator::new();
    let lr = a.alloc_datum(l);
    let rr = a.alloc_datum(r);
    multiply_datums(&lr, &rr, &a)
}
