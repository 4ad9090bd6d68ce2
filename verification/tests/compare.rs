use vm_rust::allocator::DatumAllocator;
use vm_rust::compare::{datum_equals, datum_greater_than, datum_is_zero, datum_less_than, sort_datums};
use vm_rust::datum::{CastMemberRef, Datum};

fn s(t: &str) -> Datum {
    Datum::String(t.to_string())
}

#[test]
fn strings_equal_ignoring_case() {
    assert!(datum_equals(&s("Hello"), &s("hELLO")));
    assert!(!datum_equals(&s("Hello"), &s("Hell")));
    assert!(!datum_equals(&s("abc"), &Datum::Symbol("abc".to_string())));
}

#[test]
fn integers_equal_strings_that_parse_to_them() {
    assert!(datum_equals(&Datum::Int(2), &s("2")));
    assert!(datum_equals(&s("2"), &Datum::Int(2)));
    assert!(!datum_equals(&Datum::Int(2), &s("two")));
    assert!(datum_equals(&Datum::Int(0), &Datum::Void));
}

#[test]
fn points_equal_two_item_lists() {
    let l = Datum::List(vec![Datum::Int(3), Datum::Int(4)]);
    assert!(datum_equals(&Datum::Point(3, 4), &l));
    assert!(datum_equals(&l, &Datum::Point(3, 4)));
    let r = Datum::List(vec![Datum::Int(1), Datum::Int(2), Datum::Int(3), Datum::Int(4)]);
    assert!(datum_equals(&Datum::Rect(1, 2, 3, 4), &r));
}

#[test]
fn void_equals_null_and_an_empty_member_ref() {
    assert!(datum_equals(&Datum::Void, &Datum::Null));
    let none = Datum::CastMember(CastMemberRef { cast_lib: 0, cast_member: 0 });
    assert!(datum_equals(&Datum::Void, &none));
    let some = Datum::CastMember(CastMemberRef { cast_lib: 1, cast_member: 1 });
    assert!(!datum_equals(&Datum::Void, &some));
}

#[test]
fn lists_and_proplists_compare_item_by_item() {
    let a = Datum::List(vec![Datum::Int(1), s("X")]);
    let b = Datum::List(vec![Datum::Int(1), s("x")]);
    assert!(datum_equals(&a, &b));
    let p = Datum::PropList(vec![(Datum::Symbol("a".to_string()), Datum::Int(1))]);
    let q = Datum::PropList(vec![(Datum::Symbol("A".to_string()), Datum::Int(1))]);
    assert!(datum_equals(&p, &q));
}

#[test]
fn less_and_greater() {
    assert!(datum_less_than(&Datum::Int(1), &Datum::Int(2)));
    assert!(datum_less_than(&Datum::Void, &Datum::Int(-5)));
    assert!(!datum_greater_than(&Datum::Void, &Datum::Int(-5)));
    assert!(datum_less_than(&s("apple"), &s("Banana")));
    assert!(datum_greater_than(&s("10"), &Datum::Int(9)));
    assert!(datum_less_than(&Datum::Point(1, 1), &Datum::Point(2, 2)));
    assert!(!datum_less_than(&Datum::Point(1, 3), &Datum::Point(2, 2)));
    let p = Datum::PropList(vec![(Datum::Symbol("k".to_string()), Datum::Int(1))]);
    let q = Datum::PropList(vec![(Datum::Symbol("k".to_string()), Datum::Int(2))]);
    assert!(datum_less_than(&p, &q));
}

#[test]
fn is_zero() {
    assert_eq!(datum_is_zero(&Datum::Int(0)).unwrap(), true);
    assert_eq!(datum_is_zero(&Datum::Int(3)).unwrap(), false);
    assert_eq!(datum_is_zero(&Datum::Void).unwrap(), true);
    assert_eq!(datum_is_zero(&Datum::Point(0, 0)).unwrap(), true);
    assert_eq!(datum_is_zero(&Datum::Rect(0, 0, 1, 0)).unwrap(), false);
    assert!(datum_is_zero(&s("x")).is_err());
}

#[test]
fn sort_is_stable_and_ordered() {
    let mut a = DatumAllocator::new();
    let r3 = a.alloc_datum(Datum::Int(3));
    let r1 = a.alloc_datum(Datum::Int(1));
    let r2a = a.alloc_datum(Datum::Int(2));
    let r2b = a.alloc_datum(Datum::Int(2));
    let sorted = sort_datums(&vec![r3, r2a, r1, r2b], &a).unwrap();
    let ids: Vec<usize> = sorted.iter().map(|r| r.unwrap()).collect();
    assert_eq!(ids, vec![r1.unwrap(), r2a.unwrap(), r2b.unwrap(), r3.unwrap()]);
}

#[test]
fn sort_strings_ignoring_case() {
    let mut a = DatumAllocator::new();
    let c = a.alloc_datum(s("c"));
    let b = a.alloc_datum(s("B"));
    let x = a.alloc_datum(s("a"));
    let sorted = sort_datums(&vec![c, b, x], &a).unwrap();
    let ids: Vec<usize> = sorted.iter().map(|r| r.unwrap()).collect();
    assert_eq!(ids, vec![x.unwrap(), b.unwrap(), c.unwrap()]);
}

#[test]
fn equality_reads_the_same_both_ways() {
    let pairs = vec![
        (Datum::Int(2), s("2")),
        (Datum::Int(0), Datum::Void),
        (s("abc"), Datum::Symbol("abc".to_string())),
        (Datum::List(vec![Datum::Int(1), Datum::Int(2)]), Datum::Point(1, 2)),
        (Datum::List(vec![s("x")]), Datum::List(vec![s("X")])),
    ];
    for (a, b) in &pairs {
        assert_eq!(datum_equals(a, b), datum_equals(b, a));
    }
    assert!(datum_equals(&Datum::Int(2), &s("2")) && datum_equals(&s("2"), &Datum::Int(2)));
}
