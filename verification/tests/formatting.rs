use vm_rust::allocator::DatumAllocator;
use vm_rust::datum::{CastMemberRef, ColorRef, Datum};
use vm_rust::datum_formatting::{datum_to_string_for_concat, format_concrete_datum, format_datum, format_numeric_value};
use vm_rust::datum_ref::DatumRef;

fn s(t: &str) -> Datum {
    Datum::String(t.to_string())
}

#[test]
fn formats_scalars() {
    assert_eq!(format_concrete_datum(&Datum::Int(-42)), "-42");
    assert_eq!(format_concrete_datum(&s("hi")), "\"hi\"");
    assert_eq!(format_concrete_datum(&Datum::Symbol("go".to_string())), "#go");
    assert_eq!(format_concrete_datum(&Datum::Void), "Void");
    assert_eq!(format_concrete_datum(&Datum::Null), "<Null>");
    assert_eq!(format_concrete_datum(&Datum::Point(1, -2)), "point(1, -2)");
    assert_eq!(format_concrete_datum(&Datum::Rect(0, 1, 2, 3)), "rect(0, 1, 2, 3)");
    assert_eq!(format_concrete_datum(&Datum::ColorRef(ColorRef::Rgb(255, 0, 10))), "rgb(255, 0, 10)");
    assert_eq!(format_concrete_datum(&Datum::ColorRef(ColorRef::PaletteIndex(7))), "color(7)");
    assert_eq!(
        format_concrete_datum(&Datum::CastMember(CastMemberRef { cast_lib: 1, cast_member: 5 })),
        "(member 5 of castLib 1)"
    );
    assert_eq!(format_concrete_datum(&Datum::SpriteRef(3)), "(sprite 3)");
}

#[test]
fn formats_lists() {
    let l = Datum::List(vec![Datum::Int(1), s("a"), Datum::List(vec![])]);
    assert_eq!(format_concrete_datum(&l), "[1, \"a\", []]");
    assert_eq!(format_concrete_datum(&Datum::PropList(vec![])), "[:]");
    let p = Datum::PropList(vec![(Datum::Symbol("a".to_string()), Datum::Int(1)), (s("b"), Datum::Int(2))]);
    assert_eq!(format_concrete_datum(&p), "[#a: 1, \"b\": 2]");
}

#[test]
fn format_datum_reads_the_store() {
    let mut a = DatumAllocator::new();
    let r = a.alloc_datum(Datum::Point(4, 5));
    assert_eq!(format_datum(&r, &a), "point(4, 5)");
    assert_eq!(format_datum(&DatumRef::Void, &a), "Void");
}

#[test]
fn concat_text_forms() {
    assert_eq!(datum_to_string_for_concat(&s("x")), "x");
    assert_eq!(datum_to_string_for_concat(&Datum::Symbol("sym".to_string())), "sym");
    assert_eq!(datum_to_string_for_concat(&Datum::Void), "");
    let p = Datum::PropList(vec![(Datum::Symbol("a".to_string()), s("b"))]);
    assert_eq!(datum_to_string_for_concat(&p), "[a:b]");
    assert_eq!(datum_to_string_for_concat(&Datum::Int(12)), "12");
}

#[test]
fn numeric_values() {
    assert_eq!(format_numeric_value(&Datum::Int(7)), "7");
    assert_eq!(format_numeric_value(&s("7")), "\"7\"");
}
