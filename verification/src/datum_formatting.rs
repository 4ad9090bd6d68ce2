//! How datums are written out: the debugger/`put` form, and the form a value
//! takes when joined into a string with `&`.
use vstd::prelude::*;
use vstd::string::*;
use crate::datum::{ColorRef, Datum, DatumView, view_items, view_pairs, lemma_view_items, lemma_view_pairs};
use crate::text::{int_to_decimal, push_int};
use crate::allocator::DatumAllocator;
use crate::datum_ref::DatumRef;

verus! {

broadcast use {lemma_view_items, lemma_view_pairs};

/// `color(i)` or `rgb(r, g, b)`.
pub open spec fn color_text(c: ColorRef) -> Seq<char> {
    match c {
        ColorRef::PaletteIndex(i) => "color("@ + int_to_decimal(i as int) + ")"@,
        ColorRef::Rgb(r, g, b) => "rgb("@ + int_to_decimal(r as int) + ", "@ + int_to_decimal(
            g as int,
        ) + ", "@ + int_to_decimal(b as int) + ")"@,
    }
}

/// The formatted items of a list, separated by `", "`.
pub open spec fn formatted_items(items: Seq<DatumView>) -> Seq<char>
    decreases items,
{
    if items.len() == 0 {
        Seq::empty()
    } else if items.len() == 1 {
        format_spec(items[0])
    } else {
        formatted_items(items.drop_last()) + ", "@ + format_spec(items.last())
    }
}

/// The formatted `key: value` entries of a property list, separated by `", "`.
pub open spec fn formatted_pairs(pairs: Seq<(DatumView, DatumView)>) -> Seq<char>
    decreases pairs,
{
    if pairs.len() == 0 {
        Seq::empty()
    } else if pairs.len() == 1 {
        format_spec(pairs[0].0) + ": "@ + format_spec(pairs[0].1)
    } else {
        formatted_pairs(pairs.drop_last()) + ", "@ + format_spec(pairs.last().0) + ": "@
            + format_spec(pairs.last().1)
    }
}

/// The text Director shows for a value: strings quoted, symbols with `#`,
/// lists in brackets, and the other kinds in their constructor form.
pub open spec fn format_spec(d: DatumView) -> Seq<char>
    decreases d,
{
    match d {
        DatumView::String(s) => "\""@ + s + "\""@,
        DatumView::Int(i) => int_to_decimal(i as int),
        DatumView::List(items) => "["@ + formatted_items(items) + "]"@,
        DatumView::Void => "Void"@,
        DatumView::Symbol(s) => "#"@ + s,
        DatumView::CastLib(n) => "castLib("@ + int_to_decimal(n as int) + ")"@,
        DatumView::Stage => "the stage"@,
        DatumView::PropList(pairs) => if pairs.len() == 0 {
            "[:]"@
        } else {
            "["@ + formatted_pairs(pairs) + "]"@
        },
        DatumView::CastMember(m) => "(member "@ + int_to_decimal(m.cast_member as int)
            + " of castLib "@ + int_to_decimal(m.cast_lib as int) + ")"@,
        DatumView::SpriteRef(n) => "(sprite "@ + int_to_decimal(n as int) + ")"@,
        DatumView::Rect(a, b, c, e) => "rect("@ + int_to_decimal(a as int) + ", "@ + int_to_decimal(
            b as int,
        ) + ", "@ + int_to_decimal(c as int) + ", "@ + int_to_decimal(e as int) + ")"@,
        DatumView::Point(x, y) => "point("@ + int_to_decimal(x as int) + ", "@ + int_to_decimal(
            y as int,
        ) + ")"@,
        DatumView::TimeoutRef(name) => "timeout(\""@ + name + "\")"@,
        DatumView::TimeoutFactory => "<timeoutFactory>"@,
        DatumView::ColorRef(c) => color_text(c),
        DatumView::Xtra(name) => "<Xtra \""@ + name + "\" _ _______>"@,
        DatumView::XtraInstance(name, id) => "<Xtra child \""@ + name + "\" #"@ + int_to_decimal(
            id as int,
        ) + ">"@,
        DatumView::Null => "<Null>"@,
        DatumView::PlayerRef => "<_player>"@,
        DatumView::MovieRef => "<_movie>"@,
        DatumView::XmlRef(id) => "<xml:"@ + int_to_decimal(id as int) + ">"@,
    }
}

fn write_color(out: &mut String, c: &ColorRef)
    ensures
        final(out)@ == old(out)@ + color_text(*c),
{
    let ghost start = out@;
    match c {
        ColorRef::PaletteIndex(i) => {
            out.append("color(");
            push_int(out, *i as i64);
            out.append(")");
        },
        ColorRef::Rgb(r, g, b) => {
            out.append("rgb(");
            push_int(out, *r as i64);
            out.append(", ");
            push_int(out, *g as i64);
            out.append(", ");
            push_int(out, *b as i64);
            out.append(")");
        },
    }
    assert(out@ =~= start + color_text(*c));
}

/// Appends the formatted text of a datum.
pub fn write_datum(out: &mut String, d: &Datum)
    ensures
        final(out)@ == old(out)@ + format_spec(d@),
    decreases d,
{
    let ghost start = out@;
    match d {
        Datum::String(s) => {
            out.append("\"");
            out.append(s.as_str());
            out.append("\"");
        },
        Datum::Int(i) => push_int(out, *i as i64),
        Datum::List(items) => {
            out.append("[");
            let ghost opened = out@;
            let mut i: usize = 0;
            while i < items.len()
                invariant
                    *d == Datum::List(*items),
                    i <= items.len(),
                    out@ == opened + formatted_items(view_items(items@).take(i as int)),
                decreases items.len() - i,
            {
                proof {
                    assert(decreases_to!(*d => d->List_0));
                    assert(decreases_to!(*items => items[i as int]));
                }
                if i > 0 {
                    out.append(", ");
                }
                write_datum(out, &items[i]);
                proof {
                    let v = view_items(items@);
                    assert(v.take(i + 1).drop_last() =~= v.take(i as int));
                    assert(v.take(i + 1).last() == items@[i as int]@);
                    if i == 0 {
                        assert(v.take(1)[0] == items@[0]@);
                    }
                }
                i = i + 1;
            }
            assert(view_items(items@).take(items.len() as int) =~= view_items(items@));
            out.append("]");
        },
        Datum::Void => out.append("Void"),
        Datum::Symbol(s) => {
            out.append("#");
            out.append(s.as_str());
        },
        Datum::CastLib(n) => {
            out.append("castLib(");
            push_int(out, *n as i64);
            out.append(")");
        },
        Datum::Stage => out.append("the stage"),
        Datum::PropList(pairs) => {
            if pairs.len() == 0 {
                out.append("[:]");
            } else {
                out.append("[");
                let ghost opened = out@;
                let mut i: usize = 0;
                while i < pairs.len()
                    invariant
                        *d == Datum::PropList(*pairs),
                        i <= pairs.len(),
                        out@ == opened + formatted_pairs(view_pairs(pairs@).take(i as int)),
                    decreases pairs.len() - i,
                {
                    proof {
                        assert(decreases_to!(*d => d->PropList_0));
                        assert(decreases_to!(*pairs => pairs[i as int]));
                        assert(decreases_to!(pairs[i as int] => pairs[i as int].0));
                        assert(decreases_to!(pairs[i as int] => pairs[i as int].1));
                    }
                    if i > 0 {
                        out.append(", ");
                    }
                    write_datum(out, &pairs[i].0);
                    out.append(": ");
                    write_datum(out, &pairs[i].1);
                    proof {
                        let v = view_pairs(pairs@);
                        assert(v.take(i + 1).drop_last() =~= v.take(i as int));
                        assert(v.take(i + 1).last() == (pairs@[i as int].0@, pairs@[i as int].1@));
                        if i == 0 {
                            assert(v.take(1)[0] == (pairs@[0].0@, pairs@[0].1@));
                        }
                    }
                    i = i + 1;
                }
                assert(view_pairs(pairs@).take(pairs.len() as int) =~= view_pairs(pairs@));
                out.append("]");
            }
        },
        Datum::CastMember(m) => {
            out.append("(member ");
            push_int(out, m.cast_member as i64);
            out.append(" of castLib ");
            push_int(out, m.cast_lib as i64);
            out.append(")");
        },
        Datum::SpriteRef(n) => {
            out.append("(sprite ");
            push_int(out, *n as i64);
            out.append(")");
        },
        Datum::Rect(a, b, c, e) => {
            out.append("rect(");
            push_int(out, *a as i64);
            out.append(", ");
            push_int(out, *b as i64);
            out.append(", ");
            push_int(out, *c as i64);
            out.append(", ");
            push_int(out, *e as i64);
            out.append(")");
        },
        Datum::Point(x, y) => {
            out.append("point(");
            push_int(out, *x as i64);
            out.append(", ");
            push_int(out, *y as i64);
            out.append(")");
        },
        Datum::TimeoutRef(name) => {
            out.append("timeout(\"");
            out.append(name.as_str());
            out.append("\")");
        },
        Datum::TimeoutFactory => out.append("<timeoutFactory>"),
        Datum::ColorRef(c) => write_color(out, c),
        Datum::Xtra(name) => {
            out.append("<Xtra \"");
            out.append(name.as_str());
            out.append("\" _ _______>");
        },
        Datum::XtraInstance(name, id) => {
            out.append("<Xtra child \"");
            out.append(name.as_str());
            out.append("\" #");
            push_int(out, *id as i64);
            out.append(">");
        },
        Datum::Null => out.append("<Null>"),
        Datum::PlayerRef => out.append("<_player>"),
        Datum::MovieRef => out.append("<_movie>"),
        Datum::XmlRef(id) => {
            out.append("<xml:");
            push_int(out, *id as i64);
            out.append(">");
        },
    }
    assert(out@ =~= start + format_spec(d@));
}

/// The text Director shows for a value; see `format_spec`.
pub fn format_concrete_datum(datum: &Datum) -> (s: String)
    ensures
        s@ == format_spec(datum@),
{
    let mut s = String::new();
    write_datum(&mut s, datum);
    assert(s@ =~= format_spec(datum@));
    s
}

/// The text of the datum a reference names.
pub fn format_datum(datum_ref: &DatumRef, allocator: &DatumAllocator) -> (s: String)
    requires
        allocator.wf(),
        allocator.holds(*datum_ref),
    ensures
        s@ == format_spec(allocator.value_of(*datum_ref)),
{
    let datum = allocator.get_datum(datum_ref);
    format_concrete_datum(&datum)
}

/// The items of a list as joined into a string, separated by `", "`.
pub open spec fn concat_items(items: Seq<DatumView>) -> Seq<char>
    decreases items,
{
    if items.len() == 0 {
        Seq::empty()
    } else if items.len() == 1 {
        concat_text(items[0])
    } else {
        concat_items(items.drop_last()) + ", "@ + concat_text(items.last())
    }
}

/// The `key:value` entries of a property list as joined into a string.
pub open spec fn concat_pairs(pairs: Seq<(DatumView, DatumView)>) -> Seq<char>
    decreases pairs,
{
    if pairs.len() == 0 {
        Seq::empty()
    } else if pairs.len() == 1 {
        concat_text(pairs[0].0) + ":"@ + concat_text(pairs[0].1)
    } else {
        concat_pairs(pairs.drop_last()) + ", "@ + concat_text(pairs.last().0) + ":"@ + concat_text(
            pairs.last().1,
        )
    }
}

/// The text a value contributes when joined into a string with `&`: strings
/// and symbols bare, VOID and `<Null>` empty, lists bracketed with their
/// items in this same form, anything else as `format_spec` shows it.
pub open spec fn concat_text(d: DatumView) -> Seq<char>
    decreases d,
{
    match d {
        DatumView::String(s) => s,
        DatumView::Symbol(s) => s,
        DatumView::Void | DatumView::Null => Seq::empty(),
        DatumView::ColorRef(c) => color_text(c),
        DatumView::List(items) => "["@ + concat_items(items) + "]"@,
        DatumView::PropList(pairs) => if pairs.len() == 0 {
            "[:]"@
        } else {
            "["@ + concat_pairs(pairs) + "]"@
        },
        _ => format_spec(d),
    }
}

/// Appends the items of a list as joined into a string, separated by `", "`.
pub fn write_concat_items(out: &mut String, items: &Vec<Datum>)
    ensures
        final(out)@ == old(out)@ + concat_items(view_items(items@)),
    decreases items,
{
    let ghost opened = out@;
    let mut i: usize = 0;
    while i < items.len()
        invariant
            i <= items.len(),
            out@ == opened + concat_items(view_items(items@).take(i as int)),
        decreases items.len() - i,
    {
        proof {
            assert(decreases_to!(*items => items[i as int]));
        }
        if i > 0 {
            out.append(", ");
        }
        write_concat_text(out, &items[i]);
        proof {
            let v = view_items(items@);
            assert(v.take(i + 1).drop_last() =~= v.take(i as int));
            assert(v.take(i + 1).last() == items@[i as int]@);
            if i == 0 {
                assert(v.take(1)[0] == items@[0]@);
            }
        }
        i = i + 1;
    }
    assert(view_items(items@).take(items.len() as int) =~= view_items(items@));
}

/// Appends the text a value contributes when joined into a string.
pub fn write_concat_text(out: &mut String, d: &Datum)
    ensures
        final(out)@ == old(out)@ + concat_text(d@),
    decreases d,
{
    let ghost start = out@;
    match d {
        Datum::String(s) => out.append(s.as_str()),
        Datum::Symbol(s) => out.append(s.as_str()),
        Datum::Void | Datum::Null => {},
        Datum::ColorRef(c) => write_color(out, c),
        Datum::List(items) => {
            out.append("[");
            proof {
                assert(decreases_to!(*d => d->List_0));
            }
            write_concat_items(out, items);
            out.append("]");
        },
        Datum::PropList(pairs) => {
            if pairs.len() == 0 {
                out.append("[:]");
            } else {
                out.append("[");
                let ghost opened = out@;
                let mut i: usize = 0;
                while i < pairs.len()
                    invariant
                        *d == Datum::PropList(*pairs),
                        i <= pairs.len(),
                        out@ == opened + concat_pairs(view_pairs(pairs@).take(i as int)),
                    decreases pairs.len() - i,
                {
                    proof {
                        assert(decreases_to!(*d => d->PropList_0));
                        assert(decreases_to!(*pairs => pairs[i as int]));
                        assert(decreases_to!(pairs[i as int] => pairs[i as int].0));
                        assert(decreases_to!(pairs[i as int] => pairs[i as int].1));
                    }
                    if i > 0 {
                        out.append(", ");
                    }
                    write_concat_text(out, &pairs[i].0);
                    out.append(":");
                    write_concat_text(out, &pairs[i].1);
                    proof {
                        let v = view_pairs(pairs@);
                        assert(v.take(i + 1).drop_last() =~= v.take(i as int));
                        assert(v.take(i + 1).last() == (pairs@[i as int].0@, pairs@[i as int].1@));
                        if i == 0 {
                            assert(v.take(1)[0] == (pairs@[0].0@, pairs@[0].1@));
                        }
                    }
                    i = i + 1;
                }
                assert(view_pairs(pairs@).take(pairs.len() as int) =~= view_pairs(pairs@));
                out.append("]");
            }
        },
        _ => write_datum(out, d),
    }
    assert(out@ =~= start + concat_text(d@));
}

/// The text a value contributes when joined into a string with `&`; see `concat_text`.
pub fn datum_to_string_for_concat(datum: &Datum) -> (s: String)
    ensures
        s@ == concat_text(datum@),
{
    let mut s = String::new();
    write_concat_text(&mut s, datum);
    assert(s@ =~= concat_text(datum@));
    s
}

/// A number written as Director writes it; any other value as `format_spec`
/// shows it. Numbers here are integers, whose text is their decimal form.
pub fn format_numeric_value(datum: &Datum) -> (s: String)
    ensures
        s@ == format_spec(datum@),
{
    match datum {
        Datum::Int(i) => {
            let s = crate::text::int_to_string(*i as i64);
            s
        },
        _ => format_concrete_datum(datum),
    }
}

} // verus!
