//! Lingo's equality and ordering of datums, Director's loose rules included:
//! strings compare without ASCII case, `"2" = 2` holds, and VOID equals 0.
use vstd::prelude::*;
use crate::datum::{ScriptError, ScriptErrorCode, Datum, DatumView, view_items, view_pairs, lemma_view_items, lemma_view_pairs};
use crate::allocator::DatumAllocator;
use crate::datum_ref::DatumRef;
use crate::text::{eq_ignore_ascii_case, lt_ignore_ascii_case, lower_seq, parse_i32, parse_i32_spec, seq_lex_lt};

verus! {

broadcast use {lemma_view_items, lemma_view_pairs};

/// Whether an integer equals another value: an integer of the same value, a
/// string that parses to it, or VOID when it is 0.
pub open spec fn int_equals(i: i32, other: DatumView) -> bool {
    match other {
        DatumView::Int(o) => i == o,
        DatumView::String(s) => parse_i32_spec(s) == Some(i),
        DatumView::Void => i == 0,
        _ => false,
    }
}

/// What VOID and `<Null>` equal: each other, and a member reference that names no member.
pub open spec fn null_equals(other: DatumView) -> bool {
    match other {
        DatumView::Void | DatumView::Null => true,
        DatumView::CastMember(m) => !m.spec_is_valid(),
        _ => false,
    }
}

/// Pairwise equality of two sequences of values of the same length.
pub open spec fn items_equal(a: Seq<DatumView>, b: Seq<DatumView>) -> bool
    decreases a,
{
    if a.len() != b.len() {
        false
    } else if a.len() == 0 {
        true
    } else {
        items_equal(a.drop_last(), b.drop_last()) && datum_equals_spec(a.last(), b.last())
    }
}

/// Pairwise equality of keys and of values of two property lists of the same length.
pub open spec fn pairs_equal(a: Seq<(DatumView, DatumView)>, b: Seq<(DatumView, DatumView)>) -> bool
    decreases a,
{
    if a.len() != b.len() {
        false
    } else if a.len() == 0 {
        true
    } else {
        pairs_equal(a.drop_last(), b.drop_last()) && datum_equals_spec(a.last().0, b.last().0)
            && datum_equals_spec(a.last().1, b.last().1)
    }
}

/// What a linear list equals besides another list: a point with two equal
/// items, or a rect with four.
pub open spec fn list_shape_equals(items: Seq<DatumView>, other: DatumView) -> bool {
    match other {
        DatumView::Point(x, y) => items.len() == 2 && int_equals(x, items[0]) && int_equals(y, items[1]),
        DatumView::Rect(a, b, c, d) => items.len() == 4 && int_equals(a, items[0]) && int_equals(
            b,
            items[1],
        ) && int_equals(c, items[2]) && int_equals(d, items[3]),
        _ => false,
    }
}

/// Lingo's `=` on two values. The first rule that applies decides, in this
/// order: an integer on either side; a string on either side (equal ignoring
/// ASCII case to another string, else unequal); VOID or `<Null>` on either
/// side; a list on either side; two property lists (equal keys and values in
/// order); a symbol on either side (equal ignoring ASCII case to another
/// symbol); otherwise the two values are the same value.
pub open spec fn datum_equals_spec(l: DatumView, r: DatumView) -> bool
    decreases l,
{
    if l is Int {
        int_equals(l->Int_0, r)
    } else if r is Int {
        int_equals(r->Int_0, l)
    } else if l is String {
        r is String && lower_seq(l->String_0) == lower_seq(r->String_0)
    } else if r is String {
        false
    } else if l is Void || l is Null {
        null_equals(r)
    } else if r is Void || r is Null {
        null_equals(l)
    } else if l is List {
        if r is List {
            items_equal(l->List_0, r->List_0)
        } else {
            list_shape_equals(l->List_0, r)
        }
    } else if r is List {
        list_shape_equals(r->List_0, l)
    } else if l is PropList && r is PropList {
        pairs_equal(l->PropList_0, r->PropList_0)
    } else if l is Symbol || r is Symbol {
        l is Symbol && r is Symbol && lower_seq(l->Symbol_0) == lower_seq(r->Symbol_0)
    } else {
        l == r
    }
}

proof fn lemma_items_equal(a: Seq<DatumView>, b: Seq<DatumView>)
    ensures
        items_equal(a, b) <==> (a.len() == b.len() && forall|i: int|
            0 <= i < a.len() ==> datum_equals_spec(#[trigger] a[i], b[i])),
    decreases a.len(),
{
    if a.len() == b.len() && a.len() > 0 {
        lemma_items_equal(a.drop_last(), b.drop_last());
        if (forall|i: int| 0 <= i < a.len() ==> datum_equals_spec(#[trigger] a[i], b[i])) {
            assert forall|i: int| 0 <= i < a.len() - 1 implies datum_equals_spec(
                #[trigger] a.drop_last()[i],
                b.drop_last()[i],
            ) by {
                assert(a.drop_last()[i] == a[i]);
            }
        }
        if items_equal(a, b) {
            assert forall|i: int| 0 <= i < a.len() implies datum_equals_spec(#[trigger] a[i], b[i]) by {
                if i < a.len() - 1 {
                    assert(a.drop_last()[i] == a[i]);
                }
            }
        }
    }
}

/// Lingo's `=` is symmetric: a value equals another exactly when the other
/// equals it.
pub proof fn lemma_equals_symmetric(l: DatumView, r: DatumView)
    ensures
        datum_equals_spec(l, r) == datum_equals_spec(r, l),
    decreases l,
{
    if l is List && r is List {
        let a = l->List_0;
        let b = r->List_0;
        lemma_items_equal(a, b);
        lemma_items_equal(b, a);
        if a.len() == b.len() {
            assert forall|i: int| 0 <= i < a.len() implies datum_equals_spec(#[trigger] a[i], b[i])
                == datum_equals_spec(b[i], a[i]) by {
                lemma_equals_symmetric(a[i], b[i]);
            }
        }
    } else if l is PropList && r is PropList {
        let a = l->PropList_0;
        let b = r->PropList_0;
        lemma_pairs_equal(a, b);
        lemma_pairs_equal(b, a);
        if a.len() == b.len() {
            assert forall|i: int| 0 <= i < a.len() implies (datum_equals_spec((#[trigger] a[i]).0, b[i].0)
                == datum_equals_spec(b[i].0, a[i].0) && datum_equals_spec(a[i].1, b[i].1)
                == datum_equals_spec(b[i].1, a[i].1)) by {
                lemma_equals_symmetric(a[i].0, b[i].0);
                lemma_equals_symmetric(a[i].1, b[i].1);
            }
        }
    }
}

proof fn lemma_pairs_equal(a: Seq<(DatumView, DatumView)>, b: Seq<(DatumView, DatumView)>)
    ensures
        pairs_equal(a, b) <==> (a.len() == b.len() && forall|i: int|
            0 <= i < a.len() ==> datum_equals_spec((#[trigger] a[i]).0, b[i].0) && datum_equals_spec(
                a[i].1,
                b[i].1,
            )),
    decreases a.len(),
{
    if a.len() == b.len() && a.len() > 0 {
        lemma_pairs_equal(a.drop_last(), b.drop_last());
        if (forall|i: int|
            0 <= i < a.len() ==> datum_equals_spec((#[trigger] a[i]).0, b[i].0) && datum_equals_spec(
                a[i].1,
                b[i].1,
            )) {
            assert forall|i: int| 0 <= i < a.len() - 1 implies datum_equals_spec(
                (#[trigger] a.drop_last()[i]).0,
                b.drop_last()[i].0,
            ) && datum_equals_spec(a.drop_last()[i].1, b.drop_last()[i].1) by {
                assert(a.drop_last()[i] == a[i]);
            }
        }
        if pairs_equal(a, b) {
            assert forall|i: int| 0 <= i < a.len() implies datum_equals_spec(
                (#[trigger] a[i]).0,
                b[i].0,
            ) && datum_equals_spec(a[i].1, b[i].1) by {
                if i < a.len() - 1 {
                    assert(a.drop_last()[i] == a[i]);
                }
            }
        }
    }
}

fn int_equals_exec(i: i32, other: &Datum) -> (r: bool)
    ensures
        r == int_equals(i, other@),
{
    match other {
        Datum::Int(o) => i == *o,
        Datum::String(s) => match parse_i32(s.as_str()) {
            Some(n) => n == i,
            None => false,
        },
        Datum::Void => i == 0,
        _ => false,
    }
}

fn null_equals_exec(other: &Datum) -> (r: bool)
    ensures
        r == null_equals(other@),
{
    match other {
        Datum::Void | Datum::Null => true,
        Datum::CastMember(m) => !m.is_valid(),
        _ => false,
    }
}

/// Whether two sequences of datums have the same length and equal items.
pub fn seq_equals(left: &Vec<Datum>, right: &Vec<Datum>) -> (r: bool)
    ensures
        r == items_equal(view_items(left@), view_items(right@)),
    decreases left,
{
    proof {
        lemma_items_equal(view_items(left@), view_items(right@));
    }
    if left.len() != right.len() {
        return false;
    }
    let mut i: usize = 0;
    while i < left.len()
        invariant
            left.len() == right.len(),
            i <= left.len(),
            forall|j: int| 0 <= j < i ==> datum_equals_spec(#[trigger] left@[j]@, right@[j]@),
        decreases left.len() - i,
    {
        proof {
            assert(decreases_to!(*left => left[i as int]));
        }
        if !datum_equals(&left[i], &right[i]) {
            proof {
                assert(view_items(left@)[i as int] == left@[i as int]@);
                assert(view_items(right@)[i as int] == right@[i as int]@);
                lemma_items_equal(view_items(left@), view_items(right@));
            }
            return false;
        }
        i = i + 1;
    }
    proof {
        assert forall|j: int| 0 <= j < left@.len() implies datum_equals_spec(
            #[trigger] view_items(left@)[j],
            view_items(right@)[j],
        ) by {
            assert(view_items(left@)[j] == left@[j]@);
            assert(view_items(right@)[j] == right@[j]@);
        }
    }
    true
}

fn pairs_equal_exec(left: &Vec<(Datum, Datum)>, right: &Vec<(Datum, Datum)>) -> (r: bool)
    ensures
        r == pairs_equal(view_pairs(left@), view_pairs(right@)),
    decreases left,
{
    proof {
        lemma_pairs_equal(view_pairs(left@), view_pairs(right@));
    }
    if left.len() != right.len() {
        return false;
    }
    let mut i: usize = 0;
    while i < left.len()
        invariant
            left.len() == right.len(),
            i <= left.len(),
            forall|j: int|
                0 <= j < i ==> datum_equals_spec((#[trigger] left@[j]).0@, right@[j].0@)
                    && datum_equals_spec(left@[j].1@, right@[j].1@),
        decreases left.len() - i,
    {
        proof {
            assert(decreases_to!(*left => left[i as int]));
            assert(decreases_to!(left[i as int] => left[i as int].0));
            assert(decreases_to!(left[i as int] => left[i as int].1));
        }
        if !datum_equals(&left[i].0, &right[i].0) {
            proof {
                assert(view_pairs(left@)[i as int].0 == left@[i as int].0@);
                assert(view_pairs(right@)[i as int].0 == right@[i as int].0@);
                lemma_pairs_equal(view_pairs(left@), view_pairs(right@));
            }
            return false;
        }
        if !datum_equals(&left[i].1, &right[i].1) {
            proof {
                assert(view_pairs(left@)[i as int].1 == left@[i as int].1@);
                assert(view_pairs(right@)[i as int].1 == right@[i as int].1@);
                lemma_pairs_equal(view_pairs(left@), view_pairs(right@));
            }
            return false;
        }
        i = i + 1;
    }
    proof {
        assert forall|j: int| 0 <= j < left@.len() implies datum_equals_spec(
            (#[trigger] view_pairs(left@)[j]).0,
            view_pairs(right@)[j].0,
        ) && datum_equals_spec(view_pairs(left@)[j].1, view_pairs(right@)[j].1) by {
            assert(view_pairs(left@)[j].0 == left@[j].0@);
            assert(view_pairs(right@)[j].0 == right@[j].0@);
            assert(view_pairs(left@)[j].1 == left@[j].1@);
            assert(view_pairs(right@)[j].1 == right@[j].1@);
        }
    }
    true
}

fn list_vs_shape(items: &Vec<Datum>, other: &Datum) -> (r: bool)
    requires
        !(other@ is List),
    ensures
        r == list_shape_equals(view_items(items@), other@),
{
    match other {
        Datum::Point(x, y) => items.len() == 2 && int_equals_exec(*x, &items[0]) && int_equals_exec(
            *y,
            &items[1],
        ),
        Datum::Rect(a, b, c, d) => items.len() == 4 && int_equals_exec(*a, &items[0])
            && int_equals_exec(*b, &items[1]) && int_equals_exec(*c, &items[2]) && int_equals_exec(
            *d,
            &items[3],
        ),
        _ => false,
    }
}

/// Structural equality of two values none of whose rules above apply.
fn same_value(left: &Datum, right: &Datum) -> (r: bool)
    requires
        !(left@ is List || left@ is PropList),
    ensures
        r == (left@ == right@),
{
    match (left, right) {
        (Datum::Void, Datum::Void) => true,
        (Datum::Null, Datum::Null) => true,
        (Datum::Int(a), Datum::Int(b)) => *a == *b,
        (Datum::String(a), Datum::String(b)) => *a == *b,
        (Datum::Symbol(a), Datum::Symbol(b)) => *a == *b,
        (Datum::Point(a, b), Datum::Point(c, d)) => *a == *c && *b == *d,
        (Datum::Rect(a, b, c, d), Datum::Rect(e, f, g, h)) => *a == *e && *b == *f && *c == *g && *d
            == *h,
        (Datum::ColorRef(a), Datum::ColorRef(b)) => *a == *b,
        (Datum::CastLib(a), Datum::CastLib(b)) => *a == *b,
        (Datum::Stage, Datum::Stage) => true,
        (Datum::CastMember(a), Datum::CastMember(b)) => *a == *b,
        (Datum::SpriteRef(a), Datum::SpriteRef(b)) => *a == *b,
        (Datum::PlayerRef, Datum::PlayerRef) => true,
        (Datum::MovieRef, Datum::MovieRef) => true,
        (Datum::TimeoutRef(a), Datum::TimeoutRef(b)) => *a == *b,
        (Datum::TimeoutFactory, Datum::TimeoutFactory) => true,
        (Datum::XmlRef(a), Datum::XmlRef(b)) => *a == *b,
        (Datum::Xtra(a), Datum::Xtra(b)) => *a == *b,
        (Datum::XtraInstance(a, n), Datum::XtraInstance(b, m)) => *a == *b && *n == *m,
        _ => false,
    }
}

/// Lingo's `=`: see `datum_equals_spec` for the rules.
pub fn datum_equals(left: &Datum, right: &Datum) -> (r: bool)
    ensures
        r == datum_equals_spec(left@, right@),
    decreases left,
{
    if let Datum::Int(i) = left {
        return int_equals_exec(*i, right);
    }
    if let Datum::Int(i) = right {
        return int_equals_exec(*i, left);
    }
    if let Datum::String(a) = left {
        return match right {
            Datum::String(b) => eq_ignore_ascii_case(a.as_str(), b.as_str()),
            _ => false,
        };
    }
    if let Datum::String(_) = right {
        return false;
    }
    if let Datum::Void | Datum::Null = left {
        return null_equals_exec(right);
    }
    if let Datum::Void | Datum::Null = right {
        return null_equals_exec(left);
    }
    if let Datum::List(items) = left {
        proof {
            assert(decreases_to!(*left => left->List_0));
        }
        return match right {
            Datum::List(o) => seq_equals(items, o),
            _ => list_vs_shape(items, right),
        };
    }
    if let Datum::List(items) = right {
        return list_vs_shape(items, left);
    }
    if let (Datum::PropList(a), Datum::PropList(b)) = (left, right) {
        proof {
            assert(decreases_to!(*left => left->PropList_0));
        }
        return pairs_equal_exec(a, b);
    }
    if let Datum::Symbol(a) = left {
        return match right {
            Datum::Symbol(b) => eq_ignore_ascii_case(a.as_str(), b.as_str()),
            _ => false,
        };
    }
    if let Datum::Symbol(_) = right {
        return false;
    }
    if let Datum::PropList(_) = left {
        return false;
    }
    same_value(left, right)
}

/// The text of a string or symbol.
pub open spec fn text_of(d: DatumView) -> Option<Seq<char>> {
    match d {
        DatumView::String(s) => Some(s),
        DatumView::Symbol(s) => Some(s),
        _ => None,
    }
}

/// The integer a string parses to, 0 when it does not parse.
pub open spec fn parsed_or_zero(s: Seq<char>) -> int {
    match parse_i32_spec(s) {
        Some(n) => n as int,
        None => 0,
    }
}

/// Lingo's `<`. Integers compare by value, VOID sorting below every integer
/// and standing for 0 on the right; an integer against a string compares with
/// the string's value when it parses, and otherwise is smaller exactly when the
/// string is not empty; a string against an integer uses the string's value
/// (0 when it does not parse); points compare on both coordinates; strings and
/// symbols compare by text ignoring ASCII case; two property lists compare by
/// their first values; every other pair is not ordered.
pub open spec fn datum_less_than_spec(l: DatumView, r: DatumView) -> bool
    decreases l,
{
    match (l, r) {
        (DatumView::Int(a), DatumView::Int(b)) => a < b,
        (DatumView::Int(a), DatumView::Void) => a < 0,
        (DatumView::Int(a), DatumView::String(s)) => match parse_i32_spec(s) {
            Some(n) => a < n,
            None => s.len() > 0,
        },
        (DatumView::Void, DatumView::Int(_)) => true,
        (DatumView::Point(lx, ly), DatumView::Point(rx, ry)) => lx < rx && ly < ry,
        (DatumView::String(s), DatumView::Int(b)) => parsed_or_zero(s) < b,
        (DatumView::PropList(a), DatumView::PropList(b)) => if a.len() > 0 && b.len() > 0 {
            datum_less_than_spec(a[0].1, b[0].1)
        } else {
            false
        },
        _ => match (text_of(l), text_of(r)) {
            (Some(a), Some(b)) => seq_lex_lt(lower_seq(a), lower_seq(b)),
            _ => false,
        },
    }
}

/// Lingo's `>`. Integers compare by value, VOID standing for 0 on the right
/// and never exceeding an integer on the left; an integer against a string
/// compares with the string's value when it parses, and otherwise is greater
/// exactly when the string is empty; a string against an integer uses the
/// string's value (0 when it does not parse); points compare on both
/// coordinates; every other pair is not ordered.
pub open spec fn datum_greater_than_spec(l: DatumView, r: DatumView) -> bool {
    match (l, r) {
        (DatumView::Int(a), DatumView::Int(b)) => a > b,
        (DatumView::Int(a), DatumView::Void) => a > 0,
        (DatumView::Int(a), DatumView::String(s)) => match parse_i32_spec(s) {
            Some(n) => a > n,
            None => s.len() == 0,
        },
        (DatumView::String(s), DatumView::Int(b)) => parsed_or_zero(s) > b,
        (DatumView::Point(lx, ly), DatumView::Point(rx, ry)) => lx > rx && ly > ry,
        _ => false,
    }
}

fn parsed_or_zero_exec(s: &String) -> (n: i32)
    ensures
        n as int == parsed_or_zero(s@),
{
    match parse_i32(s.as_str()) {
        Some(n) => n,
        None => 0,
    }
}

/// Lingo's `<` on two datums; see `datum_less_than_spec`.
pub fn datum_less_than(left: &Datum, right: &Datum) -> (r: bool)
    ensures
        r == datum_less_than_spec(left@, right@),
    decreases left,
{
    match (left, right) {
        (Datum::Int(a), Datum::Int(b)) => *a < *b,
        (Datum::Int(a), Datum::Void) => *a < 0,
        (Datum::Int(a), Datum::String(s)) => match parse_i32(s.as_str()) {
            Some(n) => *a < n,
            None => !s.as_str().is_empty(),
        },
        (Datum::Void, Datum::Int(_)) => true,
        (Datum::Point(lx, ly), Datum::Point(rx, ry)) => *lx < *rx && *ly < *ry,
        (Datum::String(s), Datum::Int(b)) => parsed_or_zero_exec(s) < *b,
        (Datum::String(a), Datum::String(b)) => lt_ignore_ascii_case(a.as_str(), b.as_str()),
        (Datum::Symbol(a), Datum::Symbol(b)) => lt_ignore_ascii_case(a.as_str(), b.as_str()),
        (Datum::String(a), Datum::Symbol(b)) => lt_ignore_ascii_case(a.as_str(), b.as_str()),
        (Datum::Symbol(a), Datum::String(b)) => lt_ignore_ascii_case(a.as_str(), b.as_str()),
        (Datum::PropList(a), Datum::PropList(b)) => {
            if a.len() > 0 && b.len() > 0 {
                proof {
                    assert(decreases_to!(*left => left->PropList_0));
                    assert(decreases_to!(left->PropList_0 => left->PropList_0[0]));
                    assert(decreases_to!(left->PropList_0[0] => left->PropList_0[0].1));
                    assert(view_pairs(a@)[0] == (a@[0].0@, a@[0].1@));
                    assert(view_pairs(b@)[0] == (b@[0].0@, b@[0].1@));
                }
                datum_less_than(&a[0].1, &b[0].1)
            } else {
                false
            }
        },
        _ => false,
    }
}

/// Lingo's `>` on two datums; see `datum_greater_than_spec`.
pub fn datum_greater_than(left: &Datum, right: &Datum) -> (r: bool)
    ensures
        r == datum_greater_than_spec(left@, right@),
{
    match (left, right) {
        (Datum::Int(a), Datum::Int(b)) => *a > *b,
        (Datum::Int(a), Datum::Void) => *a > 0,
        (Datum::Int(a), Datum::String(s)) => match parse_i32(s.as_str()) {
            Some(n) => *a > n,
            None => s.as_str().is_empty(),
        },
        (Datum::String(s), Datum::Int(b)) => parsed_or_zero_exec(s) > *b,
        (Datum::Point(lx, ly), Datum::Point(rx, ry)) => *lx > *rx && *ly > *ry,
        _ => false,
    }
}

/// Whether a value counts as zero (false) in a condition: the integer 0, VOID,
/// `<Null>`, and a point or rect whose coordinates are all 0. `None` where the
/// value has no integer reading, which is an error.
pub open spec fn datum_is_zero_spec(d: DatumView) -> Option<bool> {
    match d {
        DatumView::Int(v) => Some(v == 0),
        DatumView::Void => Some(true),
        DatumView::Null => Some(true),
        DatumView::Point(x, y) => Some(x == 0 && y == 0),
        DatumView::Rect(a, b, c, e) => Some(a == 0 && b == 0 && c == 0 && e == 0),
        _ => None,
    }
}

/// Whether a value counts as zero in a condition; an error for a value with no
/// integer reading.
pub fn datum_is_zero(datum: &Datum) -> (r: Result<bool, ScriptError>)
    ensures
        match r {
            Ok(b) => datum_is_zero_spec(datum@) == Some(b),
            Err(e) => datum_is_zero_spec(datum@) is None && e.code == ScriptErrorCode::Generic && e.message@
                == "datum has no integer value"@,
        },
{
    match datum {
        Datum::Int(v) => Ok(*v == 0),
        Datum::Void => Ok(true),
        Datum::Null => Ok(true),
        Datum::Point(x, y) => Ok(*x == 0 && *y == 0),
        Datum::Rect(a, b, c, e) => Ok(*a == 0 && *b == 0 && *c == 0 && *e == 0),
        _ => Err(ScriptError::new(String::from_str("datum has no integer value"))),
    }
}


/// VOID is below every integer and above none.
pub proof fn lemma_void_below_numbers(n: i32)
    ensures
        datum_less_than_spec(DatumView::Void, DatumView::Int(n)),
        !datum_greater_than_spec(DatumView::Void, DatumView::Int(n)),
{
}

/// A point equals the two-item list of its coordinates, and a rect the
/// four-item list of its sides, whichever side of `=` each is on.
pub proof fn lemma_lists_stand_for_points_and_rects(x: i32, y: i32, a: i32, b: i32, c: i32, d: i32)
    ensures
        datum_equals_spec(DatumView::Point(x, y), DatumView::List(seq![DatumView::Int(x), DatumView::Int(y)])),
        datum_equals_spec(DatumView::List(seq![DatumView::Int(x), DatumView::Int(y)]), DatumView::Point(x, y)),
        datum_equals_spec(
            DatumView::Rect(a, b, c, d),
            DatumView::List(seq![DatumView::Int(a), DatumView::Int(b), DatumView::Int(c), DatumView::Int(d)]),
        ),
{
}

/// Strings compare equal ignoring ASCII case.
pub proof fn lemma_strings_ignore_case(a: Seq<char>, b: Seq<char>)
    ensures
        datum_equals_spec(DatumView::String(a), DatumView::String(b)) == (lower_seq(a) == lower_seq(b)),
{
}

/// Where one value goes relative to another when a list is sorted.
pub enum Precedence {
    Before,
    Same,
    After,
}

/// The sort order: equal values are the same, else `<` puts a value before.
pub open spec fn datum_precedence(a: DatumView, b: DatumView) -> Precedence {
    if datum_equals_spec(a, b) {
        Precedence::Same
    } else if datum_less_than_spec(a, b) {
        Precedence::Before
    } else {
        Precedence::After
    }
}

pub open spec fn not_after(a: DatumView, b: DatumView) -> bool {
    !(datum_precedence(a, b) is After)
}

/// The sort order is a total order on these values, as a sort requires:
/// it answers each pair consistently both ways round, and is transitive.
pub open spec fn is_total_order_on(vals: Seq<DatumView>) -> bool {
    &&& forall|i: int, j: int|
        0 <= i < vals.len() && 0 <= j < vals.len() ==> ((datum_precedence(vals[i], vals[j]) is Before)
            <==> (datum_precedence(vals[j], vals[i]) is After))
    &&& forall|i: int, j: int|
        0 <= i < vals.len() && 0 <= j < vals.len() ==> ((datum_precedence(vals[i], vals[j]) is Same)
            <==> (datum_precedence(vals[j], vals[i]) is Same))
    &&& forall|i: int, j: int, k: int|
        #![trigger not_after(vals[i], vals[j]), not_after(vals[j], vals[k])]
        0 <= i < vals.len() && 0 <= j < vals.len() && 0 <= k < vals.len() && not_after(vals[i], vals[j])
            && not_after(vals[j], vals[k]) ==> not_after(vals[i], vals[k])
}

/// `perm` lists each index below `n` once.
pub open spec fn is_arrangement(perm: Seq<int>, n: nat) -> bool {
    &&& perm.len() == n
    &&& forall|i: int| 0 <= i < perm.len() ==> 0 <= #[trigger] perm[i] < n
    &&& forall|i: int, j: int| 0 <= i < j < perm.len() ==> perm[i] != perm[j]
}

/// `out` is `items` rearranged by `perm` into the sort order of `vals` (the
/// values of `items`), with equal values left in their first order.
pub open spec fn is_stable_sort_by(
    items: Seq<DatumRef>,
    vals: Seq<DatumView>,
    out: Seq<DatumRef>,
    perm: Seq<int>,
) -> bool {
    &&& is_arrangement(perm, items.len())
    &&& out.len() == items.len()
    &&& forall|i: int| 0 <= i < out.len() ==> out[i] == items[#[trigger] perm[i]]
    &&& forall|i: int, j: int|
        0 <= i < j < perm.len() ==> not_after(vals[#[trigger] perm[i]], vals[#[trigger] perm[j]])
    &&& forall|i: int, j: int|
        0 <= i < j < perm.len() && datum_precedence(vals[#[trigger] perm[i]], vals[#[trigger] perm[j]])
            is Same ==> perm[i] < perm[j]
}

/// The values the references name.
pub open spec fn values_of(allocator: &DatumAllocator, items: Seq<DatumRef>) -> Seq<DatumView> {
    Seq::new(items.len(), |i: int| allocator.value_of(items[i]))
}

/// `order` holds each index below `k` once, sorted by `vals` and stable.
pub open spec fn insertion_sorted(vals: Seq<DatumView>, order: Seq<usize>, k: nat) -> bool {
    &&& order.len() == k
    &&& forall|i: int| 0 <= i < order.len() ==> #[trigger] order[i] < k
    &&& forall|i: int, j: int| 0 <= i < j < order.len() ==> order[i] != order[j]
    &&& forall|i: int, j: int|
        0 <= i < j < order.len() ==> not_after(vals[#[trigger] order[i] as int], vals[#[trigger] order[j] as int])
    &&& forall|i: int, j: int|
        0 <= i < j < order.len() && datum_precedence(vals[#[trigger] order[i] as int], vals[#[trigger] order[j] as int]) is Same
            ==> order[i] < order[j]
}

/// The facts about an insertion point `j` for index `k` that the insertion
/// steps rely on.
pub open spec fn insertion_point(vals: Seq<DatumView>, order: Seq<usize>, j: int, k: usize) -> bool {
    &&& k < vals.len()
    &&& is_total_order_on(vals)
    &&& insertion_sorted(vals, order, k as nat)
    &&& 0 <= j <= order.len()
    &&& (j > 0 ==> !(datum_precedence(vals[k as int], vals[order[j - 1] as int]) is Before))
    &&& forall|m: int| j <= m < order.len() ==> datum_precedence(vals[k as int], vals[#[trigger] order[m] as int]) is Before
}

proof fn lemma_insert_keeps_order(vals: Seq<DatumView>, order: Seq<usize>, j: int, k: usize)
    requires
        insertion_point(vals, order, j, k),
    ensures
        forall|p: int, q: int|
            0 <= p < q < order.insert(j, k).len() ==> not_after(
                vals[#[trigger] order.insert(j, k)[p] as int],
                vals[#[trigger] order.insert(j, k)[q] as int],
            ),
{
    let x = vals[k as int];
    let nw = order.insert(j, k);
    if j > 0 {
        assert(not_after(vals[order[j - 1] as int], x));
    }
    assert forall|p: int, q: int| 0 <= p < q < nw.len() implies not_after(vals[#[trigger] nw[p] as int], vals[#[trigger] nw[q] as int]) by {
        if q == j {
            if p < j - 1 {
                assert(nw[p] == order[p]);
                assert(not_after(vals[order[p] as int], vals[order[j - 1] as int]));
            }
        } else if p == j {
            assert(nw[q] == order[q - 1]);
            assert(datum_precedence(x, vals[order[q - 1] as int]) is Before);
        } else {
            let op = if p < j { p } else { p - 1 };
            let oq = if q < j { q } else { q - 1 };
            assert(nw[p] == order[op]);
            assert(nw[q] == order[oq]);
            assert(not_after(vals[order[op] as int], vals[order[oq] as int]));
        }
    }
}

proof fn lemma_insert_keeps_stability(vals: Seq<DatumView>, order: Seq<usize>, j: int, k: usize)
    requires
        insertion_point(vals, order, j, k),
    ensures
        forall|p: int, q: int|
            0 <= p < q < order.insert(j, k).len() && datum_precedence(
                vals[#[trigger] order.insert(j, k)[p] as int],
                vals[#[trigger] order.insert(j, k)[q] as int],
            ) is Same ==> order.insert(j, k)[p] < order.insert(j, k)[q],
{
    let x = vals[k as int];
    let nw = order.insert(j, k);
    assert forall|p: int, q: int| 0 <= p < q < nw.len() && datum_precedence(vals[#[trigger] nw[p] as int], vals[#[trigger] nw[q] as int]) is Same implies nw[p] < nw[q] by {
        if q == j {
            assert(nw[p] == order[p]);
        } else if p == j {
            assert(nw[q] == order[q - 1]);
            assert(datum_precedence(x, vals[order[q - 1] as int]) is Before);
        } else {
            let op = if p < j { p } else { p - 1 };
            let oq = if q < j { q } else { q - 1 };
            assert(nw[p] == order[op]);
            assert(nw[q] == order[oq]);
        }
    }
}

proof fn lemma_insert_keeps_indices(vals: Seq<DatumView>, order: Seq<usize>, j: int, k: usize)
    requires
        insertion_point(vals, order, j, k),
    ensures
        forall|p: int, q: int| 0 <= p < q < order.insert(j, k).len() ==> order.insert(j, k)[p] != order.insert(j, k)[q],
        forall|p: int| 0 <= p < order.insert(j, k).len() ==> #[trigger] order.insert(j, k)[p] < k + 1,
{
    let nw = order.insert(j, k);
    assert forall|p: int, q: int| 0 <= p < q < nw.len() implies nw[p] != nw[q] by {
        if q == j {
            assert(nw[p] == order[p]);
        } else if p == j {
            assert(nw[q] == order[q - 1]);
        } else {
            let op = if p < j { p } else { p - 1 };
            let oq = if q < j { q } else { q - 1 };
            assert(nw[p] == order[op]);
            assert(nw[q] == order[oq]);
        }
    }
    assert forall|p: int| 0 <= p < nw.len() implies #[trigger] nw[p] < k + 1 by {
        if p < j {
            assert(nw[p] == order[p]);
        } else if p > j {
            assert(nw[p] == order[p - 1]);
        }
    }
}

/// Inserting index `k` after the last value it does not go before keeps the
/// order sorted and stable.
proof fn lemma_insertion_step(vals: Seq<DatumView>, order: Seq<usize>, j: int, k: usize)
    requires
        k < vals.len(),
        is_total_order_on(vals),
        insertion_sorted(vals, order, k as nat),
        0 <= j <= order.len(),
        j > 0 ==> !(datum_precedence(vals[k as int], vals[order[j - 1] as int]) is Before),
        forall|m: int| j <= m < order.len() ==> datum_precedence(vals[k as int], vals[#[trigger] order[m] as int]) is Before,
    ensures
        insertion_sorted(vals, order.insert(j, k), (k + 1) as nat),
{
    assert(insertion_point(vals, order, j, k));
    lemma_insert_keeps_order(vals, order, j, k);
    lemma_insert_keeps_stability(vals, order, j, k);
    lemma_insert_keeps_indices(vals, order, j, k);
}

fn precedes(a: &Datum, b: &Datum) -> (r: bool)
    ensures
        r == (datum_precedence(a@, b@) is Before),
{
    if datum_equals(a, b) {
        false
    } else {
        datum_less_than(a, b)
    }
}

/// The references sorted by the values they name, equal values kept in
/// their order (a stable insertion sort).
pub fn sort_datums(datums: &Vec<DatumRef>, allocator: &DatumAllocator) -> (r: Result<
    Vec<DatumRef>,
    ScriptError,
>)
    requires
        allocator.wf(),
        forall|i: int| 0 <= i < datums.len() ==> allocator.holds(#[trigger] datums@[i]),
        is_total_order_on(values_of(allocator, datums@)),
    ensures
        r is Ok,
        exists|perm: Seq<int>| #[trigger]
            is_stable_sort_by(datums@, values_of(allocator, datums@), r.unwrap()@, perm),
{
    let ghost vals = values_of(allocator, datums@);
    let n = datums.len();
    let mut values: Vec<Datum> = Vec::new();
    let mut k: usize = 0;
    while k < n
        invariant
            k <= n == datums.len(),
            allocator.wf(),
            forall|i: int| 0 <= i < datums.len() ==> allocator.holds(#[trigger] datums@[i]),
            vals == values_of(allocator, datums@),
            values.len() == k,
            forall|i: int| 0 <= i < k ==> (#[trigger] values@[i])@ == vals[i],
        decreases n - k,
    {
        values.push(allocator.get_datum(&datums[k]));
        k = k + 1;
    }
    let mut order: Vec<usize> = Vec::new();
    k = 0;
    while k < n
        invariant
            k <= n == datums.len() == values.len(),
            forall|i: int| 0 <= i < n ==> (#[trigger] values@[i])@ == vals[i],
            vals.len() == n,
            is_total_order_on(vals),
            order.len() == k,
            insertion_sorted(vals, order@, k as nat),
        decreases n - k,
    {
        let mut j = order.len();
        while j > 0 && precedes(&values[k], &values[order[j - 1]])
            invariant
                j <= order.len() == k < n == values.len(),
                forall|i: int| 0 <= i < n ==> (#[trigger] values@[i])@ == vals[i],
                vals.len() == n,
                insertion_sorted(vals, order@, k as nat),
                forall|m: int| j <= m < order.len() ==> datum_precedence(vals[k as int], vals[#[trigger] order@[m] as int]) is Before,
            decreases j,
        {
            j = j - 1;
        }
        proof {
            lemma_insertion_step(vals, order@, j as int, k);
        }
        order.insert(j, k);
        k = k + 1;
    }
    let mut out: Vec<DatumRef> = Vec::new();
    let mut m: usize = 0;
    while m < n
        invariant
            m <= n == datums.len() == order.len(),
            out.len() == m,
            forall|i: int| 0 <= i < n ==> #[trigger] order@[i] < n,
            forall|i: int| 0 <= i < m ==> out@[i] == datums@[#[trigger] order@[i] as int],
        decreases n - m,
    {
        out.push(datums[order[m]]);
        m = m + 1;
    }
    let ghost perm = Seq::new(n as nat, |i: int| order@[i] as int);
    assert(is_arrangement(perm, datums@.len()));
    assert(forall|i: int| 0 <= i < out@.len() ==> out@[i] == datums@[#[trigger] perm[i]]);
    assert(is_stable_sort_by(datums@, vals, out@, perm));
    let r: Result<Vec<DatumRef>, ScriptError> = Ok(out);
    assert(r.unwrap()@ == out@);
    r
}

/// Integers and points are ordered as numbers: integers by value; a point
/// is below (above) another exactly when both its coordinates are below
/// (above) the other's; two integers or two points are equal exactly when
/// they are the same. `>` is the converse of `<` on them.
pub proof fn lemma_numbers_order_by_value(a: i32, b: i32, lx: i32, ly: i32, rx: i32, ry: i32)
    ensures
        datum_less_than_spec(DatumView::Int(a), DatumView::Int(b)) == (a < b),
        datum_greater_than_spec(DatumView::Int(a), DatumView::Int(b)) == (a > b),
        datum_equals_spec(DatumView::Int(a), DatumView::Int(b)) == (a == b),
        datum_less_than_spec(DatumView::Point(lx, ly), DatumView::Point(rx, ry)) == (lx < rx && ly < ry),
        datum_greater_than_spec(DatumView::Point(lx, ly), DatumView::Point(rx, ry)) == (lx > rx && ly > ry),
        datum_equals_spec(DatumView::Point(lx, ly), DatumView::Point(rx, ry)) == (lx == rx && ly == ry),
        datum_greater_than_spec(DatumView::Int(a), DatumView::Int(b)) == datum_less_than_spec(
            DatumView::Int(b),
            DatumView::Int(a),
        ),
        datum_greater_than_spec(DatumView::Point(lx, ly), DatumView::Point(rx, ry)) == datum_less_than_spec(
            DatumView::Point(rx, ry),
            DatumView::Point(lx, ly),
        ),
{
}

/// VOID stands for 0 against an integer: an integer is above VOID exactly
/// when positive, below it exactly when negative, and equal to it exactly
/// when 0; VOID on the left is below every integer and above none.
pub proof fn lemma_void_is_zero_against_integers(a: i32)
    ensures
        datum_greater_than_spec(DatumView::Int(a), DatumView::Void) == (a > 0),
        datum_less_than_spec(DatumView::Int(a), DatumView::Void) == (a < 0),
        datum_equals_spec(DatumView::Int(a), DatumView::Void) == (a == 0),
        datum_equals_spec(DatumView::Void, DatumView::Int(a)) == (a == 0),
        datum_less_than_spec(DatumView::Void, DatumView::Int(a)),
        !datum_greater_than_spec(DatumView::Void, DatumView::Int(a)),
{
}

} // verus!
