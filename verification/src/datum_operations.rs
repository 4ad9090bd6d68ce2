//! Lingo arithmetic on datums: `+`, `-`, `*`, `/` and `&`.
//!
//! Integers wrap at 32 bits, as the release build of the player does. A
//! result that is a floating-point value in Director (a string read as a
//! number, for instance) is reported as `ScriptErrorCode::Unrepresentable`;
//! so is a point or rect component that leaves the 32-bit range.
use vstd::prelude::*;
use vstd::string::*;
use crate::datum::{ColorRef, Datum, DatumView, ScriptError, ScriptErrorCode, view_items, view_pairs, lemma_view_items, lemma_view_pairs, lemma_view_items_push, lemma_view_pairs_push};
use crate::datum_formatting::{concat_items, concat_text, write_concat_items, write_concat_text, datum_to_string_for_concat};
use crate::allocator::DatumAllocator;
use crate::datum_ref::DatumRef;
use crate::text::{is_float_text, reads_as_float};

verus! {

broadcast use {lemma_view_items, lemma_view_pairs, lemma_view_items_push, lemma_view_pairs_push};

/// What an operation yields: a value, an ordinary script error, a result the
/// integer model cannot hold, or an input on which the operation panics.
pub enum Outcome<T> {
    Value(T),
    Invalid,
    Unrepresentable,
    Panics,
}

/// The message of the error for operands arithmetic does not take.
pub open spec fn invalid_operands_message() -> Seq<char> {
    "Invalid operands for arithmetic"@
}

/// The message of the error for a result the integer model cannot hold.
pub open spec fn unrepresentable_message() -> Seq<char> {
    "result is not an integer value"@
}

/// Whether an executable result is the one an outcome describes.
pub open spec fn outcome_matches(o: Outcome<DatumView>, r: Result<Datum, ScriptError>) -> bool {
    match r {
        Ok(d) => o == Outcome::Value(d@),
        Err(e) => error_matches(o, e),
    }
}

/// Whether an executable error is the one a failed outcome describes: for
/// invalid operands a general error, for an unrepresentable result that
/// kind, each with its message.
pub open spec fn error_matches<T>(o: Outcome<T>, e: ScriptError) -> bool {
    (o is Invalid && e.code == ScriptErrorCode::Generic && e.message@ == invalid_operands_message()) || (
    o is Unrepresentable && e.code == ScriptErrorCode::Unrepresentable && e.message@
        == unrepresentable_message())
}

/// The four arithmetic operators, and the per-item step of `list * n`.
#[derive(Clone, Copy)]
pub enum ArithOp {
    Add,
    Sub,
    Mul,
    Div,
    MulItem,
}

pub open spec fn op_rank(op: ArithOp) -> nat {
    if op is MulItem {
        1
    } else {
        0
    }
}

/// The size of a value: one for itself and one for each nested value.
pub open spec fn datum_size(d: DatumView) -> nat
    decreases d,
{
    match d {
        DatumView::List(items) => 1 + items_size(items),
        DatumView::PropList(pairs) => 1 + pairs_size(pairs),
        _ => 1,
    }
}

pub open spec fn items_size(items: Seq<DatumView>) -> nat
    decreases items,
{
    if items.len() == 0 {
        0
    } else {
        items_size(items.drop_last()) + datum_size(items.last())
    }
}

pub open spec fn pairs_size(pairs: Seq<(DatumView, DatumView)>) -> nat
    decreases pairs,
{
    if pairs.len() == 0 {
        0
    } else {
        pairs_size(pairs.drop_last()) + datum_size(pairs.last().0) + datum_size(pairs.last().1)
    }
}

pub proof fn lemma_items_size_take(items: Seq<DatumView>, n: int)
    requires
        0 <= n <= items.len(),
    ensures
        items_size(items.take(n)) <= items_size(items),
    decreases items.len(),
{
    if n < items.len() {
        assert(items.drop_last().take(n) =~= items.take(n));
        lemma_items_size_take(items.drop_last(), n);
    } else {
        assert(items.take(n) =~= items);
    }
}

pub proof fn lemma_pairs_size_take(pairs: Seq<(DatumView, DatumView)>, n: int)
    requires
        0 <= n <= pairs.len(),
    ensures
        pairs_size(pairs.take(n)) <= pairs_size(pairs),
    decreases pairs.len(),
{
    if n < pairs.len() {
        assert(pairs.drop_last().take(n) =~= pairs.take(n));
        lemma_pairs_size_take(pairs.drop_last(), n);
    } else {
        assert(pairs.take(n) =~= pairs);
    }
}

proof fn lemma_item_size(items: Seq<DatumView>, i: int)
    requires
        0 <= i < items.len(),
    ensures
        datum_size(items[i]) <= items_size(items),
    decreases items.len(),
{
    if i < items.len() - 1 {
        lemma_item_size(items.drop_last(), i);
        assert(items.drop_last()[i] == items[i]);
    }
}

proof fn lemma_pair_size(pairs: Seq<(DatumView, DatumView)>, i: int)
    requires
        0 <= i < pairs.len(),
    ensures
        datum_size(pairs[i].0) + datum_size(pairs[i].1) <= pairs_size(pairs),
    decreases pairs.len(),
{
    if i < pairs.len() - 1 {
        lemma_pair_size(pairs.drop_last(), i);
        assert(pairs.drop_last()[i] == pairs[i]);
    }
}

/// A symbol takes part in arithmetic as the string of its name.
pub open spec fn as_text_operand(d: DatumView) -> DatumView {
    match d {
        DatumView::Symbol(s) => DatumView::String(s),
        _ => d,
    }
}

pub open spec fn fits_i32(v: int) -> bool {
    i32::MIN <= v <= i32::MAX
}

/// A point with the given integer components.
pub open spec fn point_outcome(x: int, y: int) -> Outcome<DatumView> {
    if fits_i32(x) && fits_i32(y) {
        Outcome::Value(DatumView::Point(x as i32, y as i32))
    } else {
        Outcome::Unrepresentable
    }
}

/// A rect with the given integer components.
pub open spec fn rect_outcome(a: int, b: int, c: int, d: int) -> Outcome<DatumView> {
    if fits_i32(a) && fits_i32(b) && fits_i32(c) && fits_i32(d) {
        Outcome::Value(DatumView::Rect(a as i32, b as i32, c as i32, d as i32))
    } else {
        Outcome::Unrepresentable
    }
}

/// The components of a two-item list of integers, read as a point.
pub open spec fn list_point(items: Seq<DatumView>) -> Option<(i32, i32)> {
    if items.len() == 2 && items[0] is Int && items[1] is Int {
        Some((items[0]->Int_0, items[1]->Int_0))
    } else {
        None
    }
}

/// The components of a four-item list of integers, read as a rect.
pub open spec fn list_rect(items: Seq<DatumView>) -> Option<(i32, i32, i32, i32)> {
    if items.len() == 4 && items[0] is Int && items[1] is Int && items[2] is Int && items[3] is Int {
        Some((items[0]->Int_0, items[1]->Int_0, items[2]->Int_0, items[3]->Int_0))
    } else {
        None
    }
}

/// A list value built from an outcome for its items.
pub open spec fn list_of(o: Outcome<Seq<DatumView>>) -> Outcome<DatumView> {
    match o {
        Outcome::Value(items) => Outcome::Value(DatumView::List(items)),
        Outcome::Invalid => Outcome::Invalid,
        Outcome::Unrepresentable => Outcome::Unrepresentable,
        Outcome::Panics => Outcome::Panics,
    }
}

/// A property list with the keys of `keys` and the given values.
pub open spec fn proplist_of(keys: Seq<(DatumView, DatumView)>, o: Outcome<Seq<DatumView>>) -> Outcome<
    DatumView,
> {
    match o {
        Outcome::Value(vs) => Outcome::Value(
            DatumView::PropList(Seq::new(vs.len(), |i: int| (keys[i].0, vs[i]))),
        ),
        Outcome::Invalid => Outcome::Invalid,
        Outcome::Unrepresentable => Outcome::Unrepresentable,
        Outcome::Panics => Outcome::Panics,
    }
}

/// Extends the outcome for a prefix of items by the outcome for the next one;
/// the first failure wins.
pub open spec fn snoc_outcome(prefix: Outcome<Seq<DatumView>>, next: Outcome<DatumView>) -> Outcome<
    Seq<DatumView>,
> {
    match prefix {
        Outcome::Value(vs) => match next {
            Outcome::Value(v) => Outcome::Value(vs.push(v)),
            Outcome::Invalid => Outcome::Invalid,
            Outcome::Unrepresentable => Outcome::Unrepresentable,
            Outcome::Panics => Outcome::Panics,
        },
        _ => prefix,
    }
}

pub open spec fn min_len(a: nat, b: nat) -> nat {
    if a < b {
        a
    } else {
        b
    }
}

/// The 24-bit integer of a color: its index, or `r << 16 | g << 8 | b`.
pub open spec fn color_int(c: ColorRef) -> int {
    match c {
        ColorRef::PaletteIndex(i) => i as int,
        ColorRef::Rgb(r, g, b) => r * 65536 + g * 256 + b,
    }
}

pub open spec fn clamp_channel(v: int) -> u8 {
    if v < 0 {
        0
    } else if v > 255 {
        255
    } else {
        v as u8
    }
}

/// An RGB color scaled channel-wise and clamped to 0..=255; a palette color is unchanged.
pub open spec fn scale_color(c: ColorRef, s: int) -> ColorRef {
    match c {
        ColorRef::Rgb(r, g, b) => ColorRef::Rgb(
            clamp_channel(r * s),
            clamp_channel(g * s),
            clamp_channel(b * s),
        ),
        _ => c,
    }
}

/// Lingo's integer division: a zero divisor counts as 1; dividing the least
/// integer by -1 panics.
pub open spec fn int_div_outcome(a: i32, b: i32) -> Outcome<i32> {
    let d = if b == 0 {
        1i32
    } else {
        b
    };
    match a.checked_div(d) {
        Some(q) => Outcome::Value(q),
        None => Outcome::Panics,
    }
}

/// Results of `op` applied to each item with a scalar, the scalar on the left
/// when `scalar_left`; the first failure wins.
pub open spec fn map_scalar(
    op: ArithOp,
    items: Seq<DatumView>,
    s: DatumView,
    scalar_left: bool,
) -> Outcome<Seq<DatumView>>
    decreases items_size(items) + datum_size(s), 2nat,
{
    if items.len() == 0 {
        Outcome::Value(Seq::empty())
    } else {
        proof {
            assert(datum_size(items.last()) >= 1);
        }
        let rest = map_scalar(op, items.drop_last(), s, scalar_left);
        let last = if scalar_left {
            arith_spec(op, s, items.last())
        } else {
            arith_spec(op, items.last(), s)
        };
        snoc_outcome(rest, last)
    }
}

/// Results of `op` applied to the items of two equally long sequences.
pub open spec fn map_zip(op: ArithOp, a: Seq<DatumView>, b: Seq<DatumView>) -> Outcome<
    Seq<DatumView>,
>
    decreases items_size(a) + items_size(b), 2nat,
{
    if a.len() == 0 || b.len() == 0 {
        Outcome::Value(Seq::empty())
    } else {
        proof {
            assert(datum_size(a.last()) >= 1);
        }
        snoc_outcome(map_zip(op, a.drop_last(), b.drop_last()), arith_spec(op, a.last(), b.last()))
    }
}

/// Results of `op` applied to the values of two equally long property lists.
pub open spec fn map_pair_values(
    op: ArithOp,
    a: Seq<(DatumView, DatumView)>,
    b: Seq<(DatumView, DatumView)>,
) -> Outcome<Seq<DatumView>>
    decreases pairs_size(a) + pairs_size(b), 2nat,
{
    if a.len() == 0 || b.len() == 0 {
        Outcome::Value(Seq::empty())
    } else {
        proof {
            assert(datum_size(a.last().1) >= 1);
        }
        snoc_outcome(
            map_pair_values(op, a.drop_last(), b.drop_last()),
            arith_spec(op, a.last().1, b.last().1),
        )
    }
}

/// Results of `op` applied to each value of a property list with a scalar on the right.
pub open spec fn map_pair_scalar(op: ArithOp, pairs: Seq<(DatumView, DatumView)>, s: DatumView) -> Outcome<
    Seq<DatumView>,
>
    decreases pairs_size(pairs) + datum_size(s), 2nat,
{
    if pairs.len() == 0 {
        Outcome::Value(Seq::empty())
    } else {
        proof {
            assert(datum_size(pairs.last().1) >= 1);
        }
        snoc_outcome(
            map_pair_scalar(op, pairs.drop_last(), s),
            arith_spec(op, pairs.last().1, s),
        )
    }
}

/// Lingo `+` where no operand is a list or property list combined with a
/// number or another list: VOID is the identity; integers add with 32-bit
/// wrap-around; rects, points and their integer-list forms add component-wise,
/// a scalar spreading over every component and a point offsetting both corners
/// of a rect; a string joined with a list gets the list's items; colors of one
/// kind add channel-wise with 8-bit wrap-around; a string with an integer is a
/// floating-point sum; a string with any other value takes its text.
pub open spec fn add_flat(l: DatumView, r: DatumView) -> Outcome<DatumView> {
    match (l, r) {
        (DatumView::Void, _) => Outcome::Value(r),
        (_, DatumView::Void) => Outcome::Value(l),
        (DatumView::Int(a), DatumView::Int(b)) => Outcome::Value(DatumView::Int(a.wrapping_add(b))),
        (DatumView::Rect(a0, a1, a2, a3), DatumView::Rect(b0, b1, b2, b3)) => rect_outcome(
            a0 + b0,
            a1 + b1,
            a2 + b2,
            a3 + b3,
        ),
        (DatumView::Rect(a0, a1, a2, a3), DatumView::List(items)) => match list_rect(items) {
            Some((b0, b1, b2, b3)) => rect_outcome(a0 + b0, a1 + b1, a2 + b2, a3 + b3),
            None => Outcome::Invalid,
        },
        (DatumView::Rect(a0, a1, a2, a3), DatumView::Int(b)) => rect_outcome(
            a0 + b,
            a1 + b,
            a2 + b,
            a3 + b,
        ),
        (DatumView::Int(a), DatumView::Rect(b0, b1, b2, b3)) => rect_outcome(
            b0 + a,
            b1 + a,
            b2 + a,
            b3 + a,
        ),
        (DatumView::Rect(a0, a1, a2, a3), DatumView::Point(x, y)) => rect_outcome(
            a0 + x,
            a1 + y,
            a2 + x,
            a3 + y,
        ),
        (DatumView::Point(x, y), DatumView::Rect(b0, b1, b2, b3)) => rect_outcome(
            x + b0,
            y + b1,
            x + b2,
            y + b3,
        ),
        (DatumView::String(s), DatumView::List(items)) => Outcome::Value(
            DatumView::String(s + concat_items(items)),
        ),
        (DatumView::List(items), DatumView::String(s)) => Outcome::Value(
            DatumView::String(concat_items(items) + s),
        ),
        (DatumView::Point(a0, a1), DatumView::Point(b0, b1)) => point_outcome(a0 + b0, a1 + b1),
        (DatumView::Point(a0, a1), DatumView::List(items)) => match list_point(items) {
            Some((b0, b1)) => point_outcome(a0 + b0, a1 + b1),
            None => Outcome::Invalid,
        },
        (DatumView::List(items), DatumView::Point(b0, b1)) => match list_point(items) {
            Some((a0, a1)) => point_outcome(a0 + b0, a1 + b1),
            None => Outcome::Invalid,
        },
        (DatumView::Point(a0, a1), DatumView::Int(b)) => point_outcome(a0 + b, a1 + b),
        (DatumView::Int(a), DatumView::Point(b0, b1)) => point_outcome(b0 + a, b1 + a),
        (DatumView::ColorRef(a), DatumView::ColorRef(b)) => match (a, b) {
            (ColorRef::PaletteIndex(x), ColorRef::PaletteIndex(y)) => Outcome::Value(
                DatumView::ColorRef(ColorRef::PaletteIndex(x.wrapping_add(y))),
            ),
            (ColorRef::Rgb(ar, ag, ab), ColorRef::Rgb(br, bg, bb)) => Outcome::Value(
                DatumView::ColorRef(
                    ColorRef::Rgb(ar.wrapping_add(br), ag.wrapping_add(bg), ab.wrapping_add(bb)),
                ),
            ),
            _ => Outcome::Invalid,
        },
        (DatumView::String(_), DatumView::Int(_)) => Outcome::Unrepresentable,
        (DatumView::Int(_), DatumView::String(_)) => Outcome::Unrepresentable,
        (DatumView::String(s), _) => Outcome::Value(DatumView::String(s + concat_text(r))),
        _ => Outcome::Invalid,
    }
}

/// Lingo `-` where no operand is a list or property list combined with a
/// number or another list: VOID on both sides is 0, VOID on one side leaves
/// the other operand (negated when it is an integer on the right); integers
/// subtract with 32-bit wrap-around; rects, points and their integer-list forms
/// subtract component-wise, a scalar spreading over every component (an
/// integer minus a point subtracts each component from it) and a point
/// offsetting both corners of a rect; palette colors subtract with 8-bit
/// wrap-around and RGB colors channel-wise down to 0; strings with strings or
/// integers are floating-point differences.
pub open spec fn sub_flat(l: DatumView, r: DatumView) -> Outcome<DatumView> {
    match (l, r) {
        (DatumView::Void, DatumView::Void) => Outcome::Value(DatumView::Int(0)),
        (DatumView::Void, DatumView::Int(b)) => Outcome::Value(DatumView::Int(0i32.wrapping_sub(b))),
        (DatumView::Int(a), DatumView::Void) => Outcome::Value(DatumView::Int(a)),
        (DatumView::Int(a), DatumView::Int(b)) => Outcome::Value(DatumView::Int(a.wrapping_sub(b))),
        (DatumView::Rect(a0, a1, a2, a3), DatumView::Rect(b0, b1, b2, b3)) => rect_outcome(
            a0 - b0,
            a1 - b1,
            a2 - b2,
            a3 - b3,
        ),
        (DatumView::Rect(a0, a1, a2, a3), DatumView::List(items)) => match list_rect(items) {
            Some((b0, b1, b2, b3)) => rect_outcome(a0 - b0, a1 - b1, a2 - b2, a3 - b3),
            None => Outcome::Invalid,
        },
        (DatumView::Rect(a0, a1, a2, a3), DatumView::Int(b)) => rect_outcome(
            a0 - b,
            a1 - b,
            a2 - b,
            a3 - b,
        ),
        (DatumView::Rect(a0, a1, a2, a3), DatumView::Point(x, y)) => rect_outcome(
            a0 - x,
            a1 - y,
            a2 - x,
            a3 - y,
        ),
        (DatumView::Point(a0, a1), DatumView::Point(b0, b1)) => point_outcome(a0 - b0, a1 - b1),
        (DatumView::Point(a0, a1), DatumView::List(items)) => match list_point(items) {
            Some((b0, b1)) => point_outcome(a0 - b0, a1 - b1),
            None => Outcome::Invalid,
        },
        (DatumView::List(items), DatumView::Point(b0, b1)) => match list_point(items) {
            Some((a0, a1)) => point_outcome(a0 - b0, a1 - b1),
            None => Outcome::Invalid,
        },
        (DatumView::Int(a), DatumView::Point(b0, b1)) => point_outcome(a - b0, a - b1),
        (DatumView::Point(a0, a1), DatumView::Int(b)) => point_outcome(a0 - b, a1 - b),
        (DatumView::ColorRef(a), DatumView::ColorRef(b)) => match (a, b) {
            (ColorRef::PaletteIndex(x), ColorRef::PaletteIndex(y)) => Outcome::Value(
                DatumView::ColorRef(ColorRef::PaletteIndex(x.wrapping_sub(y))),
            ),
            (ColorRef::Rgb(ar, ag, ab), ColorRef::Rgb(br, bg, bb)) => Outcome::Value(
                DatumView::ColorRef(
                    ColorRef::Rgb(
                        ar.saturating_sub(br),
                        ag.saturating_sub(bg),
                        ab.saturating_sub(bb),
                    ),
                ),
            ),
            _ => Outcome::Invalid,
        },
        (DatumView::String(_), DatumView::String(_)) => Outcome::Unrepresentable,
        (DatumView::String(_), DatumView::Int(_)) => Outcome::Unrepresentable,
        (DatumView::Int(_), DatumView::String(_)) => Outcome::Unrepresentable,
        (DatumView::Void, _) => Outcome::Value(r),
        (_, DatumView::Void) => Outcome::Value(l),
        _ => Outcome::Invalid,
    }
}

/// Lingo `*` where no operand is a list or property list combined with a
/// number or another list: VOID with VOID or an integer is 0 and with a point
/// the zero point; integers multiply with 32-bit wrap-around; an RGB color
/// times an integer scales each channel, clamped to 0..=255 (palette colors
/// are unchanged); rects times an integer and points times an integer, a point
/// or a two-integer list multiply component-wise; a string times 0 is 0, a
/// string that reads as a number times any other integer is a floating-point
/// value, and one that does not is the integer 123456789 (as in Director,
/// where movies rely on an arbitrary large integer there); an integer times a
/// string is a floating-point value.
pub open spec fn mul_flat(l: DatumView, r: DatumView) -> Outcome<DatumView> {
    match (l, r) {
        (DatumView::Void, DatumView::Void) => Outcome::Value(DatumView::Int(0)),
        (DatumView::Void, DatumView::Int(_)) => Outcome::Value(DatumView::Int(0)),
        (DatumView::Int(_), DatumView::Void) => Outcome::Value(DatumView::Int(0)),
        (DatumView::Point(_, _), DatumView::Void) => Outcome::Value(DatumView::Point(0, 0)),
        (DatumView::Void, DatumView::Point(_, _)) => Outcome::Value(DatumView::Point(0, 0)),
        (DatumView::Int(a), DatumView::Int(b)) => Outcome::Value(DatumView::Int(a.wrapping_mul(b))),
        (DatumView::ColorRef(c), DatumView::Int(s)) => Outcome::Value(
            DatumView::ColorRef(scale_color(c, s as int)),
        ),
        (DatumView::Int(s), DatumView::ColorRef(c)) => Outcome::Value(
            DatumView::ColorRef(scale_color(c, s as int)),
        ),
        (DatumView::Rect(a0, a1, a2, a3), DatumView::Int(s)) => rect_outcome(
            a0 * s,
            a1 * s,
            a2 * s,
            a3 * s,
        ),
        (DatumView::Point(a0, a1), DatumView::Int(s)) => point_outcome(a0 * s, a1 * s),
        (DatumView::Int(s), DatumView::Point(b0, b1)) => point_outcome(b0 * s, b1 * s),
        (DatumView::Point(a0, a1), DatumView::Point(b0, b1)) => point_outcome(a0 * b0, a1 * b1),
        (DatumView::String(t), DatumView::Int(b)) => if b == 0 {
            Outcome::Value(DatumView::Int(0))
        } else if is_float_text(t) {
            Outcome::Unrepresentable
        } else {
            Outcome::Value(DatumView::Int(123456789))
        },
        (DatumView::Int(_), DatumView::String(_)) => Outcome::Unrepresentable,
        (DatumView::Point(a0, a1), DatumView::List(items)) => match list_point(items) {
            Some((b0, b1)) => point_outcome(a0 * b0, a1 * b1),
            None => Outcome::Invalid,
        },
        (DatumView::List(items), DatumView::Point(b0, b1)) => match list_point(items) {
            Some((a0, a1)) => point_outcome(a0 * b0, a1 * b1),
            None => Outcome::Invalid,
        },
        _ => Outcome::Invalid,
    }
}

/// Lingo `/` where the left operand is not a list: VOID on the left is 0, and
/// so is a number over VOID; integers divide truncating, a zero divisor
/// counting as 1; points and rects divide component-wise by an integer, and
/// points by a point or a two-integer list, a zero component divisor giving 0;
/// a color divided by an integer, or an integer by a color, goes through the
/// color's 24-bit value, a zero divisor giving 0; strings with integers are
/// floating-point quotients. Dividing the least integer by -1 panics.
pub open spec fn div_flat(l: DatumView, r: DatumView) -> Outcome<DatumView> {
    match (l, r) {
        (DatumView::Void, _) => Outcome::Value(DatumView::Int(0)),
        (DatumView::Int(_), DatumView::Void) => Outcome::Value(DatumView::Int(0)),
        (DatumView::Int(a), DatumView::Int(b)) => match int_div_outcome(a, b) {
            Outcome::Value(q) => Outcome::Value(DatumView::Int(q)),
            _ => Outcome::Panics,
        },
        (DatumView::Point(a0, a1), DatumView::Int(b)) => match (
            int_div_outcome(a0, b),
            int_div_outcome(a1, b),
        ) {
            (Outcome::Value(q0), Outcome::Value(q1)) => Outcome::Value(DatumView::Point(q0, q1)),
            _ => Outcome::Panics,
        },
        (DatumView::Point(a0, a1), DatumView::Point(b0, b1)) => point_div_point(a0, a1, b0, b1),
        (DatumView::Point(a0, a1), DatumView::List(items)) => if items.len() == 2 {
            match list_point(items) {
                Some((b0, b1)) => point_div_point(a0, a1, b0, b1),
                None => Outcome::Invalid,
            }
        } else {
            Outcome::Invalid
        },
        (DatumView::Rect(a0, a1, a2, a3), DatumView::Int(b)) => match (
            int_div_outcome(a0, b),
            int_div_outcome(a1, b),
            int_div_outcome(a2, b),
            int_div_outcome(a3, b),
        ) {
            (
                Outcome::Value(q0),
                Outcome::Value(q1),
                Outcome::Value(q2),
                Outcome::Value(q3),
            ) => Outcome::Value(DatumView::Rect(q0, q1, q2, q3)),
            _ => Outcome::Panics,
        },
        (DatumView::Int(_), DatumView::String(_)) => Outcome::Unrepresentable,
        (DatumView::String(_), DatumView::Int(_)) => Outcome::Unrepresentable,
        (DatumView::ColorRef(c), DatumView::Int(b)) => if b == 0 {
            Outcome::Value(DatumView::Int(0))
        } else {
            match (color_int(c) as i32).checked_div(b) {
                Some(q) => Outcome::Value(DatumView::Int(q)),
                None => Outcome::Panics,
            }
        },
        (DatumView::Int(a), DatumView::ColorRef(c)) => if color_int(c) == 0 {
            Outcome::Value(DatumView::Int(0))
        } else {
            match a.checked_div(color_int(c) as i32) {
                Some(q) => Outcome::Value(DatumView::Int(q)),
                None => Outcome::Panics,
            }
        },
        _ => Outcome::Invalid,
    }
}

/// A point divided by a point component-wise, a zero divisor giving 0.
pub open spec fn point_div_point(a0: i32, a1: i32, b0: i32, b1: i32) -> Outcome<DatumView> {
    let q0 = if b0 == 0 {
        Some(0i32)
    } else {
        a0.checked_div(b0)
    };
    let q1 = if b1 == 0 {
        Some(0i32)
    } else {
        a1.checked_div(b1)
    };
    match (q0, q1) {
        (Some(x), Some(y)) => Outcome::Value(DatumView::Point(x, y)),
        _ => Outcome::Panics,
    }
}

/// Lingo arithmetic. Symbols count as the strings of their names. A list with
/// an integer applies the operator to each item (for `-` and `/` in the order
/// written; `*` takes each integer item times the integer and recurses into
/// nested lists, points and rects, rejecting any other item); two lists
/// combine item by item over their common length (`+`, `-`, `*`); two property
/// lists combine value by value under the left keys (`+`, `-`); a property
/// list with an integer multiplies each value (`*`); everything else is the
/// operator's flat rule. The first failing item decides a failure.
pub open spec fn arith_spec(op: ArithOp, l0: DatumView, r0: DatumView) -> Outcome<DatumView>
    decreases datum_size(l0) + datum_size(r0), op_rank(op),
{
    if op is MulItem {
        match (l0, r0) {
            (DatumView::Int(n), DatumView::Int(s)) => Outcome::Value(DatumView::Int(n.wrapping_mul(s))),
            (DatumView::List(_), _) | (DatumView::Point(_, _), _) | (DatumView::Rect(_, _, _, _), _) => arith_spec(ArithOp::Mul, l0, r0),
            _ => Outcome::Invalid,
        }
    } else {
        let l = as_text_operand(l0);
        let r = as_text_operand(r0);
        match (l, r) {
            (DatumView::List(a), DatumView::List(b)) => if op is Div {
                Outcome::Invalid
            } else {
                let m = min_len(a.len(), b.len());
                proof {
                    lemma_items_size_take(a, m as int);
                    lemma_items_size_take(b, m as int);
                }
                list_of(map_zip(op, a.take(m as int), b.take(m as int)))
            },
            (DatumView::List(items), DatumView::Int(_)) => if op is Mul {
                list_of(map_scalar(ArithOp::MulItem, items, r, false))
            } else {
                list_of(map_scalar(op, items, r, false))
            },
            (DatumView::Int(_), DatumView::List(items)) => if op is Mul {
                list_of(map_scalar(ArithOp::MulItem, items, l, false))
            } else if op is Div {
                Outcome::Invalid
            } else {
                list_of(map_scalar(op, items, l, true))
            },
            (DatumView::PropList(a), DatumView::PropList(b)) => if op is Add || op is Sub {
                let m = min_len(a.len(), b.len());
                proof {
                    lemma_pairs_size_take(a, m as int);
                    lemma_pairs_size_take(b, m as int);
                }
                proplist_of(a, map_pair_values(op, a.take(m as int), b.take(m as int)))
            } else {
                Outcome::Invalid
            },
            (DatumView::PropList(pairs), DatumView::Int(_)) => if op is Mul {
                proplist_of(pairs, map_pair_scalar(ArithOp::Mul, pairs, r))
            } else {
                match op {
                    ArithOp::Add => add_flat(l, r),
                    ArithOp::Sub => sub_flat(l, r),
                    _ => Outcome::Invalid,
                }
            },
            (DatumView::Int(_), DatumView::PropList(pairs)) => if op is Mul {
                proplist_of(pairs, map_pair_scalar(ArithOp::Mul, pairs, l))
            } else {
                match op {
                    ArithOp::Add => add_flat(l, r),
                    ArithOp::Sub => sub_flat(l, r),
                    _ => Outcome::Invalid,
                }
            },
            _ => match op {
                ArithOp::Add => add_flat(l, r),
                ArithOp::Sub => sub_flat(l, r),
                ArithOp::Mul => mul_flat(l, r),
                _ => div_flat(l, r),
            },
        }
    }
}

/// Only division can panic: `+`, `-` and `*` always yield a value or an error.
pub proof fn lemma_arith_no_panic(op: ArithOp, l0: DatumView, r0: DatumView)
    requires
        !(op is Div),
    ensures
        !(arith_spec(op, l0, r0) is Panics),
    decreases datum_size(l0) + datum_size(r0), op_rank(op),
{
    if op is MulItem {
        match (l0, r0) {
            (DatumView::Int(_), DatumView::Int(_)) => {},
            (DatumView::List(_), _) | (DatumView::Point(_, _), _) | (DatumView::Rect(_, _, _, _), _) => {
                lemma_arith_no_panic(ArithOp::Mul, l0, r0);
            },
            _ => {},
        }
    } else {
        let l = as_text_operand(l0);
        let r = as_text_operand(r0);
        match (l, r) {
            (DatumView::List(a), DatumView::List(b)) => {
                let m = min_len(a.len(), b.len());
                lemma_items_size_take(a, m as int);
                lemma_items_size_take(b, m as int);
                lemma_map_zip_no_panic(op, a.take(m as int), b.take(m as int));
            },
            (DatumView::List(items), DatumView::Int(_)) => {
                if op is Mul {
                    lemma_map_scalar_no_panic(ArithOp::MulItem, items, r, false);
                } else {
                    lemma_map_scalar_no_panic(op, items, r, false);
                }
            },
            (DatumView::Int(_), DatumView::List(items)) => {
                if op is Mul {
                    lemma_map_scalar_no_panic(ArithOp::MulItem, items, l, false);
                } else {
                    lemma_map_scalar_no_panic(op, items, l, true);
                }
            },
            (DatumView::PropList(a), DatumView::PropList(b)) => {
                let m = min_len(a.len(), b.len());
                lemma_pairs_size_take(a, m as int);
                lemma_pairs_size_take(b, m as int);
                lemma_map_pair_values_no_panic(op, a.take(m as int), b.take(m as int));
            },
            (DatumView::PropList(pairs), DatumView::Int(_)) => {
                lemma_map_pair_scalar_no_panic(ArithOp::Mul, pairs, r);
            },
            (DatumView::Int(_), DatumView::PropList(pairs)) => {
                lemma_map_pair_scalar_no_panic(ArithOp::Mul, pairs, l);
            },
            _ => {},
        }
    }
}

proof fn lemma_map_scalar_no_panic(op: ArithOp, items: Seq<DatumView>, s: DatumView, scalar_left: bool)
    requires
        !(op is Div),
    ensures
        !(map_scalar(op, items, s, scalar_left) is Panics),
    decreases items_size(items) + datum_size(s), 2nat,
{
    if items.len() > 0 {
        assert(datum_size(items.last()) >= 1);
        lemma_map_scalar_no_panic(op, items.drop_last(), s, scalar_left);
        if scalar_left {
            lemma_arith_no_panic(op, s, items.last());
        } else {
            lemma_arith_no_panic(op, items.last(), s);
        }
    }
}

proof fn lemma_map_zip_no_panic(op: ArithOp, a: Seq<DatumView>, b: Seq<DatumView>)
    requires
        !(op is Div),
    ensures
        !(map_zip(op, a, b) is Panics),
    decreases items_size(a) + items_size(b), 2nat,
{
    if a.len() > 0 && b.len() > 0 {
        assert(datum_size(a.last()) >= 1);
        lemma_map_zip_no_panic(op, a.drop_last(), b.drop_last());
        lemma_arith_no_panic(op, a.last(), b.last());
    }
}

proof fn lemma_map_pair_values_no_panic(op: ArithOp, a: Seq<(DatumView, DatumView)>, b: Seq<(DatumView, DatumView)>)
    requires
        !(op is Div),
    ensures
        !(map_pair_values(op, a, b) is Panics),
    decreases pairs_size(a) + pairs_size(b), 2nat,
{
    if a.len() > 0 && b.len() > 0 {
        assert(datum_size(a.last().1) >= 1);
        lemma_map_pair_values_no_panic(op, a.drop_last(), b.drop_last());
        lemma_arith_no_panic(op, a.last().1, b.last().1);
    }
}

proof fn lemma_map_pair_scalar_no_panic(op: ArithOp, pairs: Seq<(DatumView, DatumView)>, s: DatumView)
    requires
        !(op is Div),
    ensures
        !(map_pair_scalar(op, pairs, s) is Panics),
    decreases pairs_size(pairs) + datum_size(s), 2nat,
{
    if pairs.len() > 0 {
        assert(datum_size(pairs.last().1) >= 1);
        lemma_map_pair_scalar_no_panic(op, pairs.drop_last(), s);
        lemma_arith_no_panic(op, pairs.last().1, s);
    }
}


// ---- Laws of Lingo arithmetic ----

/// A symbol takes part in arithmetic as the string of its name, on either
/// side of `+`, `-`, `*` and `/`.
pub proof fn lemma_symbol_is_its_name(op: ArithOp, name: Seq<char>, other: DatumView)
    requires
        !(op is MulItem),
    ensures
        arith_spec(op, DatumView::Symbol(name), other) == arith_spec(op, DatumView::String(name), other),
        arith_spec(op, other, DatumView::Symbol(name)) == arith_spec(op, other, DatumView::String(name)),
{
}

/// Integers add, subtract and multiply with 32-bit wrap-around.
pub proof fn lemma_integer_arithmetic(x: i32, y: i32)
    ensures
        arith_spec(ArithOp::Add, DatumView::Int(x), DatumView::Int(y)) == Outcome::Value(DatumView::Int(x.wrapping_add(y))),
        arith_spec(ArithOp::Sub, DatumView::Int(x), DatumView::Int(y)) == Outcome::Value(DatumView::Int(x.wrapping_sub(y))),
        arith_spec(ArithOp::Mul, DatumView::Int(x), DatumView::Int(y)) == Outcome::Value(DatumView::Int(x.wrapping_mul(y))),
{
}

/// VOID added to a value that is not a symbol gives that value.
pub proof fn lemma_void_adds_nothing(d: DatumView)
    requires
        !(d is Symbol),
    ensures
        arith_spec(ArithOp::Add, DatumView::Void, d) == Outcome::Value(d),
        !(d is Void) ==> arith_spec(ArithOp::Add, d, DatumView::Void) == Outcome::Value(d),
{
}

/// `rect + n` adds `n` to each side of the rect, and `rect + point` offsets
/// the rect by the point.
pub proof fn lemma_rect_offsets(a: i32, b: i32, c: i32, d: i32, n: i32, x: i32, y: i32)
    ensures
        arith_spec(ArithOp::Add, DatumView::Rect(a, b, c, d), DatumView::Int(n)) == rect_outcome(
            a + n,
            b + n,
            c + n,
            d + n,
        ),
        arith_spec(ArithOp::Add, DatumView::Rect(a, b, c, d), DatumView::Point(x, y)) == rect_outcome(
            a + x,
            b + y,
            c + x,
            d + y,
        ),
{
}

/// Whether a mathematical integer is a 32-bit one.
pub open spec fn in_i32(v: int) -> bool {
    -0x8000_0000 <= v && v <= 0x7fff_ffff
}

/// Truncating integer division, as Rust's `/` on integers: the quotient of
/// the magnitudes, negative when exactly one operand is negative.
pub open spec fn truncated_quotient(a: int, b: int) -> int {
    let q = (if a < 0 { -a } else { a }) / (if b < 0 { -b } else { b });
    if (a < 0) != (b < 0) {
        -q
    } else {
        q
    }
}

/// Points add, subtract and multiply coordinate by coordinate: the result
/// is the point of the two coordinate results where both are 32-bit
/// integers, and otherwise cannot be represented.
pub proof fn lemma_points_combine_by_coordinates(a0: i32, a1: i32, b0: i32, b1: i32)
    ensures
        in_i32(a0 + b0) && in_i32(a1 + b1) ==> arith_spec(
            ArithOp::Add,
            DatumView::Point(a0, a1),
            DatumView::Point(b0, b1),
        ) == Outcome::Value(DatumView::Point((a0 + b0) as i32, (a1 + b1) as i32)),
        !(in_i32(a0 + b0) && in_i32(a1 + b1)) ==> arith_spec(
            ArithOp::Add,
            DatumView::Point(a0, a1),
            DatumView::Point(b0, b1),
        ) == Outcome::<DatumView>::Unrepresentable,
        in_i32(a0 - b0) && in_i32(a1 - b1) ==> arith_spec(
            ArithOp::Sub,
            DatumView::Point(a0, a1),
            DatumView::Point(b0, b1),
        ) == Outcome::Value(DatumView::Point((a0 - b0) as i32, (a1 - b1) as i32)),
        !(in_i32(a0 - b0) && in_i32(a1 - b1)) ==> arith_spec(
            ArithOp::Sub,
            DatumView::Point(a0, a1),
            DatumView::Point(b0, b1),
        ) == Outcome::<DatumView>::Unrepresentable,
        in_i32(a0 * b0) && in_i32(a1 * b1) ==> arith_spec(
            ArithOp::Mul,
            DatumView::Point(a0, a1),
            DatumView::Point(b0, b1),
        ) == Outcome::Value(DatumView::Point((a0 * b0) as i32, (a1 * b1) as i32)),
        !(in_i32(a0 * b0) && in_i32(a1 * b1)) ==> arith_spec(
            ArithOp::Mul,
            DatumView::Point(a0, a1),
            DatumView::Point(b0, b1),
        ) == Outcome::<DatumView>::Unrepresentable,
        arith_spec(ArithOp::Add, DatumView::Point(a0, a1), DatumView::Point(b0, b1)) == arith_spec(
            ArithOp::Add,
            DatumView::Point(b0, b1),
            DatumView::Point(a0, a1),
        ),
        arith_spec(ArithOp::Mul, DatumView::Point(a0, a1), DatumView::Point(b0, b1)) == arith_spec(
            ArithOp::Mul,
            DatumView::Point(b0, b1),
            DatumView::Point(a0, a1),
        ),
{
    assert(a0 * b0 == b0 * a0 && a1 * b1 == b1 * a1) by (nonlinear_arith);
}

/// A point plus or minus an integer moves both coordinates by it.
pub proof fn lemma_point_with_integer(x: i32, y: i32, n: i32)
    ensures
        in_i32(x + n) && in_i32(y + n) ==> arith_spec(ArithOp::Add, DatumView::Point(x, y), DatumView::Int(n))
            == Outcome::Value(DatumView::Point((x + n) as i32, (y + n) as i32)),
        arith_spec(ArithOp::Add, DatumView::Point(x, y), DatumView::Int(n)) == arith_spec(
            ArithOp::Add,
            DatumView::Int(n),
            DatumView::Point(x, y),
        ),
{
}

/// A point divided by a point divides coordinate by coordinate, truncating
/// (a zero divisor gives 0): where both divisors are not 0 and neither
/// quotient is the least integer over -1, the result is the point of the two
/// truncated quotients.
pub proof fn lemma_point_over_point(a0: i32, a1: i32, b0: i32, b1: i32)
    requires
        b0 != 0,
        b1 != 0,
        !(a0 == i32::MIN && b0 == -1),
        !(a1 == i32::MIN && b1 == -1),
    ensures
        arith_spec(ArithOp::Div, DatumView::Point(a0, a1), DatumView::Point(b0, b1)) == Outcome::Value(
            DatumView::Point(
                truncated_quotient(a0 as int, b0 as int) as i32,
                truncated_quotient(a1 as int, b1 as int) as i32,
            ),
        ),
{
    lemma_truncated_quotient(a0, b0);
    lemma_truncated_quotient(a1, b1);
}

/// Integer division truncates, a zero divisor counting as 1: the least
/// integer over -1 panics, and every other quotient is the truncated one.
pub proof fn lemma_integer_division(a: i32, b: i32)
    ensures
        b == 0 ==> arith_spec(ArithOp::Div, DatumView::Int(a), DatumView::Int(b)) == Outcome::Value(
            DatumView::Int(a),
        ),
        b != 0 && !(a == i32::MIN && b == -1) ==> arith_spec(ArithOp::Div, DatumView::Int(a), DatumView::Int(b))
            == Outcome::Value(DatumView::Int(truncated_quotient(a as int, b as int) as i32)),
        a == i32::MIN && b == -1 ==> arith_spec(ArithOp::Div, DatumView::Int(a), DatumView::Int(b)) is Panics,
{
    if b == 0 {
        lemma_truncated_quotient(a, 1);
        assert(truncated_quotient(a as int, 1) == a) by {
            if a < 0 {
                assert((-(a as int)) / 1 == -(a as int));
            }
        }
    } else if !(a == i32::MIN && b == -1) {
        lemma_truncated_quotient(a, b);
    }
}

/// Rects add and subtract corner coordinate by corner coordinate, where
/// every result is a 32-bit integer.
pub proof fn lemma_rects_combine_by_coordinates(a: (i32, i32, i32, i32), b: (i32, i32, i32, i32))
    ensures
        in_i32(a.0 + b.0) && in_i32(a.1 + b.1) && in_i32(a.2 + b.2) && in_i32(a.3 + b.3) ==> arith_spec(
            ArithOp::Add,
            DatumView::Rect(a.0, a.1, a.2, a.3),
            DatumView::Rect(b.0, b.1, b.2, b.3),
        ) == Outcome::Value(
            DatumView::Rect((a.0 + b.0) as i32, (a.1 + b.1) as i32, (a.2 + b.2) as i32, (a.3 + b.3) as i32),
        ),
        in_i32(a.0 - b.0) && in_i32(a.1 - b.1) && in_i32(a.2 - b.2) && in_i32(a.3 - b.3) ==> arith_spec(
            ArithOp::Sub,
            DatumView::Rect(a.0, a.1, a.2, a.3),
            DatumView::Rect(b.0, b.1, b.2, b.3),
        ) == Outcome::Value(
            DatumView::Rect((a.0 - b.0) as i32, (a.1 - b.1) as i32, (a.2 - b.2) as i32, (a.3 - b.3) as i32),
        ),
{
}

/// Subtracting a point undoes adding it, and adding undoes subtracting,
/// wherever the first result is a point.
pub proof fn lemma_point_add_sub_inverse(p: (i32, i32), q: (i32, i32), r: (i32, i32))
    ensures
        arith_spec(ArithOp::Add, DatumView::Point(p.0, p.1), DatumView::Point(q.0, q.1)) == Outcome::Value(
            DatumView::Point(r.0, r.1),
        ) ==> arith_spec(ArithOp::Sub, DatumView::Point(r.0, r.1), DatumView::Point(q.0, q.1))
            == Outcome::Value(DatumView::Point(p.0, p.1)),
        arith_spec(ArithOp::Sub, DatumView::Point(p.0, p.1), DatumView::Point(q.0, q.1)) == Outcome::Value(
            DatumView::Point(r.0, r.1),
        ) ==> arith_spec(ArithOp::Add, DatumView::Point(r.0, r.1), DatumView::Point(q.0, q.1))
            == Outcome::Value(DatumView::Point(p.0, p.1)),
{
}

/// A point times or over an integer scales each coordinate: the products
/// where they are 32-bit integers, and the truncated quotients by a divisor
/// that is neither 0 nor -1 (0 counting as 1).
pub proof fn lemma_point_scaled(x: i32, y: i32, n: i32)
    ensures
        in_i32(x * n) && in_i32(y * n) ==> arith_spec(ArithOp::Mul, DatumView::Point(x, y), DatumView::Int(n))
            == Outcome::Value(DatumView::Point((x * n) as i32, (y * n) as i32)),
        n != 0 && n != -1 ==> arith_spec(ArithOp::Div, DatumView::Point(x, y), DatumView::Int(n)) == Outcome::Value(
            DatumView::Point(
                truncated_quotient(x as int, n as int) as i32,
                truncated_quotient(y as int, n as int) as i32,
            ),
        ),
        n == 0 ==> arith_spec(ArithOp::Div, DatumView::Point(x, y), DatumView::Int(n)) == Outcome::Value(
            DatumView::Point(x, y),
        ),
{
    if n != 0 && n != -1 {
        lemma_truncated_quotient(x, n);
        lemma_truncated_quotient(y, n);
    }
    if n == 0 {
        lemma_integer_division(x, 0);
        lemma_integer_division(y, 0);
    }
}

/// `checked_div` on 32-bit integers is the truncated quotient where it is
/// defined.
proof fn lemma_truncated_quotient(a: i32, b: i32)
    requires
        b != 0,
        !(a == i32::MIN && b == -1),
    ensures
        a.checked_div(b) == Some(truncated_quotient(a as int, b as int) as i32),
        in_i32(truncated_quotient(a as int, b as int)),
{
    let x = a as int;
    let d = b as int;
    if x > 0 && d > 0 {
        assert(0 <= x / d <= x) by (nonlinear_arith) requires x > 0, d > 0;
    } else if x < 0 && d < 0 {
        assert(0 <= (-x) / (-d) <= -x) by (nonlinear_arith) requires x < 0, d < 0;
        if d <= -2 {
            assert((-x) / (-d) <= 0x4000_0000) by (nonlinear_arith)
                requires
                    -0x8000_0000 <= x < 0,
                    d <= -2,
            ;
        }
        assert((x * -1) == -x && (d * -1) == -d);
    } else if x < 0 {
        assert(0 <= (-x) / d <= -x) by (nonlinear_arith) requires x < 0, d > 0;
        assert((x * -1) == -x);
    } else if x > 0 {
        assert(0 <= x / (-d) <= x) by (nonlinear_arith) requires x > 0, d < 0;
        assert(d == -1 ==> x / (-d) == x);
        assert((d * -1) == -d);
    }
}

/// Where `op` applied to each item with a scalar succeeds, the results are
/// the items' own results, one for one.
pub proof fn lemma_map_scalar_items(op: ArithOp, items: Seq<DatumView>, s: DatumView, scalar_left: bool)
    requires
        map_scalar(op, items, s, scalar_left) is Value,
    ensures
        map_scalar(op, items, s, scalar_left)->Value_0.len() == items.len(),
        forall|i: int|
            0 <= i < items.len() ==> Outcome::Value(map_scalar(op, items, s, scalar_left)->Value_0[i])
                == (if scalar_left {
                arith_spec(op, s, items[i])
            } else {
                arith_spec(op, items[i], s)
            }),
    decreases items.len(),
{
    if items.len() > 0 {
        lemma_map_scalar_items(op, items.drop_last(), s, scalar_left);
        let rest = map_scalar(op, items.drop_last(), s, scalar_left);
        assert forall|i: int| 0 <= i < items.len() - 1 implies items.drop_last()[i] == items[i] by {}
    }
}

/// `list + n` (and `-`, and `n + list`) applies the operator to each item
/// with the integer; where that succeeds the result is the list of the
/// items' results.
pub proof fn lemma_list_with_scalar(op: ArithOp, items: Seq<DatumView>, n: i32)
    requires
        op is Add || op is Sub,
        arith_spec(op, DatumView::List(items), DatumView::Int(n)) is Value,
    ensures
        arith_spec(op, DatumView::List(items), DatumView::Int(n))->Value_0 matches DatumView::List(out) && out.len()
            == items.len() && forall|i: int|
            0 <= i < items.len() ==> Outcome::Value(#[trigger] out[i]) == arith_spec(op, items[i], DatumView::Int(n)),
{
    lemma_map_scalar_items(op, items, DatumView::Int(n), false);
}

/// Two property lists combine value by value under the left list's
/// property names, over their common length.
pub proof fn lemma_proplists_keep_left_names(op: ArithOp, a: Seq<(DatumView, DatumView)>, b: Seq<(DatumView, DatumView)>)
    requires
        op is Add || op is Sub,
        arith_spec(op, DatumView::PropList(a), DatumView::PropList(b)) is Value,
    ensures
        arith_spec(op, DatumView::PropList(a), DatumView::PropList(b))->Value_0 matches DatumView::PropList(out)
            && out.len() == min_len(a.len(), b.len()) && forall|i: int|
            0 <= i < out.len() ==> (#[trigger] out[i]).0 == a[i].0,
{
    let m = min_len(a.len(), b.len());
    lemma_map_pair_values_len(op, a.take(m as int), b.take(m as int));
}

proof fn lemma_map_scalar_stuck(
    op: ArithOp,
    items: Seq<DatumView>,
    s: DatumView,
    scalar_left: bool,
    i: int,
    n: int,
)
    requires
        0 <= i <= n <= items.len(),
        !(map_scalar(op, items.take(i), s, scalar_left) is Value),
    ensures
        map_scalar(op, items.take(n), s, scalar_left) == map_scalar(op, items.take(i), s, scalar_left),
    decreases n - i,
{
    if n > i {
        lemma_map_scalar_stuck(op, items, s, scalar_left, i, n - 1);
        assert(items.take(n).drop_last() =~= items.take(n - 1));
    }
}

proof fn lemma_map_zip_stuck(op: ArithOp, a: Seq<DatumView>, b: Seq<DatumView>, i: int, n: int)
    requires
        0 <= i <= n <= a.len(),
        n <= b.len(),
        !(map_zip(op, a.take(i), b.take(i)) is Value),
    ensures
        map_zip(op, a.take(n), b.take(n)) == map_zip(op, a.take(i), b.take(i)),
    decreases n - i,
{
    if n > i {
        lemma_map_zip_stuck(op, a, b, i, n - 1);
        assert(a.take(n).drop_last() =~= a.take(n - 1));
        assert(b.take(n).drop_last() =~= b.take(n - 1));
    }
}

proof fn lemma_map_pair_values_stuck(
    op: ArithOp,
    a: Seq<(DatumView, DatumView)>,
    b: Seq<(DatumView, DatumView)>,
    i: int,
    n: int,
)
    requires
        0 <= i <= n <= a.len(),
        n <= b.len(),
        !(map_pair_values(op, a.take(i), b.take(i)) is Value),
    ensures
        map_pair_values(op, a.take(n), b.take(n)) == map_pair_values(op, a.take(i), b.take(i)),
    decreases n - i,
{
    if n > i {
        lemma_map_pair_values_stuck(op, a, b, i, n - 1);
        assert(a.take(n).drop_last() =~= a.take(n - 1));
        assert(b.take(n).drop_last() =~= b.take(n - 1));
    }
}

proof fn lemma_map_pair_scalar_stuck(
    op: ArithOp,
    pairs: Seq<(DatumView, DatumView)>,
    s: DatumView,
    i: int,
    n: int,
)
    requires
        0 <= i <= n <= pairs.len(),
        !(map_pair_scalar(op, pairs.take(i), s) is Value),
    ensures
        map_pair_scalar(op, pairs.take(n), s) == map_pair_scalar(op, pairs.take(i), s),
    decreases n - i,
{
    if n > i {
        lemma_map_pair_scalar_stuck(op, pairs, s, i, n - 1);
        assert(pairs.take(n).drop_last() =~= pairs.take(n - 1));
    }
}

fn invalid_operands() -> (e: ScriptError)
    ensures
        e.code == ScriptErrorCode::Generic,
        e.message@ == invalid_operands_message(),
{
    ScriptError::new(String::from_str("Invalid operands for arithmetic"))
}

/// `op` applied to each item with a scalar, stopping at the first failure.
fn each_scalar(op: ArithOp, items: &Vec<Datum>, s: &Datum, scalar_left: bool) -> (r: Result<
    Vec<Datum>,
    ScriptError,
>)
    requires
        !(map_scalar(op, view_items(items@), s@, scalar_left) is Panics),
    ensures
        match r {
            Ok(v) => map_scalar(op, view_items(items@), s@, scalar_left) == Outcome::Value(
                view_items(v@),
            ),
            Err(e) => error_matches(map_scalar(op, view_items(items@), s@, scalar_left), e),
        },
    decreases items_size(view_items(items@)) + datum_size(s@), 2nat,
{
    let ghost v = view_items(items@);
    let mut out: Vec<Datum> = Vec::new();
    let mut i: usize = 0;
    assert(v.take(0) =~= Seq::<DatumView>::empty());
    while i < items.len()
        invariant
            v == view_items(items@),
            v.len() == items.len(),
            !(map_scalar(op, v, s@, scalar_left) is Panics),
            i <= items.len(),
            map_scalar(op, v.take(i as int), s@, scalar_left) == Outcome::Value(view_items(out@)),
        decreases items.len() - i,
    {
        proof {
            lemma_item_size(v, i as int);
            assert(v.take(i + 1).drop_last() =~= v.take(i as int));
            assert(v.take(i + 1).last() == items@[i as int]@);
            let item_out = if scalar_left {
                arith_spec(op, s@, v[i as int])
            } else {
                arith_spec(op, v[i as int], s@)
            };
            if item_out is Panics {
                lemma_map_scalar_stuck(op, v, s@, scalar_left, i + 1, v.len() as int);
                assert(v.take(v.len() as int) =~= v);
            }
        }
        let res = if scalar_left {
            arith_ref(op, s, &items[i])
        } else {
            arith_ref(op, &items[i], s)
        };
        match res {
            Ok(d) => {
                out.push(d);
            },
            Err(e) => {
                proof {
                    lemma_map_scalar_stuck(op, v, s@, scalar_left, i + 1, v.len() as int);
                    assert(v.take(v.len() as int) =~= v);
                }
                return Err(e);
            },
        }
        i = i + 1;
    }
    assert(v.take(items.len() as int) =~= v);
    Ok(out)
}

/// `op` applied to the items of two lists over their common length.
fn each_zip(op: ArithOp, a: &Vec<Datum>, b: &Vec<Datum>) -> (r: Result<Vec<Datum>, ScriptError>)
    requires
        ({
            let m = min_len(a.len() as nat, b.len() as nat) as int;
            !(map_zip(op, view_items(a@).take(m), view_items(b@).take(m)) is Panics)
        }),
    ensures
        ({
            let m = min_len(a.len() as nat, b.len() as nat) as int;
            let o = map_zip(op, view_items(a@).take(m), view_items(b@).take(m));
            match r {
                Ok(v) => o == Outcome::Value(view_items(v@)),
                Err(e) => error_matches(o, e),
            }
        }),
    decreases items_size(view_items(a@)) + items_size(view_items(b@)), 2nat,
{
    let ghost va = view_items(a@);
    let ghost vb = view_items(b@);
    let n: usize = if a.len() < b.len() { a.len() } else { b.len() };
    let mut out: Vec<Datum> = Vec::new();
    let mut i: usize = 0;
    assert(va.take(0) =~= Seq::<DatumView>::empty());
    while i < n
        invariant
            va == view_items(a@),
            vb == view_items(b@),
            va.len() == a.len(),
            vb.len() == b.len(),
            n <= a.len(),
            n <= b.len(),
            n as nat == min_len(a.len() as nat, b.len() as nat),
            !(map_zip(op, va.take(n as int), vb.take(n as int)) is Panics),
            i <= n,
            map_zip(op, va.take(i as int), vb.take(i as int)) == Outcome::Value(view_items(out@)),
        decreases n - i,
    {
        proof {
            lemma_item_size(va, i as int);
            lemma_item_size(vb, i as int);
            assert(va.take(i + 1).drop_last() =~= va.take(i as int));
            assert(vb.take(i + 1).drop_last() =~= vb.take(i as int));
            assert(va.take(i + 1).last() == a@[i as int]@);
            assert(vb.take(i + 1).last() == b@[i as int]@);
            if arith_spec(op, va[i as int], vb[i as int]) is Panics {
                lemma_map_zip_stuck(op, va, vb, i + 1, n as int);
            }
        }
        match arith_ref(op, &a[i], &b[i]) {
            Ok(d) => {
                out.push(d);
            },
            Err(e) => {
                proof {
                    lemma_map_zip_stuck(op, va, vb, i + 1, n as int);
                }
                return Err(e);
            },
        }
        i = i + 1;
    }
    Ok(out)
}

/// `op` applied to the values of two property lists over their common length.
fn each_pair_values(op: ArithOp, a: &Vec<(Datum, Datum)>, b: &Vec<(Datum, Datum)>) -> (r: Result<
    Vec<Datum>,
    ScriptError,
>)
    requires
        ({
            let m = min_len(a.len() as nat, b.len() as nat) as int;
            !(map_pair_values(op, view_pairs(a@).take(m), view_pairs(b@).take(m)) is Panics)
        }),
    ensures
        ({
            let m = min_len(a.len() as nat, b.len() as nat) as int;
            let o = map_pair_values(op, view_pairs(a@).take(m), view_pairs(b@).take(m));
            match r {
                Ok(v) => o == Outcome::Value(view_items(v@)),
                Err(e) => error_matches(o, e),
            }
        }),
    decreases pairs_size(view_pairs(a@)) + pairs_size(view_pairs(b@)), 2nat,
{
    let ghost va = view_pairs(a@);
    let ghost vb = view_pairs(b@);
    let n: usize = if a.len() < b.len() { a.len() } else { b.len() };
    let mut out: Vec<Datum> = Vec::new();
    let mut i: usize = 0;
    assert(va.take(0) =~= Seq::<(DatumView, DatumView)>::empty());
    while i < n
        invariant
            va == view_pairs(a@),
            vb == view_pairs(b@),
            va.len() == a.len(),
            vb.len() == b.len(),
            n <= a.len(),
            n <= b.len(),
            n as nat == min_len(a.len() as nat, b.len() as nat),
            !(map_pair_values(op, va.take(n as int), vb.take(n as int)) is Panics),
            i <= n,
            map_pair_values(op, va.take(i as int), vb.take(i as int)) == Outcome::Value(
                view_items(out@),
            ),
        decreases n - i,
    {
        proof {
            lemma_pair_size(va, i as int);
            lemma_pair_size(vb, i as int);
            assert(va.take(i + 1).drop_last() =~= va.take(i as int));
            assert(vb.take(i + 1).drop_last() =~= vb.take(i as int));
            assert(va.take(i + 1).last() == (a@[i as int].0@, a@[i as int].1@));
            assert(vb.take(i + 1).last() == (b@[i as int].0@, b@[i as int].1@));
            if arith_spec(op, va[i as int].1, vb[i as int].1) is Panics {
                lemma_map_pair_values_stuck(op, va, vb, i + 1, n as int);
            }
        }
        match arith_ref(op, &a[i].1, &b[i].1) {
            Ok(d) => {
                out.push(d);
            },
            Err(e) => {
                proof {
                    lemma_map_pair_values_stuck(op, va, vb, i + 1, n as int);
                }
                return Err(e);
            },
        }
        i = i + 1;
    }
    Ok(out)
}

/// `op` applied to each value of a property list with a scalar on the right.
fn each_pair_scalar(op: ArithOp, pairs: &Vec<(Datum, Datum)>, s: &Datum) -> (r: Result<
    Vec<Datum>,
    ScriptError,
>)
    requires
        !(map_pair_scalar(op, view_pairs(pairs@), s@) is Panics),
    ensures
        match r {
            Ok(v) => map_pair_scalar(op, view_pairs(pairs@), s@) == Outcome::Value(view_items(v@)),
            Err(e) => error_matches(map_pair_scalar(op, view_pairs(pairs@), s@), e),
        },
    decreases pairs_size(view_pairs(pairs@)) + datum_size(s@), 2nat,
{
    let ghost v = view_pairs(pairs@);
    let mut out: Vec<Datum> = Vec::new();
    let mut i: usize = 0;
    assert(v.take(0) =~= Seq::<(DatumView, DatumView)>::empty());
    while i < pairs.len()
        invariant
            v == view_pairs(pairs@),
            v.len() == pairs.len(),
            !(map_pair_scalar(op, v, s@) is Panics),
            i <= pairs.len(),
            map_pair_scalar(op, v.take(i as int), s@) == Outcome::Value(view_items(out@)),
        decreases pairs.len() - i,
    {
        proof {
            lemma_pair_size(v, i as int);
            assert(v.take(i + 1).drop_last() =~= v.take(i as int));
            assert(v.take(i + 1).last() == (pairs@[i as int].0@, pairs@[i as int].1@));
            if arith_spec(op, v[i as int].1, s@) is Panics {
                lemma_map_pair_scalar_stuck(op, v, s@, i + 1, v.len() as int);
                assert(v.take(v.len() as int) =~= v);
            }
        }
        match arith_ref(op, &pairs[i].1, s) {
            Ok(d) => {
                out.push(d);
            },
            Err(e) => {
                proof {
                    lemma_map_pair_scalar_stuck(op, v, s@, i + 1, v.len() as int);
                    assert(v.take(v.len() as int) =~= v);
                }
                return Err(e);
            },
        }
        i = i + 1;
    }
    assert(v.take(pairs.len() as int) =~= v);
    Ok(out)
}

/// Pairs the keys of `keys` with the given values.
proof fn lemma_map_pair_values_len(
    op: ArithOp,
    a: Seq<(DatumView, DatumView)>,
    b: Seq<(DatumView, DatumView)>,
)
    requires
        a.len() == b.len(),
        map_pair_values(op, a, b) is Value,
    ensures
        map_pair_values(op, a, b)->Value_0.len() == a.len(),
    decreases a.len(),
{
    if a.len() > 0 {
        lemma_map_pair_values_len(op, a.drop_last(), b.drop_last());
    }
}

proof fn lemma_map_pair_scalar_len(op: ArithOp, pairs: Seq<(DatumView, DatumView)>, s: DatumView)
    requires
        map_pair_scalar(op, pairs, s) is Value,
    ensures
        map_pair_scalar(op, pairs, s)->Value_0.len() == pairs.len(),
    decreases pairs.len(),
{
    if pairs.len() > 0 {
        lemma_map_pair_scalar_len(op, pairs.drop_last(), s);
    }
}

fn with_keys(keys: &Vec<(Datum, Datum)>, values: Vec<Datum>) -> (r: Vec<(Datum, Datum)>)
    requires
        values.len() <= keys.len(),
    ensures
        view_pairs(r@) == Seq::new(
            view_items(values@).len(),
            |i: int| (view_pairs(keys@)[i].0, view_items(values@)[i]),
        ),
{
    let mut out: Vec<(Datum, Datum)> = Vec::new();
    let mut i: usize = 0;
    while i < values.len()
        invariant
            values.len() <= keys.len(),
            i <= values.len(),
            out@.len() == i,
            forall|j: int|
                0 <= j < i ==> (#[trigger] out@[j]).0@ == keys@[j].0@ && out@[j].1@ == values@[j]@,
        decreases values.len() - i,
    {
        let k = keys[i].0.clone();
        let v = values[i].clone();
        out.push((k, v));
        i = i + 1;
    }
    proof {
        assert forall|j: int| 0 <= j < values.len() implies view_pairs(out@)[j] == (
            view_pairs(keys@)[j].0,
            view_items(values@)[j],
        ) by {
            assert(view_pairs(out@)[j] == (out@[j].0@, out@[j].1@));
            assert(view_pairs(keys@)[j] == (keys@[j].0@, keys@[j].1@));
        }
        assert(view_pairs(out@) =~= Seq::new(
            view_items(values@).len(),
            |i: int| (view_pairs(keys@)[i].0, view_items(values@)[i]),
        ));
    }
    out
}

/// A symbol becomes the string of its name; any other value is unchanged.
fn to_operand(d: &Datum) -> (r: Datum)
    ensures
        r@ == as_text_operand(d@),
{
    match d {
        Datum::Symbol(s) => Datum::String(s.clone()),
        _ => d.clone(),
    }
}

fn point_result(x: i64, y: i64) -> (r: Result<Datum, ScriptError>)
    ensures
        outcome_matches(point_outcome(x as int, y as int), r),
{
    if i32::MIN as i64 <= x && x <= i32::MAX as i64 && i32::MIN as i64 <= y && y <= i32::MAX as i64 {
        Ok(Datum::Point(x as i32, y as i32))
    } else {
        Err(ScriptError::unrepresentable())
    }
}

fn rect_result(a: i64, b: i64, c: i64, d: i64) -> (r: Result<Datum, ScriptError>)
    ensures
        outcome_matches(rect_outcome(a as int, b as int, c as int, d as int), r),
{
    if i32::MIN as i64 <= a && a <= i32::MAX as i64 && i32::MIN as i64 <= b && b <= i32::MAX as i64
        && i32::MIN as i64 <= c && c <= i32::MAX as i64 && i32::MIN as i64 <= d && d
        <= i32::MAX as i64 {
        Ok(Datum::Rect(a as i32, b as i32, c as i32, d as i32))
    } else {
        Err(ScriptError::unrepresentable())
    }
}

/// The two integer items of a list read as a point.
fn list_point_vals(items: &Vec<Datum>) -> (r: Option<(i32, i32)>)
    ensures
        r == list_point(view_items(items@)),
{
    if items.len() != 2 {
        return None;
    }
    match (&items[0], &items[1]) {
        (Datum::Int(x), Datum::Int(y)) => Some((*x, *y)),
        _ => None,
    }
}

/// The four integer items of a list read as a rect.
fn list_rect_vals(items: &Vec<Datum>) -> (r: Option<(i32, i32, i32, i32)>)
    ensures
        r == list_rect(view_items(items@)),
{
    if items.len() != 4 {
        return None;
    }
    match (&items[0], &items[1], &items[2], &items[3]) {
        (Datum::Int(a), Datum::Int(b), Datum::Int(c), Datum::Int(d)) => Some((*a, *b, *c, *d)),
        _ => None,
    }
}

fn add_flat_exec(l: &Datum, r: &Datum) -> (res: Result<Datum, ScriptError>)
    ensures
        outcome_matches(add_flat(l@, r@), res),
{
    match (l, r) {
        (Datum::Void, _) => Ok(r.clone()),
        (_, Datum::Void) => Ok(l.clone()),
        (Datum::Int(a), Datum::Int(b)) => Ok(Datum::Int(a.wrapping_add(*b))),
        (Datum::Rect(a0, a1, a2, a3), Datum::Rect(b0, b1, b2, b3)) => rect_result(
            *a0 as i64 + *b0 as i64,
            *a1 as i64 + *b1 as i64,
            *a2 as i64 + *b2 as i64,
            *a3 as i64 + *b3 as i64,
        ),
        (Datum::Rect(a0, a1, a2, a3), Datum::List(items)) => match list_rect_vals(items) {
            Some((b0, b1, b2, b3)) => rect_result(
                *a0 as i64 + b0 as i64,
                *a1 as i64 + b1 as i64,
                *a2 as i64 + b2 as i64,
                *a3 as i64 + b3 as i64,
            ),
            None => Err(invalid_operands()),
        },
        (Datum::Rect(a0, a1, a2, a3), Datum::Int(b)) => rect_result(
            *a0 as i64 + *b as i64,
            *a1 as i64 + *b as i64,
            *a2 as i64 + *b as i64,
            *a3 as i64 + *b as i64,
        ),
        (Datum::Int(a), Datum::Rect(b0, b1, b2, b3)) => rect_result(
            *b0 as i64 + *a as i64,
            *b1 as i64 + *a as i64,
            *b2 as i64 + *a as i64,
            *b3 as i64 + *a as i64,
        ),
        (Datum::Rect(a0, a1, a2, a3), Datum::Point(x, y)) => rect_result(
            *a0 as i64 + *x as i64,
            *a1 as i64 + *y as i64,
            *a2 as i64 + *x as i64,
            *a3 as i64 + *y as i64,
        ),
        (Datum::Point(x, y), Datum::Rect(b0, b1, b2, b3)) => rect_result(
            *x as i64 + *b0 as i64,
            *y as i64 + *b1 as i64,
            *x as i64 + *b2 as i64,
            *y as i64 + *b3 as i64,
        ),
        (Datum::String(s), Datum::List(items)) => {
            let mut out = s.clone();
            write_concat_items(&mut out, items);
            Ok(Datum::String(out))
        },
        (Datum::List(items), Datum::String(s)) => {
            let mut out = String::new();
            write_concat_items(&mut out, items);
            out.append(s.as_str());
            Ok(Datum::String(out))
        },
        (Datum::Point(a0, a1), Datum::Point(b0, b1)) => point_result(
            *a0 as i64 + *b0 as i64,
            *a1 as i64 + *b1 as i64,
        ),
        (Datum::Point(a0, a1), Datum::List(items)) => match list_point_vals(items) {
            Some((b0, b1)) => point_result(*a0 as i64 + b0 as i64, *a1 as i64 + b1 as i64),
            None => Err(invalid_operands()),
        },
        (Datum::List(items), Datum::Point(b0, b1)) => match list_point_vals(items) {
            Some((a0, a1)) => point_result(a0 as i64 + *b0 as i64, a1 as i64 + *b1 as i64),
            None => Err(invalid_operands()),
        },
        (Datum::Point(a0, a1), Datum::Int(b)) => point_result(
            *a0 as i64 + *b as i64,
            *a1 as i64 + *b as i64,
        ),
        (Datum::Int(a), Datum::Point(b0, b1)) => point_result(
            *b0 as i64 + *a as i64,
            *b1 as i64 + *a as i64,
        ),
        (Datum::ColorRef(a), Datum::ColorRef(b)) => match (a, b) {
            (ColorRef::PaletteIndex(x), ColorRef::PaletteIndex(y)) => Ok(
                Datum::ColorRef(ColorRef::PaletteIndex(x.wrapping_add(*y))),
            ),
            (ColorRef::Rgb(ar, ag, ab), ColorRef::Rgb(br, bg, bb)) => Ok(
                Datum::ColorRef(
                    ColorRef::Rgb(ar.wrapping_add(*br), ag.wrapping_add(*bg), ab.wrapping_add(*bb)),
                ),
            ),
            _ => Err(invalid_operands()),
        },
        (Datum::String(_), Datum::Int(_)) => Err(ScriptError::unrepresentable()),
        (Datum::Int(_), Datum::String(_)) => Err(ScriptError::unrepresentable()),
        (Datum::String(s), _) => {
            let mut out = s.clone();
            write_concat_text(&mut out, r);
            Ok(Datum::String(out))
        },
        _ => Err(invalid_operands()),
    }
}

fn sub_flat_exec(l: &Datum, r: &Datum) -> (res: Result<Datum, ScriptError>)
    ensures
        outcome_matches(sub_flat(l@, r@), res),
{
    match (l, r) {
        (Datum::Void, Datum::Void) => Ok(Datum::Int(0)),
        (Datum::Void, Datum::Int(b)) => Ok(Datum::Int(0i32.wrapping_sub(*b))),
        (Datum::Int(a), Datum::Void) => Ok(Datum::Int(*a)),
        (Datum::Int(a), Datum::Int(b)) => Ok(Datum::Int(a.wrapping_sub(*b))),
        (Datum::Rect(a0, a1, a2, a3), Datum::Rect(b0, b1, b2, b3)) => rect_result(
            *a0 as i64 - *b0 as i64,
            *a1 as i64 - *b1 as i64,
            *a2 as i64 - *b2 as i64,
            *a3 as i64 - *b3 as i64,
        ),
        (Datum::Rect(a0, a1, a2, a3), Datum::List(items)) => match list_rect_vals(items) {
            Some((b0, b1, b2, b3)) => rect_result(
                *a0 as i64 - b0 as i64,
                *a1 as i64 - b1 as i64,
                *a2 as i64 - b2 as i64,
                *a3 as i64 - b3 as i64,
            ),
            None => Err(invalid_operands()),
        },
        (Datum::Rect(a0, a1, a2, a3), Datum::Int(b)) => rect_result(
            *a0 as i64 - *b as i64,
            *a1 as i64 - *b as i64,
            *a2 as i64 - *b as i64,
            *a3 as i64 - *b as i64,
        ),
        (Datum::Rect(a0, a1, a2, a3), Datum::Point(x, y)) => rect_result(
            *a0 as i64 - *x as i64,
            *a1 as i64 - *y as i64,
            *a2 as i64 - *x as i64,
            *a3 as i64 - *y as i64,
        ),
        (Datum::Point(a0, a1), Datum::Point(b0, b1)) => point_result(
            *a0 as i64 - *b0 as i64,
            *a1 as i64 - *b1 as i64,
        ),
        (Datum::Point(a0, a1), Datum::List(items)) => match list_point_vals(items) {
            Some((b0, b1)) => point_result(*a0 as i64 - b0 as i64, *a1 as i64 - b1 as i64),
            None => Err(invalid_operands()),
        },
        (Datum::List(items), Datum::Point(b0, b1)) => match list_point_vals(items) {
            Some((a0, a1)) => point_result(a0 as i64 - *b0 as i64, a1 as i64 - *b1 as i64),
            None => Err(invalid_operands()),
        },
        (Datum::Int(a), Datum::Point(b0, b1)) => point_result(
            *a as i64 - *b0 as i64,
            *a as i64 - *b1 as i64,
        ),
        (Datum::Point(a0, a1), Datum::Int(b)) => point_result(
            *a0 as i64 - *b as i64,
            *a1 as i64 - *b as i64,
        ),
        (Datum::ColorRef(a), Datum::ColorRef(b)) => match (a, b) {
            (ColorRef::PaletteIndex(x), ColorRef::PaletteIndex(y)) => Ok(
                Datum::ColorRef(ColorRef::PaletteIndex(x.wrapping_sub(*y))),
            ),
            (ColorRef::Rgb(ar, ag, ab), ColorRef::Rgb(br, bg, bb)) => Ok(
                Datum::ColorRef(
                    ColorRef::Rgb(
                        ar.saturating_sub(*br),
                        ag.saturating_sub(*bg),
                        ab.saturating_sub(*bb),
                    ),
                ),
            ),
            _ => Err(invalid_operands()),
        },
        (Datum::String(_), Datum::String(_)) => Err(ScriptError::unrepresentable()),
        (Datum::String(_), Datum::Int(_)) => Err(ScriptError::unrepresentable()),
        (Datum::Int(_), Datum::String(_)) => Err(ScriptError::unrepresentable()),
        (Datum::Void, _) => Ok(r.clone()),
        (_, Datum::Void) => Ok(l.clone()),
        _ => Err(invalid_operands()),
    }
}

/// The exact product of two 32-bit integers.
fn mul_wide(a: i32, b: i32) -> (r: i64)
    ensures
        r as int == a as int * b as int,
{
    proof {
        assert(-4611686018427387904 <= a as int * b as int <= 4611686018427387904) by (nonlinear_arith)
            requires
                -2147483648 <= a <= 2147483647,
                -2147483648 <= b <= 2147483647,
        ;
    }
    a as i64 * b as i64
}

fn clamp_channel_exec(v: i64) -> (c: u8)
    ensures
        c == clamp_channel(v as int),
{
    if v < 0 {
        0
    } else if v > 255 {
        255
    } else {
        v as u8
    }
}

fn scale_color_exec(c: &ColorRef, s: i32) -> (r: ColorRef)
    ensures
        r == scale_color(*c, s as int),
{
    match c {
        ColorRef::Rgb(r, g, b) => ColorRef::Rgb(
            clamp_channel_exec(mul_wide(*r as i32, s)),
            clamp_channel_exec(mul_wide(*g as i32, s)),
            clamp_channel_exec(mul_wide(*b as i32, s)),
        ),
        _ => *c,
    }
}

fn mul_flat_exec(l: &Datum, r: &Datum) -> (res: Result<Datum, ScriptError>)
    ensures
        outcome_matches(mul_flat(l@, r@), res),
{
    match (l, r) {
        (Datum::Void, Datum::Void) => Ok(Datum::Int(0)),
        (Datum::Void, Datum::Int(_)) => Ok(Datum::Int(0)),
        (Datum::Int(_), Datum::Void) => Ok(Datum::Int(0)),
        (Datum::Point(_, _), Datum::Void) => Ok(Datum::Point(0, 0)),
        (Datum::Void, Datum::Point(_, _)) => Ok(Datum::Point(0, 0)),
        (Datum::Int(a), Datum::Int(b)) => Ok(Datum::Int(a.wrapping_mul(*b))),
        (Datum::ColorRef(c), Datum::Int(s)) => Ok(Datum::ColorRef(scale_color_exec(c, *s))),
        (Datum::Int(s), Datum::ColorRef(c)) => Ok(Datum::ColorRef(scale_color_exec(c, *s))),
        (Datum::Rect(a0, a1, a2, a3), Datum::Int(s)) => rect_result(
            mul_wide(*a0, *s),
            mul_wide(*a1, *s),
            mul_wide(*a2, *s),
            mul_wide(*a3, *s),
        ),
        (Datum::Point(a0, a1), Datum::Int(s)) => point_result(
            mul_wide(*a0, *s),
            mul_wide(*a1, *s),
        ),
        (Datum::Int(s), Datum::Point(b0, b1)) => point_result(
            mul_wide(*b0, *s),
            mul_wide(*b1, *s),
        ),
        (Datum::Point(a0, a1), Datum::Point(b0, b1)) => point_result(
            mul_wide(*a0, *b0),
            mul_wide(*a1, *b1),
        ),
        (Datum::String(t), Datum::Int(b)) => if *b == 0 {
            Ok(Datum::Int(0))
        } else if reads_as_float(t.as_str()) {
            Err(ScriptError::unrepresentable())
        } else {
            Ok(Datum::Int(123456789))
        },
        (Datum::Int(_), Datum::String(_)) => Err(ScriptError::unrepresentable()),
        (Datum::Point(a0, a1), Datum::List(items)) => match list_point_vals(items) {
            Some((b0, b1)) => point_result(mul_wide(*a0, b0), mul_wide(*a1, b1)),
            None => Err(invalid_operands()),
        },
        (Datum::List(items), Datum::Point(b0, b1)) => match list_point_vals(items) {
            Some((a0, a1)) => point_result(mul_wide(a0, *b0), mul_wide(a1, *b1)),
            None => Err(invalid_operands()),
        },
        _ => Err(invalid_operands()),
    }
}

/// Truncating division with a zero divisor counting as 1.
fn int_div(a: i32, b: i32) -> (q: i32)
    requires
        !(int_div_outcome(a, b) is Panics),
    ensures
        int_div_outcome(a, b) == Outcome::Value(q),
{
    let d: i32 = if b == 0 { 1 } else { b };
    match a.checked_div(d) {
        Some(q) => q,
        None => {
            proof {
                assert(false);
            }
            0
        },
    }
}

fn point_div_point_exec(a0: i32, a1: i32, b0: i32, b1: i32) -> (r: Datum)
    requires
        !(point_div_point(a0, a1, b0, b1) is Panics),
    ensures
        point_div_point(a0, a1, b0, b1) == Outcome::Value(r@),
{
    let x: i32 = if b0 == 0 {
        0
    } else {
        match a0.checked_div(b0) {
            Some(q) => q,
            None => 0,
        }
    };
    let y: i32 = if b1 == 0 {
        0
    } else {
        match a1.checked_div(b1) {
            Some(q) => q,
            None => 0,
        }
    };
    Datum::Point(x, y)
}

fn div_flat_exec(l: &Datum, r: &Datum) -> (res: Result<Datum, ScriptError>)
    requires
        !(div_flat(l@, r@) is Panics),
    ensures
        outcome_matches(div_flat(l@, r@), res),
{
    match (l, r) {
        (Datum::Void, _) => Ok(Datum::Int(0)),
        (Datum::Int(_), Datum::Void) => Ok(Datum::Int(0)),
        (Datum::Int(a), Datum::Int(b)) => Ok(Datum::Int(int_div(*a, *b))),
        (Datum::Point(a0, a1), Datum::Int(b)) => Ok(Datum::Point(int_div(*a0, *b), int_div(*a1, *b))),
        (Datum::Point(a0, a1), Datum::Point(b0, b1)) => Ok(point_div_point_exec(*a0, *a1, *b0, *b1)),
        (Datum::Point(a0, a1), Datum::List(items)) => if items.len() == 2 {
            match list_point_vals(items) {
                Some((b0, b1)) => Ok(point_div_point_exec(*a0, *a1, b0, b1)),
                None => Err(invalid_operands()),
            }
        } else {
            Err(invalid_operands())
        },
        (Datum::Rect(a0, a1, a2, a3), Datum::Int(b)) => Ok(
            Datum::Rect(int_div(*a0, *b), int_div(*a1, *b), int_div(*a2, *b), int_div(*a3, *b)),
        ),
        (Datum::Int(_), Datum::String(_)) => Err(ScriptError::unrepresentable()),
        (Datum::String(_), Datum::Int(_)) => Err(ScriptError::unrepresentable()),
        (Datum::ColorRef(c), Datum::Int(b)) => {
            if *b == 0 {
                Ok(Datum::Int(0))
            } else {
                let v: i32 = color_ref_to_i32(c);
                match v.checked_div(*b) {
                    Some(q) => Ok(Datum::Int(q)),
                    None => Ok(Datum::Int(0)),
                }
            }
        },
        (Datum::Int(a), Datum::ColorRef(c)) => {
            let d: i32 = color_ref_to_i32(c);
            if d == 0 {
                Ok(Datum::Int(0))
            } else {
                match a.checked_div(d) {
                    Some(q) => Ok(Datum::Int(q)),
                    None => Ok(Datum::Int(0)),
                }
            }
        },
        _ => Err(invalid_operands()),
    }
}

fn color_ref_to_i32(c: &ColorRef) -> (v: i32)
    ensures
        v as int == color_int(*c),
{
    match c {
        ColorRef::PaletteIndex(i) => *i as i32,
        ColorRef::Rgb(r, g, b) => (*r as i32) * 65536 + (*g as i32) * 256 + (*b as i32),
    }
}

/// Lingo arithmetic on two datums; see `arith_spec`.
#[verifier::rlimit(60)]
pub fn arith_ref(op: ArithOp, l: &Datum, r: &Datum) -> (res: Result<Datum, ScriptError>)
    requires
        !(arith_spec(op, l@, r@) is Panics),
    ensures
        outcome_matches(arith_spec(op, l@, r@), res),
    decreases datum_size(l@) + datum_size(r@), op_rank(op),
{
    if let ArithOp::MulItem = op {
        return match (l, r) {
            (Datum::Int(n), Datum::Int(s)) => Ok(Datum::Int(n.wrapping_mul(*s))),
            (Datum::List(_), _) | (Datum::Point(_, _), _) | (Datum::Rect(_, _, _, _), _) => arith_ref(
                ArithOp::Mul,
                l,
                r,
            ),
            _ => Err(invalid_operands()),
        };
    }
    let lc = to_operand(l);
    let rc = to_operand(r);
    match (&lc, &rc) {
        (Datum::List(a), Datum::List(b)) => {
            if let ArithOp::Div = op {
                return Err(invalid_operands());
            }
            return match each_zip(op, a, b) {
                Ok(v) => Ok(Datum::List(v)),
                Err(e) => Err(e),
            };
        },
        (Datum::List(items), Datum::Int(_)) => {
            let item_op = if let ArithOp::Mul = op {
                ArithOp::MulItem
            } else {
                op
            };
            return match each_scalar(item_op, items, &rc, false) {
                Ok(v) => Ok(Datum::List(v)),
                Err(e) => Err(e),
            };
        },
        (Datum::Int(_), Datum::List(items)) => {
            return match op {
                ArithOp::Mul => match each_scalar(ArithOp::MulItem, items, &lc, false) {
                    Ok(v) => Ok(Datum::List(v)),
                    Err(e) => Err(e),
                },
                ArithOp::Div => Err(invalid_operands()),
                _ => match each_scalar(op, items, &lc, true) {
                    Ok(v) => Ok(Datum::List(v)),
                    Err(e) => Err(e),
                },
            };
        },
        (Datum::PropList(a), Datum::PropList(b)) => {
            return match op {
                ArithOp::Add | ArithOp::Sub => match each_pair_values(op, a, b) {
                    Ok(v) => {
                        let ghost vs = view_items(v@);
                        proof {
                            let m = min_len(a.len() as nat, b.len() as nat) as int;
                            lemma_map_pair_values_len(op, view_pairs(a@).take(m), view_pairs(b@).take(m));
                        }
                        let pairs = with_keys(a, v);
                        proof {
                            assert(view_pairs(pairs@) =~= Seq::new(
                                vs.len(),
                                |i: int| (view_pairs(a@)[i].0, vs[i]),
                            ));
                        }
                        Ok(Datum::PropList(pairs))
                    },
                    Err(e) => Err(e),
                },
                _ => Err(invalid_operands()),
            };
        },
        (Datum::PropList(pairs), Datum::Int(_)) => {
            if let ArithOp::Mul = op {
                return match each_pair_scalar(ArithOp::Mul, pairs, &rc) {
                    Ok(v) => {
                        proof {
                            lemma_map_pair_scalar_len(ArithOp::Mul, view_pairs(pairs@), rc@);
                        }
                        Ok(Datum::PropList(with_keys(pairs, v)))
                    },
                    Err(e) => Err(e),
                };
            }
        },
        (Datum::Int(_), Datum::PropList(pairs)) => {
            if let ArithOp::Mul = op {
                return match each_pair_scalar(ArithOp::Mul, pairs, &lc) {
                    Ok(v) => {
                        proof {
                            lemma_map_pair_scalar_len(ArithOp::Mul, view_pairs(pairs@), lc@);
                        }
                        Ok(Datum::PropList(with_keys(pairs, v)))
                    },
                    Err(e) => Err(e),
                };
            }
        },
        _ => {},
    }
    match op {
        ArithOp::Add => add_flat_exec(&lc, &rc),
        ArithOp::Sub => sub_flat_exec(&lc, &rc),
        ArithOp::Mul => mul_flat_exec(&lc, &rc),
        _ => div_flat_exec(&lc, &rc),
    }
}

/// `left + right`.
pub fn add_datums(left: Datum, right: Datum) -> (res: Result<Datum, ScriptError>)
    ensures
        outcome_matches(arith_spec(ArithOp::Add, left@, right@), res),
{
    proof {
        lemma_arith_no_panic(ArithOp::Add, left@, right@);
    }
    arith_ref(ArithOp::Add, &left, &right)
}

/// `left - right`.
pub fn subtract_datums(left: Datum, right: Datum) -> (res: Result<Datum, ScriptError>)
    ensures
        outcome_matches(arith_spec(ArithOp::Sub, left@, right@), res),
{
    proof {
        lemma_arith_no_panic(ArithOp::Sub, left@, right@);
    }
    arith_ref(ArithOp::Sub, &left, &right)
}

/// `left * right`, on the datums the two references name.
pub fn multiply_datums(left_ref: &DatumRef, right_ref: &DatumRef, allocator: &DatumAllocator) -> (res:
    Result<Datum, ScriptError>)
    requires
        allocator.wf(),
        allocator.holds(*left_ref),
        allocator.holds(*right_ref),
    ensures
        outcome_matches(
            arith_spec(ArithOp::Mul, allocator.value_of(*left_ref), allocator.value_of(*right_ref)),
            res,
        ),
{
    let left = allocator.get_datum(left_ref);
    let right = allocator.get_datum(right_ref);
    proof {
        lemma_arith_no_panic(ArithOp::Mul, left@, right@);
    }
    arith_ref(ArithOp::Mul, &left, &right)
}

/// `left / right`, on the datums the two references name.
pub fn divide_datums(left: &DatumRef, right: &DatumRef, allocator: &DatumAllocator) -> (res: Result<
    Datum,
    ScriptError,
>)
    requires
        allocator.wf(),
        allocator.holds(*left),
        allocator.holds(*right),
        !(arith_spec(ArithOp::Div, allocator.value_of(*left), allocator.value_of(*right)) is Panics),
    ensures
        outcome_matches(
            arith_spec(ArithOp::Div, allocator.value_of(*left), allocator.value_of(*right)),
            res,
        ),
{
    let l = allocator.get_datum(left);
    let r = allocator.get_datum(right);
    arith_ref(ArithOp::Div, &l, &r)
}

/// `left & right`: the two values' text, joined.
pub fn concat_datums(left: Datum, right: Datum) -> (res: Result<Datum, ScriptError>)
    ensures
        res matches Ok(d) && d@ == DatumView::String(concat_text(left@) + concat_text(right@)),
{
    let mut s = datum_to_string_for_concat(&left);
    write_concat_text(&mut s, &right);
    Ok(Datum::String(s))
}


/// Whether integer division panics: only the least integer over -1 does.
fn int_div_panics(a: i32, b: i32) -> (p: bool)
    ensures
        p == (int_div_outcome(a, b) is Panics),
{
    let d: i32 = if b == 0 { 1 } else { b };
    a.checked_div(d).is_none()
}

/// Whether a zero-safe component quotient panics.
fn component_div_panics(a: i32, b: i32) -> (p: bool)
    ensures
        p == (b != 0 && a.checked_div(b) is None),
{
    b != 0 && a.checked_div(b).is_none()
}

/// Whether `div_flat` panics on two values.
fn div_flat_panics(l: &Datum, r: &Datum) -> (p: bool)
    ensures
        p == (div_flat(l@, r@) is Panics),
{
    match (l, r) {
        (Datum::Int(a), Datum::Int(b)) => int_div_panics(*a, *b),
        (Datum::Point(a0, a1), Datum::Int(b)) => int_div_panics(*a0, *b) || int_div_panics(*a1, *b),
        (Datum::Point(a0, a1), Datum::Point(b0, b1)) => component_div_panics(*a0, *b0)
            || component_div_panics(*a1, *b1),
        (Datum::Point(a0, a1), Datum::List(items)) => if items.len() == 2 {
            match list_point_vals(items) {
                Some((b0, b1)) => component_div_panics(*a0, b0) || component_div_panics(*a1, b1),
                None => false,
            }
        } else {
            false
        },
        (Datum::Rect(a0, a1, a2, a3), Datum::Int(b)) => int_div_panics(*a0, *b) || int_div_panics(*a1, *b)
            || int_div_panics(*a2, *b) || int_div_panics(*a3, *b),
        (Datum::ColorRef(c), Datum::Int(b)) => {
            let v: i32 = color_ref_to_i32(c);
            *b != 0 && v.checked_div(*b).is_none()
        },
        (Datum::Int(a), Datum::ColorRef(c)) => {
            let d: i32 = color_ref_to_i32(c);
            d != 0 && a.checked_div(d).is_none()
        },
        _ => false,
    }
}

/// Whether Lingo division of `l` by `r` panics (see `arith_spec`): somewhere
/// the least integer is divided by -1 before any item fails.
pub fn div_would_panic(l: &Datum, r: &Datum) -> (p: bool)
    ensures
        p == (arith_spec(ArithOp::Div, l@, r@) is Panics),
    decreases datum_size(l@) + datum_size(r@),
{
    match (l, r) {
        (Datum::List(items), Datum::Int(_)) => {
            let ghost v = view_items(items@);
            let mut i: usize = 0;
            assert(v.take(0) =~= Seq::<DatumView>::empty());
            while i < items.len()
                invariant
                    v == view_items(items@),
                    v.len() == items.len(),
                    l@ == DatumView::List(v),
                    r@ is Int,
                    i <= items.len(),
                    map_scalar(ArithOp::Div, v.take(i as int), r@, false) is Value,
                decreases items.len() - i,
            {
                proof {
                    lemma_item_size(v, i as int);
                    assert(v.take(i + 1).drop_last() =~= v.take(i as int));
                    assert(v.take(i + 1).last() == items@[i as int]@);
                }
                if div_would_panic(&items[i], r) {
                    proof {
                        lemma_map_scalar_stuck(ArithOp::Div, v, r@, false, i + 1, v.len() as int);
                        assert(v.take(v.len() as int) =~= v);
                    }
                    return true;
                }
                match arith_ref(ArithOp::Div, &items[i], r) {
                    Ok(_) => {},
                    Err(_) => {
                        proof {
                            lemma_map_scalar_stuck(ArithOp::Div, v, r@, false, i + 1, v.len() as int);
                            assert(v.take(v.len() as int) =~= v);
                        }
                        return false;
                    },
                }
                i = i + 1;
            }
            assert(v.take(v.len() as int) =~= v);
            false
        },
        (Datum::Symbol(_), _) => false,
        (_, Datum::Symbol(_)) => false,
        (Datum::List(_), _) => false,
        (Datum::PropList(_), _) => false,
        (Datum::Int(_), Datum::List(_)) => false,
        (Datum::Int(_), Datum::PropList(_)) => false,
        _ => div_flat_panics(l, r),
    }
}

} // verus!
