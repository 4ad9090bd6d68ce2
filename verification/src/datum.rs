//! The value model of a Lingo datum, and the error type scripts raise.
//!
//! Numbers are 32-bit integers: a point or rect component is one integer
//! component. Results that only a floating-point value could hold are
//! reported as `ScriptErrorCode::Unrepresentable` by the operations.
use vstd::prelude::*;

verus! {

/// Why a script operation failed.
#[derive(Clone, Copy, Debug, PartialEq, Eq, Structural)]
pub enum ScriptErrorCode {
    /// An ordinary script error.
    Generic,
    /// The script was aborted on purpose; not reported to the user.
    Abort,
    /// The result is a floating-point value, which this integer model does not hold.
    Unrepresentable,
}

/// An error raised while running a script.
#[derive(Debug)]
pub struct ScriptError {
    pub code: ScriptErrorCode,
    pub message: String,
}

impl ScriptError {
    /// An ordinary script error with the given message.
    pub fn new(message: String) -> (e: ScriptError)
        ensures
            e.code == ScriptErrorCode::Generic,
            e.message@ == message@,
    {
        ScriptError { code: ScriptErrorCode::Generic, message }
    }

    /// The error for a result the integer model cannot hold.
    pub fn unrepresentable() -> (e: ScriptError)
        ensures
            e.code == ScriptErrorCode::Unrepresentable,
            e.message@ == "result is not an integer value"@,
    {
        ScriptError {
            code: ScriptErrorCode::Unrepresentable,
            message: String::from_str("result is not an integer value"),
        }
    }
}

/// A Director color: a palette index or an RGB triple.
#[derive(Clone, Copy, Debug, PartialEq, Eq, Structural)]
pub enum ColorRef {
    PaletteIndex(u8),
    Rgb(u8, u8, u8),
}

/// A cast member addressed by cast library and member number.
#[derive(Clone, Copy, Debug, PartialEq, Eq, Structural)]
pub struct CastMemberRef {
    pub cast_lib: i32,
    pub cast_member: i32,
}

impl CastMemberRef {
    /// A reference names a member only when both numbers are positive.
    pub open spec fn spec_is_valid(self) -> bool {
        self.cast_lib > 0 && self.cast_member > 0
    }

    /// Whether the reference names a member.
    pub fn is_valid(&self) -> (r: bool)
        ensures
            r == self.spec_is_valid(),
    {
        self.cast_lib > 0 && self.cast_member > 0
    }
}

/// A Lingo value.
#[derive(Debug)]
pub enum Datum {
    Void,
    Null,
    Int(i32),
    String(String),
    Symbol(String),
    List(Vec<Datum>),
    PropList(Vec<(Datum, Datum)>),
    Point(i32, i32),
    Rect(i32, i32, i32, i32),
    ColorRef(ColorRef),
    CastLib(u32),
    Stage,
    CastMember(CastMemberRef),
    SpriteRef(i16),
    PlayerRef,
    MovieRef,
    TimeoutRef(String),
    TimeoutFactory,
    XmlRef(u32),
    Xtra(String),
    XtraInstance(String, u32),
}

/// The mathematical value of a datum: strings as character sequences and
/// lists as sequences of values.
#[verifier::ext_equal]
pub enum DatumView {
    Void,
    Null,
    Int(i32),
    String(Seq<char>),
    Symbol(Seq<char>),
    List(Seq<DatumView>),
    PropList(Seq<(DatumView, DatumView)>),
    Point(i32, i32),
    Rect(i32, i32, i32, i32),
    ColorRef(ColorRef),
    CastLib(u32),
    Stage,
    CastMember(CastMemberRef),
    SpriteRef(i16),
    PlayerRef,
    MovieRef,
    TimeoutRef(Seq<char>),
    TimeoutFactory,
    XmlRef(u32),
    Xtra(Seq<char>),
    XtraInstance(Seq<char>, u32),
}

/// The values of a sequence of datums.
pub open spec fn view_items(items: Seq<Datum>) -> Seq<DatumView>
    decreases items,
{
    if items.len() == 0 {
        Seq::empty()
    } else {
        view_items(items.drop_last()).push(view_datum(items.last()))
    }
}

/// The values of a sequence of property pairs.
pub open spec fn view_pairs(pairs: Seq<(Datum, Datum)>) -> Seq<(DatumView, DatumView)>
    decreases pairs,
{
    if pairs.len() == 0 {
        Seq::empty()
    } else {
        view_pairs(pairs.drop_last()).push(
            (view_datum(pairs.last().0), view_datum(pairs.last().1)),
        )
    }
}

/// The value of a datum.
pub open spec fn view_datum(d: Datum) -> DatumView
    decreases d,
{
    match d {
        Datum::Void => DatumView::Void,
        Datum::Null => DatumView::Null,
        Datum::Int(i) => DatumView::Int(i),
        Datum::String(s) => DatumView::String(s@),
        Datum::Symbol(s) => DatumView::Symbol(s@),
        Datum::List(items) => DatumView::List(view_items(items@)),
        Datum::PropList(pairs) => DatumView::PropList(view_pairs(pairs@)),
        Datum::Point(x, y) => DatumView::Point(x, y),
        Datum::Rect(a, b, c, e) => DatumView::Rect(a, b, c, e),
        Datum::ColorRef(c) => DatumView::ColorRef(c),
        Datum::CastLib(n) => DatumView::CastLib(n),
        Datum::Stage => DatumView::Stage,
        Datum::CastMember(m) => DatumView::CastMember(m),
        Datum::SpriteRef(n) => DatumView::SpriteRef(n),
        Datum::PlayerRef => DatumView::PlayerRef,
        Datum::MovieRef => DatumView::MovieRef,
        Datum::TimeoutRef(s) => DatumView::TimeoutRef(s@),
        Datum::TimeoutFactory => DatumView::TimeoutFactory,
        Datum::XmlRef(n) => DatumView::XmlRef(n),
        Datum::Xtra(s) => DatumView::Xtra(s@),
        Datum::XtraInstance(s, n) => DatumView::XtraInstance(s@, n),
    }
}

impl View for Datum {
    type V = DatumView;

    open spec fn view(&self) -> DatumView {
        view_datum(*self)
    }
}

proof fn lemma_view_items_len(items: Seq<Datum>)
    ensures
        view_items(items).len() == items.len(),
        forall|i: int| 0 <= i < items.len() ==> view_items(items)[i] == view_datum(#[trigger] items[i]),
    decreases items.len(),
{
    if items.len() > 0 {
        let prefix = items.drop_last();
        lemma_view_items_len(prefix);
        assert forall|i: int| 0 <= i < items.len() implies view_items(items)[i] == view_datum(
            #[trigger] items[i],
        ) by {
            if i < items.len() - 1 {
                assert(items[i] == prefix[i]);
            }
        }
    }
}

proof fn lemma_view_pairs_len(pairs: Seq<(Datum, Datum)>)
    ensures
        view_pairs(pairs).len() == pairs.len(),
        forall|i: int|
            0 <= i < pairs.len() ==> view_pairs(pairs)[i] == (
                view_datum(#[trigger] pairs[i].0),
                view_datum(pairs[i].1),
            ),
    decreases pairs.len(),
{
    if pairs.len() > 0 {
        let prefix = pairs.drop_last();
        lemma_view_pairs_len(prefix);
        assert forall|i: int| 0 <= i < pairs.len() implies view_pairs(pairs)[i] == (
            view_datum(#[trigger] pairs[i].0),
            view_datum(pairs[i].1),
        ) by {
            if i < pairs.len() - 1 {
                assert(pairs[i] == prefix[i]);
            }
        }
    }
}

/// The values of a sequence of datums, element by element.
pub broadcast proof fn lemma_view_items(items: Seq<Datum>)
    ensures
        (#[trigger] view_items(items)).len() == items.len(),
        forall|i: int| 0 <= i < items.len() ==> view_items(items)[i] == view_datum(#[trigger] items[i]),
{
    lemma_view_items_len(items);
}

/// The values of a sequence of pairs, element by element.
pub broadcast proof fn lemma_view_pairs(pairs: Seq<(Datum, Datum)>)
    ensures
        (#[trigger] view_pairs(pairs)).len() == pairs.len(),
        forall|i: int|
            0 <= i < pairs.len() ==> view_pairs(pairs)[i] == (
                view_datum(#[trigger] pairs[i].0),
                view_datum(pairs[i].1),
            ),
{
    lemma_view_pairs_len(pairs);
}

/// Viewing a sequence with one more item appends that item's value.
pub broadcast proof fn lemma_view_items_push(items: Seq<Datum>, d: Datum)
    ensures
        #[trigger] view_items(items.push(d)) == view_items(items).push(view_datum(d)),
{
    assert(items.push(d).drop_last() =~= items);
}

/// Viewing a sequence of pairs with one more pair appends that pair's values.
pub broadcast proof fn lemma_view_pairs_push(pairs: Seq<(Datum, Datum)>, p: (Datum, Datum))
    ensures
        #[trigger] view_pairs(pairs.push(p)) == view_pairs(pairs).push(
            (view_datum(p.0), view_datum(p.1)),
        ),
{
    assert(pairs.push(p).drop_last() =~= pairs);
}

/// Copies a datum, nested lists included.
pub fn clone_datum(d: &Datum) -> (r: Datum)
    ensures
        r@ == d@,
    decreases d,
{
    broadcast use lemma_view_items, lemma_view_pairs;
    match d {
        Datum::Void => Datum::Void,
        Datum::Null => Datum::Null,
        Datum::Int(i) => Datum::Int(*i),
        Datum::String(s) => Datum::String(s.clone()),
        Datum::Symbol(s) => Datum::Symbol(s.clone()),
        Datum::List(items) => {
            let mut out: Vec<Datum> = Vec::new();
            let mut i: usize = 0;
            while i < items.len()
                invariant
                    *d == Datum::List(*items),
                    i <= items.len(),
                    out@.len() == i,
                    forall|j: int| 0 <= j < i ==> (#[trigger] out@[j])@ == items@[j]@,
                decreases items.len() - i,
            {
                proof {
                    assert(decreases_to!(*d => d->List_0));
                    assert(decreases_to!(*items => items[i as int]));
                }
                let item = clone_datum(&items[i]);
                out.push(item);
                i = i + 1;
            }
            proof {
                lemma_view_items(out@);
                lemma_view_items(items@);
                assert(out@.len() == items@.len());
                assert forall|j: int| 0 <= j < items@.len() implies view_items(out@)[j] == view_items(items@)[j] by {
                    assert(out@[j]@ == items@[j]@);
                }
                assert(view_items(out@) =~= view_items(items@));
            }
            Datum::List(out)
        },
        Datum::PropList(pairs) => {
            let mut out: Vec<(Datum, Datum)> = Vec::new();
            let mut i: usize = 0;
            while i < pairs.len()
                invariant
                    *d == Datum::PropList(*pairs),
                    i <= pairs.len(),
                    out@.len() == i,
                    forall|j: int|
                        0 <= j < i ==> (#[trigger] out@[j]).0@ == pairs@[j].0@ && out@[j].1@
                            == pairs@[j].1@,
                decreases pairs.len() - i,
            {
                proof {
                    assert(decreases_to!(*d => d->PropList_0));
                    assert(decreases_to!(*pairs => pairs[i as int]));
                    assert(decreases_to!(pairs[i as int] => pairs[i as int].0));
                    assert(decreases_to!(pairs[i as int] => pairs[i as int].1));
                }
                let k = clone_datum(&pairs[i].0);
                let v = clone_datum(&pairs[i].1);
                out.push((k, v));
                i = i + 1;
            }
            proof {
                lemma_view_pairs(out@);
                lemma_view_pairs(pairs@);
                assert forall|j: int| 0 <= j < pairs@.len() implies view_pairs(out@)[j] == view_pairs(pairs@)[j] by {
                    assert(out@[j].0@ == pairs@[j].0@);
                    assert(out@[j].1@ == pairs@[j].1@);
                }
                assert(view_pairs(out@) =~= view_pairs(pairs@));
            }
            Datum::PropList(out)
        },
        Datum::Point(x, y) => Datum::Point(*x, *y),
        Datum::Rect(a, b, c, e) => Datum::Rect(*a, *b, *c, *e),
        Datum::ColorRef(c) => Datum::ColorRef(*c),
        Datum::CastLib(n) => Datum::CastLib(*n),
        Datum::Stage => Datum::Stage,
        Datum::CastMember(m) => Datum::CastMember(*m),
        Datum::SpriteRef(n) => Datum::SpriteRef(*n),
        Datum::PlayerRef => Datum::PlayerRef,
        Datum::MovieRef => Datum::MovieRef,
        Datum::TimeoutRef(s) => Datum::TimeoutRef(s.clone()),
        Datum::TimeoutFactory => Datum::TimeoutFactory,
        Datum::XmlRef(n) => Datum::XmlRef(*n),
        Datum::Xtra(s) => Datum::Xtra(s.clone()),
        Datum::XtraInstance(s, n) => Datum::XtraInstance(s.clone(), *n),
    }
}

impl Clone for Datum {
    fn clone(&self) -> (r: Datum)
        ensures
            r@ == self@,
    {
        clone_datum(self)
    }
}

} // verus!
