//! Evaluating a parsed Lingo expression (in the debugger's watch window or
//! by `do`): literals, lists, arithmetic, joins, comparisons and logic,
//! indexing, and the parts only the player can answer (handler calls,
//! properties, names, property-list lookups, cast members) or do (setting
//! names, properties and globals, showing a value). The evaluator is a machine: it
//! asks for what the player must answer, one question at a time, and is
//! given the answers; its result is the expression's meaning under them.
use vstd::prelude::*;
use vstd::string::*;
use crate::datum::{clone_datum, view_items, view_pairs, lemma_view_pairs, lemma_view_pairs_push, lemma_view_items, lemma_view_items_push, ColorRef, Datum, DatumView, ScriptError, ScriptErrorCode};
use crate::datum_operations::{
    arith_ref, arith_spec, div_would_panic, lemma_arith_no_panic, lemma_integer_arithmetic, lemma_integer_division,
    invalid_operands_message, truncated_quotient, unrepresentable_message, ArithOp, Outcome,
};
use crate::datum_formatting::{concat_text, write_concat_text};
use crate::compare::{
    lemma_numbers_order_by_value, datum_equals, datum_equals_spec, datum_greater_than, datum_greater_than_spec, datum_less_than,
    datum_less_than_spec,
};
use crate::text::{int_to_decimal, nat_to_decimal, push_char, push_decimal, push_int, same_text};
use crate::context_vars::{combine_put, put_text, PutType};

verus! {

broadcast use {lemma_view_items, lemma_view_items_push, lemma_view_pairs, lemma_view_pairs_push};

/// A binary operator of a Lingo expression.
#[derive(Clone, Copy, Debug, PartialEq, Eq, Structural)]
pub enum BinOp {
    Add,
    Subtract,
    Multiply,
    Divide,
    /// `&`
    Join,
    /// `&&`
    JoinPad,
    And,
    Or,
    Eq,
    Ne,
    Lt,
    Gt,
    Le,
    Ge,
}

/// A parsed Lingo expression.
pub enum Expr {
    Symbol(String),
    Str(String),
    Void,
    Bool(bool),
    Int(i32),
    Color(ColorRef),
    List(Vec<Expr>),
    /// A property list, its keys and values alternating: key, value, key,
    /// value, ... (an odd last item is evaluated and left out).
    PropList(Vec<Expr>),
    /// A handler called by name: the current receiver's while debugging,
    /// else a global one.
    HandlerCall(String, Vec<Expr>),
    /// A handler called on an object.
    ObjHandlerCall(Box<Expr>, String, Vec<Expr>),
    /// A property of an object.
    ObjProp(Box<Expr>, String),
    /// `list[index]`.
    ListAccess(Box<Expr>, Box<Expr>),
    /// A bare name.
    Identifier(String),
    Binary(BinOp, Box<Expr>, Box<Expr>),
    Not(Box<Expr>),
    /// `the prop of obj`. `the number of` (or `count of`) a property of an
    /// object asks the object for `number of <property>`.
    ThePropOf(Box<Expr>, String),
    /// `member m` or `member m of castLib c`, found by the player.
    MemberRef(Box<Expr>, Option<Box<Expr>>),
    /// `name = value`: sets a global, or a movie property for `the ...`;
    /// its value is the value assigned.
    AssignName(String, Box<Expr>),
    /// `obj.prop = value` or `the prop of obj = value`: the value is
    /// evaluated first, then the object; its value is VOID.
    AssignProp(Box<Expr>, String, Box<Expr>),
    /// `put value`: shows the value in the message window; its value is VOID.
    PutDisplay(Box<Expr>),
    /// `put value into name` sets the global to the value; `before` and
    /// `after` set it to the text of the value before or after the text of
    /// its current value. Its value is VOID.
    PutName(PutType, Box<Expr>, String),
}

/// A question for the player.
pub enum EvalRequest {
    CallHandler(String, Vec<Datum>),
    CallObjHandler(Datum, String, Vec<Datum>),
    GetProp(Datum, String),
    /// The value of a bare name (see `get_eval_top_level_prop`).
    Lookup(String),
    /// The item of a property list at an index or key.
    PropListGet(Datum, Datum),
    /// The cast member with this name or number, in this cast if one is given.
    FindMember(Datum, Option<Datum>),
    /// Set a global (or, for `the ...`, a movie property) to a value.
    SetName(String, Datum),
    /// Set a property of an object to a value.
    SetProp(Datum, String, Datum),
    /// Show a value in the message window.
    Display(Datum),
    /// The value of a global (an empty string where it has none).
    GetGlobal(String),
    /// Set a global to a value.
    SetGlobal(String, Datum),
}

/// A question, as values.
pub enum RequestView {
    CallHandler(Seq<char>, Seq<DatumView>),
    CallObjHandler(DatumView, Seq<char>, Seq<DatumView>),
    GetProp(DatumView, Seq<char>),
    Lookup(Seq<char>),
    PropListGet(DatumView, DatumView),
    FindMember(DatumView, Option<DatumView>),
    SetName(Seq<char>, DatumView),
    SetProp(DatumView, Seq<char>, DatumView),
    Display(DatumView),
    GetGlobal(Seq<char>),
    SetGlobal(Seq<char>, DatumView),
}

impl EvalRequest {
    pub open spec fn view_of(self) -> RequestView {
        match self {
            EvalRequest::CallHandler(n, a) => RequestView::CallHandler(n@, view_items(a@)),
            EvalRequest::CallObjHandler(o, n, a) => RequestView::CallObjHandler(o@, n@, view_items(a@)),
            EvalRequest::GetProp(o, n) => RequestView::GetProp(o@, n@),
            EvalRequest::Lookup(n) => RequestView::Lookup(n@),
            EvalRequest::PropListGet(l, i) => RequestView::PropListGet(l@, i@),
            EvalRequest::FindMember(m, c) => RequestView::FindMember(
                m@,
                match c {
                    Some(d) => Some(d@),
                    None => None,
                },
            ),
            EvalRequest::SetName(n, v) => RequestView::SetName(n@, v@),
            EvalRequest::SetProp(o, n, v) => RequestView::SetProp(o@, n@, v@),
            EvalRequest::Display(v) => RequestView::Display(v@),
            EvalRequest::GetGlobal(n) => RequestView::GetGlobal(n@),
            EvalRequest::SetGlobal(n, v) => RequestView::SetGlobal(n@, v@),
        }
    }
}

/// An error as values: its kind and its message.
pub struct ErrorView {
    pub code: ScriptErrorCode,
    pub message: Seq<char>,
}

pub open spec fn error_view(e: ScriptError) -> ErrorView {
    ErrorView { code: e.code, message: e.message@ }
}

/// A general error with this message.
pub open spec fn generic_error(message: Seq<char>) -> ErrorView {
    ErrorView { code: ScriptErrorCode::Generic, message }
}

/// The error for an operand that must be an integer and is not.
pub open spec fn need_integer_error() -> ErrorView {
    generic_error("Expected an integer"@)
}

/// The player's answer to a question, as values: a value, or an error.
pub open spec fn answer_view(a: Result<Datum, ScriptError>) -> Result<DatumView, ErrorView> {
    match a {
        Ok(d) => Ok(d@),
        Err(e) => Err(error_view(e)),
    }
}

pub open spec fn answers_view(a: Seq<Result<Datum, ScriptError>>) -> Seq<Result<DatumView, ErrorView>> {
    a.map_values(|x: Result<Datum, ScriptError>| answer_view(x))
}

/// Where an evaluation stands: done with a value, failed with an error,
/// waiting for the answer to a question, or at an input on which the player
/// panics.
pub enum Evaluated<T> {
    Done(T),
    Fail(ErrorView),
    Need(RequestView),
    Panics,
}

/// The integer a logic operand stands for: only an integer has one.
pub open spec fn logic_int(d: DatumView) -> Option<i32> {
    match d {
        DatumView::Int(n) => Some(n),
        _ => None,
    }
}

pub open spec fn bool_int(b: bool) -> DatumView {
    DatumView::Int(if b { 1 } else { 0 })
}

/// An arithmetic outcome as an evaluation.
pub open spec fn from_outcome(o: Outcome<DatumView>) -> Evaluated<DatumView> {
    match o {
        Outcome::Value(v) => Evaluated::Done(v),
        Outcome::Invalid => Evaluated::Fail(generic_error(invalid_operands_message())),
        Outcome::Unrepresentable => Evaluated::Fail(
            ErrorView { code: ScriptErrorCode::Unrepresentable, message: unrepresentable_message() },
        ),
        Outcome::Panics => Evaluated::Panics,
    }
}

/// A binary operator on two values: arithmetic as `+ - * /` give it; `&`
/// joins the two values' text, `&&` with a space between; `and`, `or`
/// take integers (anything else is an error) and give 1 or 0; comparisons
/// give 1 or 0, `<=` and `>=` being `<` or `>` or `=`.
pub open spec fn binary_spec(op: BinOp, l: DatumView, r: DatumView) -> Evaluated<DatumView> {
    match op {
        BinOp::Add => from_outcome(arith_spec(ArithOp::Add, l, r)),
        BinOp::Subtract => from_outcome(arith_spec(ArithOp::Sub, l, r)),
        BinOp::Multiply => from_outcome(arith_spec(ArithOp::Mul, l, r)),
        BinOp::Divide => from_outcome(arith_spec(ArithOp::Div, l, r)),
        BinOp::Join => Evaluated::Done(DatumView::String(concat_text(l) + concat_text(r))),
        BinOp::JoinPad => Evaluated::Done(DatumView::String(concat_text(l) + seq![' '] + concat_text(r))),
        BinOp::And => match (logic_int(l), logic_int(r)) {
            (Some(a), Some(b)) => Evaluated::Done(bool_int(a != 0 && b != 0)),
            _ => Evaluated::Fail(need_integer_error()),
        },
        BinOp::Or => match (logic_int(l), logic_int(r)) {
            (Some(a), Some(b)) => Evaluated::Done(bool_int(a != 0 || b != 0)),
            _ => Evaluated::Fail(need_integer_error()),
        },
        BinOp::Eq => Evaluated::Done(bool_int(datum_equals_spec(l, r))),
        BinOp::Ne => Evaluated::Done(bool_int(!datum_equals_spec(l, r))),
        BinOp::Lt => Evaluated::Done(bool_int(datum_less_than_spec(l, r))),
        BinOp::Gt => Evaluated::Done(bool_int(datum_greater_than_spec(l, r))),
        BinOp::Le => Evaluated::Done(bool_int(datum_equals_spec(l, r) || datum_less_than_spec(l, r))),
        BinOp::Ge => Evaluated::Done(bool_int(datum_equals_spec(l, r) || datum_greater_than_spec(l, r))),
    }
}

/// On two integers every operator is the integer one: wrapped `+ - *`;
/// `/` truncating, a zero divisor counting as 1, and panicking only for the
/// least integer over -1; comparisons and `and`/`or` giving 1 where they hold
/// and 0 where they do not.
pub proof fn lemma_operators_on_integers(a: i32, b: i32)
    ensures
        binary_spec(BinOp::Add, DatumView::Int(a), DatumView::Int(b)) == Evaluated::Done(
            DatumView::Int(a.wrapping_add(b)),
        ),
        binary_spec(BinOp::Subtract, DatumView::Int(a), DatumView::Int(b)) == Evaluated::Done(
            DatumView::Int(a.wrapping_sub(b)),
        ),
        binary_spec(BinOp::Multiply, DatumView::Int(a), DatumView::Int(b)) == Evaluated::Done(
            DatumView::Int(a.wrapping_mul(b)),
        ),
        b == 0 ==> binary_spec(BinOp::Divide, DatumView::Int(a), DatumView::Int(b)) == Evaluated::Done(
            DatumView::Int(a),
        ),
        b != 0 && !(a == i32::MIN && b == -1) ==> binary_spec(BinOp::Divide, DatumView::Int(a), DatumView::Int(b))
            == Evaluated::Done(DatumView::Int(truncated_quotient(a as int, b as int) as i32)),
        a == i32::MIN && b == -1 ==> binary_spec(BinOp::Divide, DatumView::Int(a), DatumView::Int(b)) is Panics,
        binary_spec(BinOp::Lt, DatumView::Int(a), DatumView::Int(b)) == Evaluated::Done(
            DatumView::Int(if a < b { 1 } else { 0 }),
        ),
        binary_spec(BinOp::Le, DatumView::Int(a), DatumView::Int(b)) == Evaluated::Done(
            DatumView::Int(if a <= b { 1 } else { 0 }),
        ),
        binary_spec(BinOp::Gt, DatumView::Int(a), DatumView::Int(b)) == Evaluated::Done(
            DatumView::Int(if a > b { 1 } else { 0 }),
        ),
        binary_spec(BinOp::Ge, DatumView::Int(a), DatumView::Int(b)) == Evaluated::Done(
            DatumView::Int(if a >= b { 1 } else { 0 }),
        ),
        binary_spec(BinOp::Eq, DatumView::Int(a), DatumView::Int(b)) == Evaluated::Done(
            DatumView::Int(if a == b { 1 } else { 0 }),
        ),
        binary_spec(BinOp::Ne, DatumView::Int(a), DatumView::Int(b)) == Evaluated::Done(
            DatumView::Int(if a != b { 1 } else { 0 }),
        ),
        binary_spec(BinOp::And, DatumView::Int(a), DatumView::Int(b)) == Evaluated::Done(
            DatumView::Int(if a != 0 && b != 0 { 1 } else { 0 }),
        ),
        binary_spec(BinOp::Or, DatumView::Int(a), DatumView::Int(b)) == Evaluated::Done(
            DatumView::Int(if a != 0 || b != 0 { 1 } else { 0 }),
        ),
{
    lemma_integer_arithmetic(a, b);
    lemma_integer_division(a, b);
    lemma_numbers_order_by_value(a, b, 0, 0, 0, 0);
}

/// `&` puts the left text before the right one, and `&&` puts a single
/// space between them.
pub proof fn lemma_joins_on_strings(a: Seq<char>, b: Seq<char>)
    ensures
        binary_spec(BinOp::Join, DatumView::String(a), DatumView::String(b)) == Evaluated::Done(
            DatumView::String(a + b),
        ),
        binary_spec(BinOp::JoinPad, DatumView::String(a), DatumView::String(b)) == Evaluated::Done(
            DatumView::String(a + seq![' '] + b),
        ),
        binary_spec(BinOp::Join, DatumView::String(a), DatumView::Void) == Evaluated::Done(DatumView::String(a)),
{
    assert(a + Seq::<char>::empty() =~= a);
}

/// Whether an evaluation gave the integer 1.
pub open spec fn gives_one(e: Evaluated<DatumView>) -> bool {
    e == Evaluated::<DatumView>::Done(DatumView::Int(1))
}

/// On any two values, `<=` holds where `<` or `=` does, `>=` where `>` or
/// `=` does, and `<>` exactly where `=` does not; each comparison gives 1 or
/// 0.
pub proof fn lemma_comparisons_combine(l: DatumView, r: DatumView)
    ensures
        gives_one(binary_spec(BinOp::Le, l, r)) == (gives_one(binary_spec(BinOp::Lt, l, r)) || gives_one(
            binary_spec(BinOp::Eq, l, r),
        )),
        gives_one(binary_spec(BinOp::Ge, l, r)) == (gives_one(binary_spec(BinOp::Gt, l, r)) || gives_one(
            binary_spec(BinOp::Eq, l, r),
        )),
        gives_one(binary_spec(BinOp::Ne, l, r)) == !gives_one(binary_spec(BinOp::Eq, l, r)),
        forall|op: BinOp|
            (op is Lt || op is Le || op is Gt || op is Ge || op is Eq || op is Ne) ==> (#[trigger] binary_spec(
                op,
                l,
                r,
            ) == Evaluated::<DatumView>::Done(DatumView::Int(1)) || binary_spec(op, l, r)
                == Evaluated::<DatumView>::Done(DatumView::Int(0))),
{
}

/// `not` gives 1 exactly for the integer 0, and 0 for any other integer.
pub proof fn lemma_not_on_integers(n: i32, ans: Seq<Result<DatumView, ErrorView>>, k: nat)
    ensures
        eval_spec(Expr::Not(Box::new(Expr::Int(n))), ans, k) == (
            Evaluated::<DatumView>::Done(DatumView::Int(if n == 0 { 1 } else { 0 })),
            k,
        ),
{
    assert(eval_spec(Expr::Int(n), ans, k) == (Evaluated::<DatumView>::Done(DatumView::Int(n)), k));
}

/// `list[index]` on two values: a list's item (counted from 1; an index out
/// of range is an error), a point's or rect's coordinate (1 to 2, 1 to 4),
/// a string's character as a string (empty out of range); the index must
/// be an integer. A property list is asked of the player; other values
/// cannot be indexed.
pub open spec fn index_spec(l: DatumView, i: DatumView) -> Evaluated<DatumView> {
    match l {
        DatumView::PropList(_) => Evaluated::Need(RequestView::PropListGet(l, i)),
        DatumView::List(items) => match logic_int(i) {
            Some(n) => if n < 1 || n > items.len() {
                Evaluated::Fail(
                    generic_error(
                        "List index "@ + int_to_decimal(n as int) + " out of bounds (list has "@ + nat_to_decimal(
                            items.len(),
                        ) + " items)"@,
                    ),
                )
            } else {
                Evaluated::Done(items[n - 1])
            },
            None => Evaluated::Fail(need_integer_error()),
        },
        DatumView::Point(x, y) => match logic_int(i) {
            Some(n) => if n == 1 {
                Evaluated::Done(DatumView::Int(x))
            } else if n == 2 {
                Evaluated::Done(DatumView::Int(y))
            } else {
                Evaluated::Fail(
                    generic_error("Point index "@ + int_to_decimal(n as int) + " out of bounds (must be 1 or 2)"@),
                )
            },
            None => Evaluated::Fail(need_integer_error()),
        },
        DatumView::Rect(a, b, c, d) => match logic_int(i) {
            Some(n) => if n == 1 {
                Evaluated::Done(DatumView::Int(a))
            } else if n == 2 {
                Evaluated::Done(DatumView::Int(b))
            } else if n == 3 {
                Evaluated::Done(DatumView::Int(c))
            } else if n == 4 {
                Evaluated::Done(DatumView::Int(d))
            } else {
                Evaluated::Fail(
                    generic_error("Rect index "@ + int_to_decimal(n as int) + " out of bounds (must be 1-4)"@),
                )
            },
            None => Evaluated::Fail(need_integer_error()),
        },
        DatumView::String(s) => match logic_int(i) {
            Some(n) => if n < 1 || n > s.len() {
                Evaluated::Done(DatumView::String(Seq::empty()))
            } else {
                Evaluated::Done(DatumView::String(seq![s[n - 1]]))
            },
            None => Evaluated::Fail(need_integer_error()),
        },
        _ => Evaluated::Fail(generic_error("Cannot index non-list type"@)),
    }
}

/// Indexing counts from 1: item `n` of a list is its `n`-th item; index 1
/// of a point is its x and 2 its y; indices 1 to 4 of a rect are its left,
/// top, right and bottom; character `n` of a string is that character as a
/// string, and past either end the empty string.
pub proof fn lemma_index_counts_from_one(items: Seq<DatumView>, n: i32, x: i32, y: i32, r: (i32, i32, i32, i32), s: Seq<char>)
    ensures
        1 <= n <= items.len() ==> index_spec(DatumView::List(items), DatumView::Int(n)) == Evaluated::Done(
            items[n - 1],
        ),
        !(1 <= n <= items.len()) ==> index_spec(DatumView::List(items), DatumView::Int(n)) is Fail,
        index_spec(DatumView::Point(x, y), DatumView::Int(1)) == Evaluated::Done(DatumView::Int(x)),
        index_spec(DatumView::Point(x, y), DatumView::Int(2)) == Evaluated::Done(DatumView::Int(y)),
        index_spec(DatumView::Rect(r.0, r.1, r.2, r.3), DatumView::Int(1)) == Evaluated::Done(DatumView::Int(r.0)),
        index_spec(DatumView::Rect(r.0, r.1, r.2, r.3), DatumView::Int(2)) == Evaluated::Done(DatumView::Int(r.1)),
        index_spec(DatumView::Rect(r.0, r.1, r.2, r.3), DatumView::Int(3)) == Evaluated::Done(DatumView::Int(r.2)),
        index_spec(DatumView::Rect(r.0, r.1, r.2, r.3), DatumView::Int(4)) == Evaluated::Done(DatumView::Int(r.3)),
        1 <= n <= s.len() ==> index_spec(DatumView::String(s), DatumView::Int(n)) == Evaluated::Done(
            DatumView::String(s.subrange(n - 1, n as int)),
        ),
        !(1 <= n <= s.len()) ==> index_spec(DatumView::String(s), DatumView::Int(n)) == Evaluated::Done(
            DatumView::String(Seq::empty()),
        ),
{
    if 1 <= n <= s.len() {
        assert(s.subrange(n - 1, n as int) =~= seq![s[n - 1]]);
    }
}

/// A question and its answer: the `k`-th answer where there is one, else
/// the question waits.
pub open spec fn ask(req: RequestView, ans: Seq<Result<DatumView, ErrorView>>, k: nat) -> (Evaluated<DatumView>, nat) {
    if k < ans.len() {
        match ans[k as int] {
            Ok(v) => (Evaluated::Done(v), k + 1),
            Err(c) => (Evaluated::Fail(c), k + 1),
        }
    } else {
        (Evaluated::Need(req), k)
    }
}

/// `number` and `count` ask for a count of a property.
pub open spec fn is_count_word(p: Seq<char>) -> bool {
    p == "number"@ || p == "count"@
}

/// The property asked for by `the number of <inner> of obj`.
pub open spec fn count_prop(p: Seq<char>, inner: Seq<char>) -> Seq<char> {
    p + " of "@ + inner
}

/// The pairs of alternating keys and values.
pub open spec fn pairs_of(v: Seq<DatumView>) -> Seq<(DatumView, DatumView)> {
    Seq::new(v.len() / 2, |i: int| (v[2 * i], v[2 * i + 1]))
}

/// The meaning of an expression under the player's answers, from the
/// `k`-th on: the evaluation and how many answers it has used. Operands
/// are evaluated left to right (an assignment's value before its target);
/// the first failure, unanswered question or panic stops the evaluation,
/// and an error the player answers with is the evaluation's error.
pub open spec fn eval_spec(e: Expr, ans: Seq<Result<DatumView, ErrorView>>, k: nat) -> (Evaluated<DatumView>, nat)
    decreases e, 1nat,
{
    match e {
        Expr::Symbol(s) => (Evaluated::Done(DatumView::Symbol(s@)), k),
        Expr::Str(s) => (Evaluated::Done(DatumView::String(s@)), k),
        Expr::Void => (Evaluated::Done(DatumView::Void), k),
        Expr::Bool(b) => (Evaluated::Done(bool_int(b)), k),
        Expr::Int(n) => (Evaluated::Done(DatumView::Int(n)), k),
        Expr::Color(c) => (Evaluated::Done(DatumView::ColorRef(c)), k),
        Expr::List(items) => {
            let (r, k1) = eval_items(items@, ans, k, Seq::empty());
            (
                match r {
                    Evaluated::Done(vs) => Evaluated::Done(DatumView::List(vs)),
                    Evaluated::Fail(c) => Evaluated::Fail(c),
                    Evaluated::Need(q) => Evaluated::Need(q),
                    Evaluated::Panics => Evaluated::Panics,
                },
                k1,
            )
        },
        Expr::PropList(items) => {
            let (r, k1) = eval_items(items@, ans, k, Seq::empty());
            (
                match r {
                    Evaluated::Done(vs) => Evaluated::Done(DatumView::PropList(pairs_of(vs))),
                    Evaluated::Fail(c) => Evaluated::Fail(c),
                    Evaluated::Need(q) => Evaluated::Need(q),
                    Evaluated::Panics => Evaluated::Panics,
                },
                k1,
            )
        },
        Expr::HandlerCall(name, args) => {
            let (r, k1) = eval_items(args@, ans, k, Seq::empty());
            match r {
                Evaluated::Done(vs) => ask(RequestView::CallHandler(name@, vs), ans, k1),
                Evaluated::Fail(c) => (Evaluated::Fail(c), k1),
                Evaluated::Need(q) => (Evaluated::Need(q), k1),
                Evaluated::Panics => (Evaluated::Panics, k1),
            }
        },
        Expr::ObjHandlerCall(obj, name, args) => {
            let (o, k1) = eval_spec(*obj, ans, k);
            match o {
                Evaluated::Done(ov) => {
                    let (r, k2) = eval_items(args@, ans, k1, Seq::empty());
                    match r {
                        Evaluated::Done(vs) => ask(RequestView::CallObjHandler(ov, name@, vs), ans, k2),
                        Evaluated::Fail(c) => (Evaluated::Fail(c), k2),
                        Evaluated::Need(q) => (Evaluated::Need(q), k2),
                        Evaluated::Panics => (Evaluated::Panics, k2),
                    }
                },
                other => (other, k1),
            }
        },
        Expr::ObjProp(obj, name) => {
            let (o, k1) = eval_spec(*obj, ans, k);
            match o {
                Evaluated::Done(ov) => ask(RequestView::GetProp(ov, name@), ans, k1),
                other => (other, k1),
            }
        },
        Expr::ListAccess(l, i) => {
            let (lv, k1) = eval_spec(*l, ans, k);
            match lv {
                Evaluated::Done(a) => {
                    let (iv, k2) = eval_spec(*i, ans, k1);
                    match iv {
                        Evaluated::Done(b) => match index_spec(a, b) {
                            Evaluated::Need(q) => ask(q, ans, k2),
                            other => (other, k2),
                        },
                        other => (other, k2),
                    }
                },
                other => (other, k1),
            }
        },
        Expr::Identifier(name) => ask(RequestView::Lookup(name@), ans, k),
        Expr::Binary(op, l, r) => {
            let (lv, k1) = eval_spec(*l, ans, k);
            match lv {
                Evaluated::Done(a) => {
                    let (rv, k2) = eval_spec(*r, ans, k1);
                    match rv {
                        Evaluated::Done(b) => (binary_spec(op, a, b), k2),
                        other => (other, k2),
                    }
                },
                other => (other, k1),
            }
        },
        Expr::Not(x) => {
            let (v, k1) = eval_spec(*x, ans, k);
            match v {
                Evaluated::Done(a) => match logic_int(a) {
                    Some(n) => (Evaluated::Done(bool_int(n == 0)), k1),
                    None => (Evaluated::Fail(need_integer_error()), k1),
                },
                other => (other, k1),
            }
        },
        Expr::ThePropOf(obj, prop) => match *obj {
            Expr::ObjProp(inner, inner_prop) if is_count_word(prop@) => {
                let (o, k1) = eval_spec(*inner, ans, k);
                match o {
                    Evaluated::Done(ov) => ask(RequestView::GetProp(ov, count_prop(prop@, inner_prop@)), ans, k1),
                    other => (other, k1),
                }
            },
            _ => {
                let (o, k1) = eval_spec(*obj, ans, k);
                match o {
                    Evaluated::Done(ov) => ask(RequestView::GetProp(ov, prop@), ans, k1),
                    other => (other, k1),
                }
            },
        },
        Expr::MemberRef(m, cast) => {
            let (mv, k1) = eval_spec(*m, ans, k);
            match mv {
                Evaluated::Done(id) => match cast {
                    Some(c) => {
                        let (cv, k2) = eval_spec(*c, ans, k1);
                        match cv {
                            Evaluated::Done(lib) => ask(RequestView::FindMember(id, Some(lib)), ans, k2),
                            other => (other, k2),
                        }
                    },
                    None => ask(RequestView::FindMember(id, None), ans, k1),
                },
                other => (other, k1),
            }
        },
        Expr::AssignName(name, value) => {
            let (v, k1) = eval_spec(*value, ans, k);
            match v {
                Evaluated::Done(val) => {
                    let (r, k2) = ask(RequestView::SetName(name@, val), ans, k1);
                    match r {
                        Evaluated::Done(_) => (Evaluated::Done(val), k2),
                        other => (other, k2),
                    }
                },
                other => (other, k1),
            }
        },
        Expr::AssignProp(obj, prop, value) => {
            let (v, k1) = eval_spec(*value, ans, k);
            match v {
                Evaluated::Done(val) => {
                    let (o, k2) = eval_spec(*obj, ans, k1);
                    match o {
                        Evaluated::Done(ov) => {
                            let (r, k3) = ask(RequestView::SetProp(ov, prop@, val), ans, k2);
                            match r {
                                Evaluated::Done(_) => (Evaluated::Done(DatumView::Void), k3),
                                other => (other, k3),
                            }
                        },
                        other => (other, k2),
                    }
                },
                other => (other, k1),
            }
        },
        Expr::PutDisplay(value) => {
            let (v, k1) = eval_spec(*value, ans, k);
            match v {
                Evaluated::Done(val) => {
                    let (r, k2) = ask(RequestView::Display(val), ans, k1);
                    match r {
                        Evaluated::Done(_) => (Evaluated::Done(DatumView::Void), k2),
                        other => (other, k2),
                    }
                },
                other => (other, k1),
            }
        },
        Expr::PutName(put_type, value, name) => {
            let (v, k1) = eval_spec(*value, ans, k);
            match v {
                Evaluated::Done(val) => {
                    let (cur, k2) = if put_type is Into {
                        (Evaluated::Done(DatumView::Void), k1)
                    } else {
                        ask(RequestView::GetGlobal(name@), ans, k1)
                    };
                    match cur {
                        Evaluated::Done(c) => {
                            let stored = if put_type is Into {
                                val
                            } else {
                                DatumView::String(put_text(put_type, concat_text(val), concat_text(c)))
                            };
                            let (r, k3) = ask(RequestView::SetGlobal(name@, stored), ans, k2);
                            match r {
                                Evaluated::Done(_) => (Evaluated::Done(DatumView::Void), k3),
                                other => (other, k3),
                            }
                        },
                        other => (other, k2),
                    }
                },
                other => (other, k1),
            }
        },
    }
}

/// The values of expressions in order, after the values `acc` already had.
pub open spec fn eval_items(
    items: Seq<Expr>,
    ans: Seq<Result<DatumView, ErrorView>>,
    k: nat,
    acc: Seq<DatumView>,
) -> (Evaluated<Seq<DatumView>>, nat)
    decreases items, 0nat,
{
    if items.len() == 0 {
        (Evaluated::Done(acc), k)
    } else {
        let (v, k1) = eval_spec(items[0], ans, k);
        match v {
            Evaluated::Done(d) => eval_items(items.drop_first(), ans, k1, acc.push(d)),
            Evaluated::Fail(c) => (Evaluated::Fail(c), k1),
            Evaluated::Need(q) => (Evaluated::Need(q), k1),
            Evaluated::Panics => (Evaluated::Panics, k1),
        }
    }
}

/// A question takes the next answer if there is one, and waits only when
/// every answer is used; answers after the one it takes change nothing.
proof fn lemma_ask_prefix(
    req: RequestView,
    a: Seq<Result<DatumView, ErrorView>>,
    b: Seq<Result<DatumView, ErrorView>>,
    k: nat,
)
    requires
        k <= a.len(),
    ensures
        k <= ask(req, a, k).1 <= a.len(),
        ask(req, a, k).0 is Need ==> ask(req, a, k).1 == a.len(),
        !(ask(req, a, k).0 is Need) ==> ask(req, a + b, k) == ask(req, a, k),
{
    if k < a.len() {
        assert((a + b)[k as int] == a[k as int]);
    }
}

/// The evaluation takes the player's answers in order and only as many as
/// it asks for: it waits for a question only once every answer is used, and
/// once it is done, has failed or would panic, further answers change
/// nothing, neither its result nor how many answers it used.
pub proof fn lemma_answers_taken_in_order(
    e: Expr,
    a: Seq<Result<DatumView, ErrorView>>,
    b: Seq<Result<DatumView, ErrorView>>,
    k: nat,
)
    requires
        k <= a.len(),
    ensures
        k <= eval_spec(e, a, k).1 <= a.len(),
        eval_spec(e, a, k).0 is Need ==> eval_spec(e, a, k).1 == a.len(),
        !(eval_spec(e, a, k).0 is Need) ==> eval_spec(e, a + b, k) == eval_spec(e, a, k),
    decreases e, 1nat,
{
    match e {
        Expr::List(items) => {
            lemma_items_taken_in_order(items@, a, b, k, Seq::empty());
        },
        Expr::PropList(items) => {
            lemma_items_taken_in_order(items@, a, b, k, Seq::empty());
        },
        Expr::HandlerCall(name, args) => {
            lemma_items_taken_in_order(args@, a, b, k, Seq::empty());
            let (r, k1) = eval_items(args@, a, k, Seq::empty());
            if let Evaluated::Done(vs) = r {
                lemma_ask_prefix(RequestView::CallHandler(name@, vs), a, b, k1);
            }
        },
        Expr::ObjHandlerCall(obj, name, args) => {
            lemma_answers_taken_in_order(*obj, a, b, k);
            let (o, k1) = eval_spec(*obj, a, k);
            if let Evaluated::Done(ov) = o {
                lemma_items_taken_in_order(args@, a, b, k1, Seq::empty());
                let (r, k2) = eval_items(args@, a, k1, Seq::empty());
                if let Evaluated::Done(vs) = r {
                    lemma_ask_prefix(RequestView::CallObjHandler(ov, name@, vs), a, b, k2);
                }
            }
        },
        Expr::ObjProp(obj, name) => {
            lemma_answers_taken_in_order(*obj, a, b, k);
            let (o, k1) = eval_spec(*obj, a, k);
            if let Evaluated::Done(ov) = o {
                lemma_ask_prefix(RequestView::GetProp(ov, name@), a, b, k1);
            }
        },
        Expr::ListAccess(l, i) => {
            lemma_answers_taken_in_order(*l, a, b, k);
            let (lv, k1) = eval_spec(*l, a, k);
            if let Evaluated::Done(x) = lv {
                lemma_answers_taken_in_order(*i, a, b, k1);
                let (iv, k2) = eval_spec(*i, a, k1);
                if let Evaluated::Done(y) = iv {
                    if let Evaluated::Need(q) = index_spec(x, y) {
                        lemma_ask_prefix(q, a, b, k2);
                    }
                }
            }
        },
        Expr::Identifier(name) => {
            lemma_ask_prefix(RequestView::Lookup(name@), a, b, k);
        },
        Expr::Binary(op, l, r) => {
            lemma_answers_taken_in_order(*l, a, b, k);
            let (lv, k1) = eval_spec(*l, a, k);
            if lv is Done {
                lemma_answers_taken_in_order(*r, a, b, k1);
            }
        },
        Expr::Not(x) => {
            lemma_answers_taken_in_order(*x, a, b, k);
        },
        Expr::ThePropOf(obj, prop) => match *obj {
            Expr::ObjProp(inner, inner_prop) if is_count_word(prop@) => {
                lemma_answers_taken_in_order(*inner, a, b, k);
                let (o, k1) = eval_spec(*inner, a, k);
                if let Evaluated::Done(ov) = o {
                    lemma_ask_prefix(RequestView::GetProp(ov, count_prop(prop@, inner_prop@)), a, b, k1);
                }
            },
            _ => {
                lemma_answers_taken_in_order(*obj, a, b, k);
                let (o, k1) = eval_spec(*obj, a, k);
                if let Evaluated::Done(ov) = o {
                    lemma_ask_prefix(RequestView::GetProp(ov, prop@), a, b, k1);
                }
            },
        },
        Expr::MemberRef(m, cast) => {
            lemma_answers_taken_in_order(*m, a, b, k);
            let (mv, k1) = eval_spec(*m, a, k);
            if let Evaluated::Done(id) = mv {
                match cast {
                    Some(c) => {
                        lemma_answers_taken_in_order(*c, a, b, k1);
                        let (cv, k2) = eval_spec(*c, a, k1);
                        if let Evaluated::Done(lib) = cv {
                            lemma_ask_prefix(RequestView::FindMember(id, Some(lib)), a, b, k2);
                        }
                    },
                    None => {
                        lemma_ask_prefix(RequestView::FindMember(id, None), a, b, k1);
                    },
                }
            }
        },
        Expr::AssignName(name, value) => {
            lemma_answers_taken_in_order(*value, a, b, k);
            let (v, k1) = eval_spec(*value, a, k);
            if let Evaluated::Done(val) = v {
                lemma_ask_prefix(RequestView::SetName(name@, val), a, b, k1);
            }
        },
        Expr::AssignProp(obj, prop, value) => {
            lemma_answers_taken_in_order(*value, a, b, k);
            let (v, k1) = eval_spec(*value, a, k);
            if let Evaluated::Done(val) = v {
                lemma_answers_taken_in_order(*obj, a, b, k1);
                let (o, k2) = eval_spec(*obj, a, k1);
                if let Evaluated::Done(ov) = o {
                    lemma_ask_prefix(RequestView::SetProp(ov, prop@, val), a, b, k2);
                }
            }
        },
        Expr::PutDisplay(value) => {
            lemma_answers_taken_in_order(*value, a, b, k);
            let (v, k1) = eval_spec(*value, a, k);
            if let Evaluated::Done(val) = v {
                lemma_ask_prefix(RequestView::Display(val), a, b, k1);
            }
        },
        Expr::PutName(put_type, value, name) => {
            lemma_answers_taken_in_order(*value, a, b, k);
            let (v, k1) = eval_spec(*value, a, k);
            if let Evaluated::Done(val) = v {
                if put_type is Into {
                    lemma_ask_prefix(RequestView::SetGlobal(name@, val), a, b, k1);
                } else {
                    lemma_ask_prefix(RequestView::GetGlobal(name@), a, b, k1);
                    let (cur, k2) = ask(RequestView::GetGlobal(name@), a, k1);
                    if let Evaluated::Done(c) = cur {
                        let stored = DatumView::String(put_text(put_type, concat_text(val), concat_text(c)));
                        lemma_ask_prefix(RequestView::SetGlobal(name@, stored), a, b, k2);
                    }
                }
            }
        },
        _ => {},
    }
}

/// The same for a list of expressions evaluated in order.
pub proof fn lemma_items_taken_in_order(
    items: Seq<Expr>,
    a: Seq<Result<DatumView, ErrorView>>,
    b: Seq<Result<DatumView, ErrorView>>,
    k: nat,
    acc: Seq<DatumView>,
)
    requires
        k <= a.len(),
    ensures
        k <= eval_items(items, a, k, acc).1 <= a.len(),
        eval_items(items, a, k, acc).0 is Need ==> eval_items(items, a, k, acc).1 == a.len(),
        !(eval_items(items, a, k, acc).0 is Need) ==> eval_items(items, a + b, k, acc) == eval_items(
            items,
            a,
            k,
            acc,
        ),
    decreases items, 0nat,
{
    if items.len() > 0 {
        lemma_answers_taken_in_order(items[0], a, b, k);
        let (v, k1) = eval_spec(items[0], a, k);
        if let Evaluated::Done(d) = v {
            lemma_items_taken_in_order(items.drop_first(), a, b, k1, acc.push(d));
        }
    }
}

// ---- The evaluator ----

/// Where an evaluation stands: done with a value, failed with this error,
/// waiting for the player to answer this question, or at an input on which
/// the player panics.
pub enum EvalResult {
    Done(Datum),
    Fail(ScriptError),
    Need(EvalRequest),
    Panics,
}

pub open spec fn result_matches(r: EvalResult, e: Evaluated<DatumView>) -> bool {
    match r {
        EvalResult::Done(d) => e == Evaluated::<DatumView>::Done(d@),
        EvalResult::Fail(err) => e == Evaluated::<DatumView>::Fail(error_view(err)),
        EvalResult::Need(q) => e == Evaluated::<DatumView>::Need(q.view_of()),
        EvalResult::Panics => e is Panics,
    }
}

/// The same for a list of values.
pub enum ItemsResult {
    Done(Vec<Datum>),
    Fail(ScriptError),
    Need(EvalRequest),
    Panics,
}

pub open spec fn items_match(r: ItemsResult, e: Evaluated<Seq<DatumView>>) -> bool {
    match r {
        ItemsResult::Done(d) => e == Evaluated::<Seq<DatumView>>::Done(view_items(d@)),
        ItemsResult::Fail(err) => e == Evaluated::<Seq<DatumView>>::Fail(error_view(err)),
        ItemsResult::Need(q) => e == Evaluated::<Seq<DatumView>>::Need(q.view_of()),
        ItemsResult::Panics => e is Panics,
    }
}

fn copy_error(e: &ScriptError) -> (r: ScriptError)
    ensures
        r.code == e.code,
        r.message@ == e.message@,
{
    ScriptError { code: e.code, message: e.message.clone() }
}

fn copy_values(v: &Vec<Datum>) -> (r: Vec<Datum>)
    ensures
        view_items(r@) == view_items(v@),
{
    let mut r: Vec<Datum> = Vec::new();
    let mut i: usize = 0;
    while i < v.len()
        invariant
            i <= v.len(),
            view_items(r@) == view_items(v@.take(i as int)),
        decreases v.len() - i,
    {
        r.push(clone_datum(&v[i]));
        assert(v@.take(i + 1) =~= v@.take(i as int).push(v@[i as int]));
        i = i + 1;
    }
    assert(v@.take(v.len() as int) =~= v@);
    r
}

/// Asks a question: the `k`-th answer where there is one; see `ask`.
fn ask_exec(req: EvalRequest, ans: &Vec<Result<Datum, ScriptError>>, k: usize) -> (r: (EvalResult, usize))
    requires
        k <= ans.len(),
    ensures
        result_matches(r.0, ask(req.view_of(), answers_view(ans@), k as nat).0),
        r.1 == ask(req.view_of(), answers_view(ans@), k as nat).1,
        r.1 <= ans.len(),
{
    if k < ans.len() {
        match &ans[k] {
            Ok(d) => (EvalResult::Done(clone_datum(d)), k + 1),
            Err(e) => (EvalResult::Fail(copy_error(e)), k + 1),
        }
    } else {
        (EvalResult::Need(req), k)
    }
}

fn logic_int_exec(d: &Datum) -> (r: Option<i32>)
    ensures
        r == logic_int(d@),
{
    match d {
        Datum::Int(n) => Some(*n),
        _ => None,
    }
}

fn bool_datum(b: bool) -> (d: Datum)
    ensures
        d@ == bool_int(b),
{
    Datum::Int(if b { 1 } else { 0 })
}

fn arith_eval(op: ArithOp, l: &Datum, r: &Datum) -> (res: EvalResult)
    requires
        !(op is MulItem),
    ensures
        result_matches(res, from_outcome(arith_spec(op, l@, r@))),
{
    match op {
        ArithOp::Div => {
            if div_would_panic(l, r) {
                return EvalResult::Panics;
            }
        },
        _ => {
            proof {
                lemma_arith_no_panic(op, l@, r@);
            }
        },
    }
    match arith_ref(op, l, r) {
        Ok(d) => EvalResult::Done(d),
        Err(e) => EvalResult::Fail(e),
    }
}


fn need_integer() -> (e: ScriptError)
    ensures
        error_view(e) == need_integer_error(),
{
    ScriptError::new(String::from_str("Expected an integer"))
}

/// A binary operator on two values; see `binary_spec`.
fn binary_exec(op: BinOp, l: &Datum, r: &Datum) -> (res: EvalResult)
    ensures
        result_matches(res, binary_spec(op, l@, r@)),
{
    match op {
        BinOp::Add => arith_eval(ArithOp::Add, l, r),
        BinOp::Subtract => arith_eval(ArithOp::Sub, l, r),
        BinOp::Multiply => arith_eval(ArithOp::Mul, l, r),
        BinOp::Divide => arith_eval(ArithOp::Div, l, r),
        BinOp::Join => {
            let mut s = String::new();
            write_concat_text(&mut s, l);
            write_concat_text(&mut s, r);
            assert(s@ =~= concat_text(l@) + concat_text(r@));
            EvalResult::Done(Datum::String(s))
        },
        BinOp::JoinPad => {
            let mut s = String::new();
            write_concat_text(&mut s, l);
            push_char(&mut s, ' ');
            write_concat_text(&mut s, r);
            assert(s@ =~= concat_text(l@) + seq![' '] + concat_text(r@));
            EvalResult::Done(Datum::String(s))
        },
        BinOp::And => match (logic_int_exec(l), logic_int_exec(r)) {
            (Some(a), Some(b)) => EvalResult::Done(bool_datum(a != 0 && b != 0)),
            _ => EvalResult::Fail(need_integer()),
        },
        BinOp::Or => match (logic_int_exec(l), logic_int_exec(r)) {
            (Some(a), Some(b)) => EvalResult::Done(bool_datum(a != 0 || b != 0)),
            _ => EvalResult::Fail(need_integer()),
        },
        BinOp::Eq => EvalResult::Done(bool_datum(datum_equals(l, r))),
        BinOp::Ne => EvalResult::Done(bool_datum(!datum_equals(l, r))),
        BinOp::Lt => EvalResult::Done(bool_datum(datum_less_than(l, r))),
        BinOp::Gt => EvalResult::Done(bool_datum(datum_greater_than(l, r))),
        BinOp::Le => {
            let e = datum_equals(l, r);
            let lt = datum_less_than(l, r);
            EvalResult::Done(bool_datum(e || lt))
        },
        BinOp::Ge => {
            let e = datum_equals(l, r);
            let gt = datum_greater_than(l, r);
            EvalResult::Done(bool_datum(e || gt))
        },
    }
}

/// The error for an index out of a list's range.
fn list_index_error(n: i32, len: usize) -> (e: ScriptError)
    ensures
        error_view(e) == generic_error(
            "List index "@ + int_to_decimal(n as int) + " out of bounds (list has "@ + nat_to_decimal(len as nat)
                + " items)"@,
        ),
{
    let mut m = String::from_str("List index ");
    push_int(&mut m, n as i64);
    m.append(" out of bounds (list has ");
    push_decimal(&mut m, len as u64);
    m.append(" items)");
    ScriptError::new(m)
}

/// The error for an index out of a point's or rect's range.
fn index_error(head: &str, n: i32, tail: &str) -> (e: ScriptError)
    ensures
        error_view(e) == generic_error(head@ + int_to_decimal(n as int) + tail@),
{
    let mut m = String::from_str(head);
    push_int(&mut m, n as i64);
    m.append(tail);
    ScriptError::new(m)
}

/// `list[index]` on two values; see `index_spec`.
fn index_exec(l: &Datum, i: &Datum) -> (res: EvalResult)
    ensures
        result_matches(res, index_spec(l@, i@)),
{
    match l {
        Datum::PropList(_) => EvalResult::Need(EvalRequest::PropListGet(clone_datum(l), clone_datum(i))),
        Datum::List(items) => {
            proof {
                assert(view_items(items@).len() == items@.len());
            }
            match logic_int_exec(i) {
                Some(n) => if n < 1 || n as usize > items.len() {
                    EvalResult::Fail(list_index_error(n, items.len()))
                } else {
                    EvalResult::Done(clone_datum(&items[(n - 1) as usize]))
                },
                None => EvalResult::Fail(need_integer()),
            }
        },
        Datum::Point(x, y) => match logic_int_exec(i) {
            Some(n) => if n == 1 {
                EvalResult::Done(Datum::Int(*x))
            } else if n == 2 {
                EvalResult::Done(Datum::Int(*y))
            } else {
                EvalResult::Fail(index_error("Point index ", n, " out of bounds (must be 1 or 2)"))
            },
            None => EvalResult::Fail(need_integer()),
        },
        Datum::Rect(a, b, c, d) => match logic_int_exec(i) {
            Some(n) => if n == 1 {
                EvalResult::Done(Datum::Int(*a))
            } else if n == 2 {
                EvalResult::Done(Datum::Int(*b))
            } else if n == 3 {
                EvalResult::Done(Datum::Int(*c))
            } else if n == 4 {
                EvalResult::Done(Datum::Int(*d))
            } else {
                EvalResult::Fail(index_error("Rect index ", n, " out of bounds (must be 1-4)"))
            },
            None => EvalResult::Fail(need_integer()),
        },
        Datum::String(s) => match logic_int_exec(i) {
            Some(n) => {
                let len: usize = s.as_str().unicode_len();
                if n < 1 || n as usize > len {
                    let e = String::new();
                    assert(e@ =~= Seq::<char>::empty());
                    EvalResult::Done(Datum::String(e))
                } else {
                    let c = s.as_str().get_char((n - 1) as usize);
                    let mut out = String::new();
                    push_char(&mut out, c);
                    proof {
                        assert(out@ =~= seq![s@[n - 1]]);
                    }
                    EvalResult::Done(Datum::String(out))
                }
            },
            None => EvalResult::Fail(need_integer()),
        },
        _ => EvalResult::Fail(ScriptError::new(String::from_str("Cannot index non-list type"))),
    }
}


/// Pairs alternating keys and values; an odd last value is left out.
fn pair_up(vs: &Vec<Datum>) -> (p: Vec<(Datum, Datum)>)
    ensures
        view_pairs(p@) == pairs_of(view_items(vs@)),
{
    let ghost v = view_items(vs@);
    let n: usize = vs.len() / 2;
    let mut p: Vec<(Datum, Datum)> = Vec::new();
    let mut i: usize = 0;
    while i < n
        invariant
            v == view_items(vs@),
            v.len() == vs.len(),
            n == vs.len() / 2,
            i <= n,
            view_pairs(p@) =~= pairs_of(v).take(i as int),
        decreases n - i,
    {
        let key = clone_datum(&vs[2 * i]);
        let value = clone_datum(&vs[2 * i + 1]);
        p.push((key, value));
        assert(pairs_of(v).take(i + 1) =~= pairs_of(v).take(i as int).push((v[2 * i], v[2 * i + 1])));
        i = i + 1;
    }
    assert(pairs_of(v).take(n as int) =~= pairs_of(v));
    p
}

/// Evaluates expressions in order under the player's answers from the
/// `k`-th on; see `eval_items`.
fn eval_items_exec(items: &Vec<Expr>, ans: &Vec<Result<Datum, ScriptError>>, k: usize) -> (r: (
    ItemsResult,
    usize,
))
    requires
        k <= ans.len(),
    ensures
        items_match(r.0, eval_items(items@, answers_view(ans@), k as nat, Seq::empty()).0),
        r.1 == eval_items(items@, answers_view(ans@), k as nat, Seq::empty()).1,
        r.1 <= ans.len(),
    decreases items@, 0nat,
{
    let ghost a = answers_view(ans@);
    let mut out: Vec<Datum> = Vec::new();
    let mut kk: usize = k;
    let mut i: usize = 0;
    assert(items@.skip(0) =~= items@);
    while i < items.len()
        invariant
            a == answers_view(ans@),
            i <= items.len(),
            kk <= ans.len(),
            eval_items(items@, a, k as nat, Seq::empty()) == eval_items(
                items@.skip(i as int),
                a,
                kk as nat,
                view_items(out@),
            ),
        decreases items.len() - i,
    {
        proof {
            assert(items@.skip(i as int)[0] == items@[i as int]);
            assert(items@.skip(i as int).drop_first() =~= items@.skip(i + 1));
        }
        let (v, k1) = eval_with(&items[i], ans, kk);
        match v {
            EvalResult::Done(d) => {
                out.push(d);
                kk = k1;
                i = i + 1;
            },
            EvalResult::Fail(e) => {
                return (ItemsResult::Fail(e), k1);
            },
            EvalResult::Need(q) => {
                return (ItemsResult::Need(q), k1);
            },
            EvalResult::Panics => {
                return (ItemsResult::Panics, k1);
            },
        }
    }
    assert(items@.skip(items.len() as int) =~= Seq::<Expr>::empty());
    (ItemsResult::Done(out), kk)
}

/// Evaluates an expression under the player's answers from the `k`-th on;
/// see `eval_spec`.
fn eval_with(e: &Expr, ans: &Vec<Result<Datum, ScriptError>>, k: usize) -> (r: (EvalResult, usize))
    requires
        k <= ans.len(),
    ensures
        result_matches(r.0, eval_spec(*e, answers_view(ans@), k as nat).0),
        r.1 == eval_spec(*e, answers_view(ans@), k as nat).1,
        r.1 <= ans.len(),
    decreases *e, 2nat,
{
    match e {
        Expr::Symbol(s) => (EvalResult::Done(Datum::Symbol(s.clone())), k),
        Expr::Str(s) => (EvalResult::Done(Datum::String(s.clone())), k),
        Expr::Void => (EvalResult::Done(Datum::Void), k),
        Expr::Bool(b) => (EvalResult::Done(bool_datum(*b)), k),
        Expr::Int(n) => (EvalResult::Done(Datum::Int(*n)), k),
        Expr::Color(c) => (EvalResult::Done(Datum::ColorRef(*c)), k),
        Expr::List(items) => {
            let (r, k1) = eval_items_exec(items, ans, k);
            let res = match r {
                ItemsResult::Done(vs) => EvalResult::Done(Datum::List(vs)),
                ItemsResult::Fail(err) => EvalResult::Fail(err),
                ItemsResult::Need(q) => EvalResult::Need(q),
                ItemsResult::Panics => EvalResult::Panics,
            };
            (res, k1)
        },
        Expr::PropList(items) => {
            let (r, k1) = eval_items_exec(items, ans, k);
            let res = match r {
                ItemsResult::Done(vs) => EvalResult::Done(Datum::PropList(pair_up(&vs))),
                ItemsResult::Fail(err) => EvalResult::Fail(err),
                ItemsResult::Need(q) => EvalResult::Need(q),
                ItemsResult::Panics => EvalResult::Panics,
            };
            (res, k1)
        },
        Expr::HandlerCall(name, args) => {
            let (r, k1) = eval_items_exec(args, ans, k);
            match r {
                ItemsResult::Done(vs) => ask_exec(EvalRequest::CallHandler(name.clone(), vs), ans, k1),
                ItemsResult::Fail(err) => (EvalResult::Fail(err), k1),
                ItemsResult::Need(q) => (EvalResult::Need(q), k1),
                ItemsResult::Panics => (EvalResult::Panics, k1),
            }
        },
        Expr::ObjHandlerCall(obj, name, args) => {
            let (o, k1) = eval_with(obj, ans, k);
            match o {
                EvalResult::Done(ov) => {
                    let (r, k2) = eval_items_exec(args, ans, k1);
                    match r {
                        ItemsResult::Done(vs) => ask_exec(
                            EvalRequest::CallObjHandler(ov, name.clone(), vs),
                            ans,
                            k2,
                        ),
                        ItemsResult::Fail(err) => (EvalResult::Fail(err), k2),
                        ItemsResult::Need(q) => (EvalResult::Need(q), k2),
                        ItemsResult::Panics => (EvalResult::Panics, k2),
                    }
                },
                other => (other, k1),
            }
        },
        Expr::ObjProp(obj, name) => {
            let (o, k1) = eval_with(obj, ans, k);
            match o {
                EvalResult::Done(ov) => ask_exec(EvalRequest::GetProp(ov, name.clone()), ans, k1),
                other => (other, k1),
            }
        },
        Expr::ListAccess(l, i) => {
            let (lv, k1) = eval_with(l, ans, k);
            match lv {
                EvalResult::Done(a) => {
                    let (iv, k2) = eval_with(i, ans, k1);
                    match iv {
                        EvalResult::Done(b) => match index_exec(&a, &b) {
                            EvalResult::Need(q) => ask_exec(q, ans, k2),
                            other => (other, k2),
                        },
                        other => (other, k2),
                    }
                },
                other => (other, k1),
            }
        },
        Expr::Identifier(name) => ask_exec(EvalRequest::Lookup(name.clone()), ans, k),
        Expr::Binary(op, l, r) => {
            let (lv, k1) = eval_with(l, ans, k);
            match lv {
                EvalResult::Done(a) => {
                    let (rv, k2) = eval_with(r, ans, k1);
                    match rv {
                        EvalResult::Done(b) => (binary_exec(*op, &a, &b), k2),
                        other => (other, k2),
                    }
                },
                other => (other, k1),
            }
        },
        Expr::Not(x) => {
            let (v, k1) = eval_with(x, ans, k);
            match v {
                EvalResult::Done(a) => match logic_int_exec(&a) {
                    Some(n) => (EvalResult::Done(bool_datum(n == 0)), k1),
                    None => (EvalResult::Fail(need_integer()), k1),
                },
                other => (other, k1),
            }
        },
        _ => eval_store(e, ans, k),
    }
}

/// The expressions that read properties, find members or store values;
/// see `eval_spec`.
fn eval_store(e: &Expr, ans: &Vec<Result<Datum, ScriptError>>, k: usize) -> (r: (EvalResult, usize))
    requires
        k <= ans.len(),
        e is ThePropOf || e is MemberRef || e is AssignName || e is AssignProp || e is PutDisplay || e is PutName,
    ensures
        result_matches(r.0, eval_spec(*e, answers_view(ans@), k as nat).0),
        r.1 == eval_spec(*e, answers_view(ans@), k as nat).1,
        r.1 <= ans.len(),
    decreases *e, 1nat,
{
    match e {
        Expr::ThePropOf(obj, prop) => {
            let counted = same_text(prop.as_str(), "number") || same_text(prop.as_str(), "count");
            match &**obj {
                Expr::ObjProp(inner, inner_prop) if counted => {
                    let (o, k1) = eval_with(inner, ans, k);
                    match o {
                        EvalResult::Done(ov) => {
                            let mut name = prop.clone();
                            name.append(" of ");
                            name.append(inner_prop.as_str());
                            ask_exec(EvalRequest::GetProp(ov, name), ans, k1)
                        },
                        other => (other, k1),
                    }
                },
                _ => {
                    let (o, k1) = eval_with(obj, ans, k);
                    match o {
                        EvalResult::Done(ov) => ask_exec(EvalRequest::GetProp(ov, prop.clone()), ans, k1),
                        other => (other, k1),
                    }
                },
            }
        },
        Expr::MemberRef(m, cast) => {
            let (mv, k1) = eval_with(m, ans, k);
            match mv {
                EvalResult::Done(id) => match cast {
                    Some(c) => {
                        let (cv, k2) = eval_with(c, ans, k1);
                        match cv {
                            EvalResult::Done(lib) => ask_exec(EvalRequest::FindMember(id, Some(lib)), ans, k2),
                            other => (other, k2),
                        }
                    },
                    None => ask_exec(EvalRequest::FindMember(id, None), ans, k1),
                },
                other => (other, k1),
            }
        },
        Expr::AssignName(name, value) => {
            let (v, k1) = eval_with(value, ans, k);
            match v {
                EvalResult::Done(val) => {
                    let kept = clone_datum(&val);
                    let (r, k2) = ask_exec(EvalRequest::SetName(name.clone(), val), ans, k1);
                    match r {
                        EvalResult::Done(_) => (EvalResult::Done(kept), k2),
                        other => (other, k2),
                    }
                },
                other => (other, k1),
            }
        },
        Expr::AssignProp(obj, prop, value) => {
            let (v, k1) = eval_with(value, ans, k);
            match v {
                EvalResult::Done(val) => {
                    let (o, k2) = eval_with(obj, ans, k1);
                    match o {
                        EvalResult::Done(ov) => {
                            let (r, k3) = ask_exec(EvalRequest::SetProp(ov, prop.clone(), val), ans, k2);
                            match r {
                                EvalResult::Done(_) => (EvalResult::Done(Datum::Void), k3),
                                other => (other, k3),
                            }
                        },
                        other => (other, k2),
                    }
                },
                other => (other, k1),
            }
        },
        Expr::PutDisplay(value) => {
            let (v, k1) = eval_with(value, ans, k);
            match v {
                EvalResult::Done(val) => {
                    let (r, k2) = ask_exec(EvalRequest::Display(val), ans, k1);
                    match r {
                        EvalResult::Done(_) => (EvalResult::Done(Datum::Void), k2),
                        other => (other, k2),
                    }
                },
                other => (other, k1),
            }
        },
        Expr::PutName(put_type, value, name) => {
            let (v, k1) = eval_with(value, ans, k);
            match v {
                EvalResult::Done(val) => {
                    let (stored, k2) = match put_type {
                        PutType::Into => (EvalResult::Done(val), k1),
                        _ => {
                            let (cur, k2) = ask_exec(EvalRequest::GetGlobal(name.clone()), ans, k1);
                            match cur {
                                EvalResult::Done(c) => {
                                    let mut new_text = String::new();
                                    write_concat_text(&mut new_text, &val);
                                    let mut old_text = String::new();
                                    write_concat_text(&mut old_text, &c);
                                    proof {
                                        assert(new_text@ =~= concat_text(val@));
                                        assert(old_text@ =~= concat_text(c@));
                                    }
                                    let text = combine_put(*put_type, new_text, &old_text);
                                    (EvalResult::Done(Datum::String(text)), k2)
                                },
                                other => (other, k2),
                            }
                        },
                    };
                    match stored {
                        EvalResult::Done(d) => {
                            let (r, k3) = ask_exec(EvalRequest::SetGlobal(name.clone(), d), ans, k2);
                            match r {
                                EvalResult::Done(_) => (EvalResult::Done(Datum::Void), k3),
                                other => (other, k3),
                            }
                        },
                        other => (other, k2),
                    }
                },
                other => (other, k1),
            }
        },
        _ => {
            proof {
                assert(false);
            }
            (EvalResult::Panics, k)
        },
    }
}

/// Evaluates a parsed Lingo expression given the player's answers so far,
/// in the order the evaluation asked its questions: the value, the error it
/// stops with, the next question for the player, or that the player would
/// panic here. See `eval_spec`.
pub fn eval_lingo_expr_ast_runtime(expr: &Expr, answers: &Vec<Result<Datum, ScriptError>>) -> (r: EvalResult)
    ensures
        result_matches(r, eval_spec(*expr, answers_view(answers@), 0).0),
{
    let (r, _) = eval_with(expr, answers, 0);
    r
}

/// What the evaluator wants next.
pub enum EvalAction {
    /// The player is to answer this question (call the handler, read the
    /// property or name, look up the property list) and hand the answer to
    /// the next step.
    Ask(EvalRequest),
    /// The expression's value, or the error it stops with.
    Finished(Result<Datum, ScriptError>),
    /// The player panics here (dividing the least integer by -1).
    Panics,
}

pub open spec fn action_matches(act: EvalAction, e: Evaluated<DatumView>) -> bool {
    match act {
        EvalAction::Ask(q) => e == Evaluated::<DatumView>::Need(q.view_of()),
        EvalAction::Finished(Ok(d)) => e == Evaluated::<DatumView>::Done(d@),
        EvalAction::Finished(Err(err)) => e == Evaluated::<DatumView>::Fail(error_view(err)),
        EvalAction::Panics => e is Panics,
    }
}

/// An evaluation in progress: the expression and the player's answers to
/// the questions asked so far.
pub struct EvalMachine {
    pub expr: Expr,
    pub answers: Vec<Result<Datum, ScriptError>>,
}

impl EvalMachine {
    /// An evaluation of `expr` with no question answered yet.
    pub fn new(expr: Expr) -> (m: EvalMachine)
        ensures
            m.expr == expr,
            m.answers@.len() == 0,
    {
        EvalMachine { expr, answers: Vec::new() }
    }

    /// Takes the answer to the last question, if one is given, and says what
    /// the evaluation wants next: the next question, or its outcome under all
    /// answers given.
    pub fn step(&mut self, answer: Option<Result<Datum, ScriptError>>) -> (act: EvalAction)
        ensures
            final(self).expr == old(self).expr,
            final(self).answers@ == (match answer {
                Some(x) => old(self).answers@.push(x),
                None => old(self).answers@,
            }),
            action_matches(act, eval_spec(final(self).expr, answers_view(final(self).answers@), 0).0),
    {
        if let Some(x) = answer {
            self.answers.push(x);
        }
        match eval_lingo_expr_ast_runtime(&self.expr, &self.answers) {
            EvalResult::Done(d) => EvalAction::Finished(Ok(d)),
            EvalResult::Fail(err) => EvalAction::Finished(Err(err)),
            EvalResult::Need(q) => EvalAction::Ask(q),
            EvalResult::Panics => EvalAction::Panics,
        }
    }
}

/// Once an evaluation has an outcome, it stands: answers given after it
/// change neither the outcome nor the answers it used; and a question is
/// asked only once every answer given is used.
pub proof fn lemma_outcome_stands(e: Expr, a: Seq<Result<Datum, ScriptError>>, b: Seq<Result<Datum, ScriptError>>)
    ensures
        eval_spec(e, answers_view(a), 0).0 is Need ==> eval_spec(e, answers_view(a), 0).1 == a.len(),
        !(eval_spec(e, answers_view(a), 0).0 is Need) ==> eval_spec(e, answers_view(a + b), 0) == eval_spec(
            e,
            answers_view(a),
            0,
        ),
{
    assert(answers_view(a + b) =~= answers_view(a) + answers_view(b));
    lemma_answers_taken_in_order(e, answers_view(a), answers_view(b), 0);
}

} // verus!
