//! Resolving a bare name met while evaluating Lingo text (in the debugger or
//! by `do`): a movie property, or a local, `me` or an argument of the
//! current handler; what is left is for the player to look up.
use vstd::prelude::*;
use std::collections::HashMap;
use crate::datum_ref::DatumRef;
use crate::events::ScriptInstanceRef;
use crate::text::{eq_ignore_ascii_case, lower_seq};

verus! {

/// The tokens of Lingo text: none are split out; the text is parsed whole.
pub fn tokenize_lingo(_expr: &str) -> (r: Vec<String>)
    ensures
        r@.len() == 0,
{
    Vec::new()
}

/// What of the current handler's frame a name can resolve against.
pub struct EvalScope {
    /// The name table of the handler's script, where the player has it.
    pub names: Option<Vec<String>>,
    /// The frame's locals, by name id.
    pub locals: HashMap<u16, DatumRef>,
    /// The receiver (`me`), if any.
    pub receiver: Option<ScriptInstanceRef>,
    /// The name ids of the handler's arguments, where the handler is found.
    pub argument_name_ids: Option<Vec<u16>>,
    /// The frame's arguments.
    pub args: Vec<DatumRef>,
}

/// What a bare name resolves to.
#[derive(Debug)]
pub enum TopLevelProp {
    /// `the X`: the movie property `X`.
    MovieProp(String),
    /// A local or an argument of the current handler.
    Value(DatumRef),
    /// `me`: the receiver.
    Me(ScriptInstanceRef),
    /// Nothing of the frame: the receiver's property of that name where it
    /// has one, else the global, else the player's top-level property.
    Elsewhere,
}

/// The same, over values.
pub enum TopLevelView {
    MovieProp(Seq<char>),
    Value(DatumRef),
    Me(ScriptInstanceRef),
    Elsewhere,
}

impl TopLevelProp {
    pub open spec fn view_of(self) -> TopLevelView {
        match self {
            TopLevelProp::MovieProp(n) => TopLevelView::MovieProp(n@),
            TopLevelProp::Value(v) => TopLevelView::Value(v),
            TopLevelProp::Me(r) => TopLevelView::Me(r),
            TopLevelProp::Elsewhere => TopLevelView::Elsewhere,
        }
    }
}

/// A name of the form `the X`.
pub open spec fn is_the_prop(p: Seq<char>) -> bool {
    p.len() >= 4 && p[0] == 't' && p[1] == 'h' && p[2] == 'e' && p[3] == ' '
}

/// The first index of a name in the table equal to `p` ignoring ASCII case.
pub open spec fn first_name_index(names: Seq<String>, p: Seq<char>) -> Option<int>
    decreases names.len(),
{
    if names.len() == 0 {
        None
    } else if lower_seq(names.last()@) == lower_seq(p) && first_name_index(names.drop_last(), p) is None {
        Some(names.len() - 1)
    } else {
        first_name_index(names.drop_last(), p)
    }
}

/// The local the name stands for: the first name of the table equal to it
/// ignoring ASCII case gives a name id (as a `u16`), set in the frame.
pub open spec fn local_named(scope: EvalScope, p: Seq<char>) -> Option<DatumRef> {
    match scope.names {
        Some(names) => match first_name_index(names@, p) {
            Some(i) => if scope.locals@.contains_key(i as u16) {
                Some(scope.locals@[i as u16])
            } else {
                None
            },
            None => None,
        },
        None => None,
    }
}

/// The first argument, from `i` on, whose name equals `p` ignoring ASCII
/// case and that the frame holds.
pub open spec fn argument_from(names: Seq<String>, ids: Seq<u16>, args: Seq<DatumRef>, p: Seq<char>, i: int) -> Option<DatumRef>
    decreases ids.len() - i,
{
    if i < 0 || i >= ids.len() {
        None
    } else if (ids[i] as int) < names.len() && lower_seq(names[ids[i] as int]@) == lower_seq(p) && i < args.len() {
        Some(args[i])
    } else {
        argument_from(names, ids, args, p, i + 1)
    }
}

/// The argument the name stands for, where the handler and its script's
/// name table are known.
pub open spec fn argument_named(scope: EvalScope, p: Seq<char>) -> Option<DatumRef> {
    match (scope.names, scope.argument_name_ids) {
        (Some(names), Some(ids)) => argument_from(names@, ids@, scope.args@, p, 0),
        _ => None,
    }
}

/// What a bare name resolves to: `the X` to the movie property `X`;
/// without a frame, to nothing of it; else, in turn, to a local of that
/// name, to the receiver for `me`, to an argument of that name, and
/// otherwise to nothing of the frame.
pub open spec fn top_level_prop(p: Seq<char>, scope: Option<EvalScope>) -> TopLevelView {
    if is_the_prop(p) {
        TopLevelView::MovieProp(p.skip(4))
    } else {
        match scope {
            None => TopLevelView::Elsewhere,
            Some(s) => match local_named(s, p) {
                Some(v) => TopLevelView::Value(v),
                None => if p == "me"@ && s.receiver is Some {
                    TopLevelView::Me(s.receiver.unwrap())
                } else {
                    match argument_named(s, p) {
                        Some(v) => TopLevelView::Value(v),
                        None => TopLevelView::Elsewhere,
                    }
                },
            },
        }
    }
}

fn first_name_index_exec(names: &Vec<String>, p: &str) -> (r: Option<usize>)
    ensures
        match r {
            Some(i) => first_name_index(names@, p@) == Some(i as int),
            None => first_name_index(names@, p@) is None,
        },
{
    let mut i: usize = 0;
    while i < names.len()
        invariant
            i <= names.len(),
            first_name_index(names@.take(i as int), p@) is None,
        decreases names.len() - i,
    {
        assert(names@.take(i + 1).drop_last() =~= names@.take(i as int));
        if eq_ignore_ascii_case(names[i].as_str(), p) {
            proof {
                lemma_first_name_index_prefix(names@, p@, i as int + 1);
            }
            return Some(i);
        }
        i = i + 1;
    }
    assert(names@.take(names.len() as int) =~= names@);
    None
}

/// A match found in a prefix is the first one of the whole table.
proof fn lemma_first_name_index_prefix(names: Seq<String>, p: Seq<char>, n: int)
    requires
        0 <= n <= names.len(),
        first_name_index(names.take(n), p) is Some,
    ensures
        first_name_index(names, p) == first_name_index(names.take(n), p),
    decreases names.len() - n,
{
    if n < names.len() {
        assert(names.take(n + 1).drop_last() =~= names.take(n));
        assert(first_name_index(names.take(n + 1), p) == first_name_index(names.take(n), p));
        lemma_first_name_index_prefix(names, p, n + 1);
    } else {
        assert(names.take(n) =~= names);
    }
}

fn argument_named_exec(names: &Vec<String>, ids: &Vec<u16>, args: &Vec<DatumRef>, p: &str) -> (r: Option<DatumRef>)
    ensures
        r == argument_from(names@, ids@, args@, p@, 0),
{
    let mut i: usize = 0;
    while i < ids.len()
        invariant
            i <= ids.len(),
            argument_from(names@, ids@, args@, p@, 0) == argument_from(names@, ids@, args@, p@, i as int),
        decreases ids.len() - i,
    {
        let id = ids[i] as usize;
        if id < names.len() && eq_ignore_ascii_case(names[id].as_str(), p) && i < args.len() {
            return Some(args[i]);
        }
        i = i + 1;
    }
    None
}

/// Resolves a bare name against the current handler's frame; see
/// `top_level_prop`.
pub fn get_eval_top_level_prop(prop_name: &str, scope: &Option<EvalScope>) -> (r: TopLevelProp)
    ensures
        r.view_of() == top_level_prop(prop_name@, *scope),
{
    let n = prop_name.unicode_len();
    if n >= 4 && prop_name.get_char(0) == 't' && prop_name.get_char(1) == 'h' && prop_name.get_char(2) == 'e'
        && prop_name.get_char(3) == ' ' {
        let rest = prop_name.substring_char(4, n);
        assert(rest@ =~= prop_name@.skip(4));
        return TopLevelProp::MovieProp(rest.to_string());
    }
    let s = match scope {
        None => {
            return TopLevelProp::Elsewhere;
        },
        Some(s) => s,
    };
    if let Some(names) = &s.names {
        if let Some(i) = first_name_index_exec(names, prop_name) {
            let id = #[verifier::truncate] (i as u16);
            assert(first_name_index(names@, prop_name@) == Some(i as int));
            if let Some(v) = s.locals.get(&id) {
                assert(local_named(*s, prop_name@) == Some(*v));
                return TopLevelProp::Value(*v);
            }
            assert(local_named(*s, prop_name@) is None);
        }
    }
    let is_me = n == 2 && prop_name.get_char(0) == 'm' && prop_name.get_char(1) == 'e';
    proof {
        reveal_strlit("me");
        if prop_name@ == "me"@ {
            assert(is_me);
        }
        if is_me {
            assert(prop_name@ =~= "me"@);
        }
    }
    if is_me {
        if let Some(receiver) = s.receiver {
            assert(local_named(*s, prop_name@) is None);
            return TopLevelProp::Me(receiver);
        }
    }
    if let (Some(names), Some(ids)) = (&s.names, &s.argument_name_ids) {
        if let Some(v) = argument_named_exec(names, ids, &s.args, prop_name) {
            return TopLevelProp::Value(v);
        }
    }
    TopLevelProp::Elsewhere
}

} // verus!
