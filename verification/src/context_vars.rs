//! Reading the operands of a context-variable bytecode (a global, property,
//! argument, local or field reference) off the operand stack.
use vstd::prelude::*;
use std::collections::HashMap;
use crate::datum::{Datum, DatumView, ScriptError, ScriptErrorCode};
use crate::datum_ref::DatumRef;
use crate::scope::{Scope, StackDatum};
use crate::text::{eq_ignore_ascii_case, lower_seq};
use crate::cast_member::{byte_len, caret_after, caret_at_end, ButtonMember, EditableText, FieldMember};

verus! {

/// The variable type of a field reference.
pub const FIELD_VAR_TYPE: u32 = 6;

/// Whether a reference of this type carries a cast operand as well: a field
/// reference does, from Director 5 on.
pub open spec fn has_cast_operand(var_type: u32, dir_version: u16) -> bool {
    var_type == FIELD_VAR_TYPE && dir_version >= 500
}

/// Pops the operands of a context-variable reference: the cast id first,
/// where the reference has one, then the variable id. Returns the id and the
/// cast id.
pub fn read_context_var_args(scope: &mut Scope, var_type: u32, dir_version: u16) -> (r: (
    StackDatum,
    Option<StackDatum>,
))
    requires
        old(scope).stack.len() >= if has_cast_operand(var_type, dir_version) {
            2nat
        } else {
            1nat
        },
    ensures
        ({
            let st = old(scope).stack@;
            let n = st.len();
            if has_cast_operand(var_type, dir_version) {
                &&& r.1 == Some(st[n - 1])
                &&& r.0 == st[n - 2]
                &&& final(scope).stack@ == st.take(n - 2)
            } else {
                &&& r.1 is None
                &&& r.0 == st[n - 1]
                &&& final(scope).stack@ == st.take(n - 1)
            }
        }),
        final(scope).args == old(scope).args,
        final(scope).locals == old(scope).locals,
        final(scope).locals_assigned == old(scope).locals_assigned,
        final(scope).bytecode_index == old(scope).bytecode_index,
        final(scope).return_value == old(scope).return_value,
{
    let cast_id = if var_type == FIELD_VAR_TYPE && dir_version >= 500 {
        match scope.stack.pop() {
            Some(v) => Some(v),
            None => None,
        }
    } else {
        None
    };
    let id = match scope.stack.pop() {
        Some(v) => v,
        None => StackDatum::Void,
    };
    proof {
        let st = old(scope).stack@;
        let n = st.len();
        if has_cast_operand(var_type, dir_version) {
            assert(st.drop_last().drop_last() =~= st.take(n - 2));
        } else {
            assert(st.drop_last() =~= st.take(n - 1));
        }
    }
    (id, cast_id)
}

/// What resolving a context variable reads from the player: the current
/// handler's global and local name ids, the current script's property name
/// ids, the script context's name table, the globals, and the frame's
/// arguments and locals.
pub struct ContextVarEnv {
    /// The operand width of the movie's bytecode: an id operand is an index
    /// times this.
    pub variable_multiplier: u32,
    pub global_name_ids: Vec<u16>,
    pub property_name_ids: Vec<u16>,
    pub local_name_ids: Vec<u16>,
    /// Names by name id.
    pub names: Vec<String>,
    /// The globals, by name.
    pub globals: Vec<(String, DatumRef)>,
    pub args: Vec<DatumRef>,
    /// The frame's locals, by name id.
    pub locals: HashMap<u16, DatumRef>,
}

/// What a context variable resolves to.
pub enum ContextVarValue {
    /// The variable's value.
    Value(DatumRef),
    /// The property of this name, of the receiver or, without one, of the script.
    Property(String),
    /// The text of the field member the reference's operands name.
    Field,
}

/// The same, over values.
pub enum ContextVarView {
    Value(DatumRef),
    Property(Seq<char>),
    Field,
}

impl ContextVarValue {
    pub open spec fn view_of(self) -> ContextVarView {
        match self {
            ContextVarValue::Value(r) => ContextVarView::Value(r),
            ContextVarValue::Property(n) => ContextVarView::Property(n@),
            ContextVarValue::Field => ContextVarView::Field,
        }
    }
}

/// The index an integer id operand stands for: the id over the multiplier,
/// rounded toward zero, as an index (`None` for an id that is not an integer).
pub open spec fn id_index(id: DatumView, multiplier: u32) -> Option<int> {
    match id {
        DatumView::Int(n) => {
            let q = if n >= 0 {
                n as int / multiplier as int
            } else {
                -((-(n as int)) / multiplier as int)
            };
            Some((q as i32) as usize as int)
        },
        _ => None,
    }
}

/// The name with this id, if the name table has it.
pub open spec fn name_of(env: ContextVarEnv, name_id: u16) -> Option<Seq<char>> {
    if (name_id as int) < env.names@.len() {
        Some(env.names@[name_id as int]@)
    } else {
        None
    }
}

/// The name the `i`-th of `ids` names.
pub open spec fn indexed_name(env: ContextVarEnv, ids: Seq<u16>, i: int) -> Seq<char> {
    name_of(env, ids[i]).unwrap()
}

/// Whether an indexed reference into `ids` finds a named entry (an integer
/// id past the end, or naming no name, stops the player).
pub open spec fn indexed_name_found(env: ContextVarEnv, ids: Seq<u16>, id: DatumView) -> bool {
    match id_index(id, env.variable_multiplier) {
        Some(i) => 0 <= i < ids.len() && name_of(env, ids[i]) is Some,
        None => true,
    }
}

/// The value of the first global of this name, VOID if there is none.
pub open spec fn global_value(globals: Seq<(String, DatumRef)>, name: Seq<char>) -> DatumRef
    decreases globals.len(),
{
    if globals.len() == 0 {
        DatumRef::Void
    } else if globals[0].0@ == name {
        globals[0].1
    } else {
        global_value(globals.drop_first(), name)
    }
}

/// The first of the handler's local name ids whose name equals `name`
/// ignoring ASCII case.
pub open spec fn local_id_named(env: ContextVarEnv, ids: Seq<u16>, name: Seq<char>) -> Option<u16>
    decreases ids.len(),
{
    if ids.len() == 0 {
        None
    } else if name_of(env, ids[0]) matches Some(n) && lower_seq(n) == lower_seq(name) {
        Some(ids[0])
    } else {
        local_id_named(env, ids.drop_first(), name)
    }
}

/// The value of the local with this name id, VOID if unset.
pub open spec fn local_value(env: ContextVarEnv, name_id: u16) -> DatumRef {
    if env.locals@.contains_key(name_id) {
        env.locals@[name_id]
    } else {
        DatumRef::Void
    }
}

/// Whether resolving the reference runs without stopping the player: an
/// integer id must index a named entry (for globals and properties) or an
/// argument.
pub open spec fn context_var_resolvable(id: DatumView, var_type: u32, env: ContextVarEnv) -> bool {
    if var_type == 1 || var_type == 2 {
        id is Symbol || indexed_name_found(env, env.global_name_ids@, id)
    } else if var_type == 3 {
        id is Symbol || indexed_name_found(env, env.property_name_ids@, id)
    } else if var_type == 4 {
        match id_index(id, env.variable_multiplier) {
            Some(i) => 0 <= i < env.args@.len(),
            None => true,
        }
    } else if var_type == 5 {
        match id_index(id, env.variable_multiplier) {
            Some(i) => id is Symbol || 0 <= i < env.local_name_ids@.len(),
            None => true,
        }
    } else {
        true
    }
}

/// What a context-variable reference resolves to: a global (types 1 and 2)
/// by symbol or by the handler's global names; a property (3) by symbol or
/// by the script's property names; an argument (4) by index; a local (5) by
/// a symbol matching a local's name ignoring ASCII case, or by index; a
/// field (6). `Err` where an index operand is not an integer, no local has
/// the symbol's name, or the type is none of these.
pub open spec fn context_var_spec(id: DatumView, var_type: u32, env: ContextVarEnv) -> Result<ContextVarView, ()> {
    if var_type == 1 || var_type == 2 {
        match id {
            DatumView::Symbol(name) => Ok(ContextVarView::Value(global_value(env.globals@, name))),
            _ => match id_index(id, env.variable_multiplier) {
                Some(i) => Ok(ContextVarView::Value(global_value(env.globals@, indexed_name(env, env.global_name_ids@, i)))),
                None => Err(()),
            },
        }
    } else if var_type == 3 {
        match id {
            DatumView::Symbol(name) => Ok(ContextVarView::Property(name)),
            _ => match id_index(id, env.variable_multiplier) {
                Some(i) => Ok(ContextVarView::Property(indexed_name(env, env.property_name_ids@, i))),
                None => Err(()),
            },
        }
    } else if var_type == 4 {
        match id_index(id, env.variable_multiplier) {
            Some(i) => Ok(ContextVarView::Value(env.args@[i])),
            None => Err(()),
        }
    } else if var_type == 5 {
        match id {
            DatumView::Symbol(name) => match local_id_named(env, env.local_name_ids@, name) {
                Some(nid) => Ok(ContextVarView::Value(local_value(env, nid))),
                None => Err(()),
            },
            _ => match id_index(id, env.variable_multiplier) {
                Some(i) => Ok(ContextVarView::Value(local_value(env, env.local_name_ids@[i]))),
                None => Err(()),
            },
        }
    } else if var_type == 6 {
        Ok(ContextVarView::Field)
    } else {
        Err(())
    }
}

fn index_of_id(id: &Datum, multiplier: u32) -> (r: Result<usize, ScriptError>)
    requires
        0 < multiplier <= i32::MAX,
    ensures
        match id_index(id@, multiplier) {
            Some(i) => r matches Ok(k) && k == i,
            None => r matches Err(e) && e.code == ScriptErrorCode::Generic,
        },
{
    match id {
        Datum::Int(n) => {
            let q: i32 = match n.checked_div(multiplier as i32) {
                Some(q) => q,
                None => 0,
            };
            Ok(q as usize)
        },
        _ => Err(ScriptError::new(String::from_str("the variable id is not an integer"))),
    }
}

fn name_at(env: &ContextVarEnv, name_id: u16) -> (r: &String)
    requires
        name_of(*env, name_id) is Some,
    ensures
        Some(r@) == name_of(*env, name_id),
{
    &env.names[name_id as usize]
}

fn global_lookup(globals: &Vec<(String, DatumRef)>, name: &String) -> (r: DatumRef)
    ensures
        r == global_value(globals@, name@),
{
    let mut i: usize = 0;
    assert(globals@.skip(0) =~= globals@);
    while i < globals.len()
        invariant
            i <= globals.len(),
            global_value(globals@, name@) == global_value(globals@.skip(i as int), name@),
        decreases globals.len() - i,
    {
        assert(globals@.skip(i as int).drop_first() =~= globals@.skip(i + 1));
        if globals[i].0 == *name {
            return globals[i].1;
        }
        i = i + 1;
    }
    DatumRef::Void
}

fn local_lookup(env: &ContextVarEnv, name_id: u16) -> (r: DatumRef)
    ensures
        r == local_value(*env, name_id),
{
    match env.locals.get(&name_id) {
        Some(v) => *v,
        None => DatumRef::Void,
    }
}

fn find_local_named(env: &ContextVarEnv, name: &String) -> (r: Option<u16>)
    ensures
        r == local_id_named(*env, env.local_name_ids@, name@),
{
    let ids = &env.local_name_ids;
    let mut i: usize = 0;
    assert(ids@.skip(0) =~= ids@);
    while i < ids.len()
        invariant
            i <= ids.len(),
            ids@ == env.local_name_ids@,
            local_id_named(*env, ids@, name@) == local_id_named(*env, ids@.skip(i as int), name@),
        decreases ids.len() - i,
    {
        assert(ids@.skip(i as int).drop_first() =~= ids@.skip(i + 1));
        let nid = ids[i];
        if (nid as usize) < env.names.len() {
            if eq_ignore_ascii_case(env.names[nid as usize].as_str(), name.as_str()) {
                return Some(nid);
            }
        }
        i = i + 1;
    }
    None
}

/// Resolves a context-variable reference; see `context_var_spec`.
pub fn player_get_context_var(id: &Datum, var_type: u32, env: &ContextVarEnv) -> (r: Result<
    ContextVarValue,
    ScriptError,
>)
    requires
        0 < env.variable_multiplier <= i32::MAX,
        context_var_resolvable(id@, var_type, *env),
    ensures
        match context_var_spec(id@, var_type, *env) {
            Ok(v) => r matches Ok(w) && w.view_of() == v,
            Err(()) => r matches Err(e) && e.code == ScriptErrorCode::Generic,
        },
{
    if var_type == 1 || var_type == 2 {
        if let Datum::Symbol(name) = id {
            return Ok(ContextVarValue::Value(global_lookup(&env.globals, name)));
        }
        let i = match index_of_id(id, env.variable_multiplier) {
            Ok(i) => i,
            Err(e) => {
                return Err(e);
            },
        };
        let name = name_at(env, env.global_name_ids[i]);
        Ok(ContextVarValue::Value(global_lookup(&env.globals, name)))
    } else if var_type == 3 {
        if let Datum::Symbol(name) = id {
            return Ok(ContextVarValue::Property(name.clone()));
        }
        let i = match index_of_id(id, env.variable_multiplier) {
            Ok(i) => i,
            Err(e) => {
                return Err(e);
            },
        };
        let name = name_at(env, env.property_name_ids[i]);
        Ok(ContextVarValue::Property(name.clone()))
    } else if var_type == 4 {
        let i = match index_of_id(id, env.variable_multiplier) {
            Ok(i) => i,
            Err(e) => {
                return Err(e);
            },
        };
        Ok(ContextVarValue::Value(env.args[i]))
    } else if var_type == 5 {
        let name_id = if let Datum::Symbol(name) = id {
            match find_local_named(env, name) {
                Some(nid) => nid,
                None => {
                    return Err(ScriptError::new(String::from_str("local variable not found")));
                },
            }
        } else {
            let i = match index_of_id(id, env.variable_multiplier) {
                Ok(i) => i,
                Err(e) => {
                    return Err(e);
                },
            };
            env.local_name_ids[i]
        };
        Ok(ContextVarValue::Value(local_lookup(env, name_id)))
    } else if var_type == 6 {
        Ok(ContextVarValue::Field)
    } else {
        Err(ScriptError::new(String::from_str("invalid context var type")))
    }
}

/// How `put` places text into a field.
#[derive(Clone, Copy, Debug, PartialEq, Eq, Structural)]
pub enum PutType {
    Into,
    Before,
    After,
}

/// The text a `put` leaves: the new text alone, before the old, or after it.
pub open spec fn put_text(put_type: PutType, new_value: Seq<char>, existing: Seq<char>) -> Seq<char> {
    match put_type {
        PutType::Into => new_value,
        PutType::Before => new_value + existing,
        PutType::After => existing + new_value,
    }
}

/// The text a `put` of `new_value` into text `existing` leaves; see `put_text`.
pub fn combine_put(put_type: PutType, new_value: String, existing: &String) -> (r: String)
    ensures
        r@ == put_text(put_type, new_value@, existing@),
{
    match put_type {
        PutType::Into => new_value,
        PutType::Before => {
            let mut combined = new_value;
            combined.append(existing.as_str());
            combined
        },
        PutType::After => {
            let mut combined = existing.clone();
            combined.append(new_value.as_str());
            combined
        },
    }
}

/// What setting a context variable leaves for the player to do: nothing
/// more, or setting a property.
#[derive(Debug)]
pub enum ContextVarWrite {
    Done,
    /// Set the property of this name, of the receiver or, without one, of the script.
    Property(String),
}

/// What setting a field variable (type 6) works on: how to put, the text of
/// the value as the player reads it (or the error reading it gives), and
/// the member the reference names as the player's cast manager finds it
/// (none where there is no such member, or the error the search gives).
pub struct FieldWrite {
    pub put_type: PutType,
    pub value_text: Result<String, ScriptError>,
    pub member: Result<Option<PutTarget>, ScriptError>,
}

/// Two errors alike: the same kind and message.
pub open spec fn same_error(a: ScriptError, b: ScriptError) -> bool {
    a.code == b.code && a.message@ == b.message@
}

/// What a field write may meet without stopping the player: where the text
/// and the member are there, the put is allowed (see `put_allowed`).
pub open spec fn field_write_allowed(f: FieldWrite) -> bool {
    match (f.value_text, f.member) {
        (Ok(t), Ok(m)) => put_allowed(m, f.put_type, t@),
        _ => true,
    }
}

/// A field write's outcome: the error reading the value's text, else the
/// error finding the member, else the put (see `put_outcome`); the member
/// changes only by the put.
pub open spec fn field_write_outcome(before: FieldWrite, after: FieldWrite, r: Result<(), ScriptError>) -> bool {
    &&& after.put_type == before.put_type
    &&& after.value_text == before.value_text
    &&& match before.value_text {
        Err(e) => r matches Err(x) && same_error(x, e) && after.member == before.member,
        Ok(t) => match before.member {
            Err(e) => r matches Err(x) && same_error(x, e) && after.member == before.member,
            Ok(m) => after.member matches Ok(m2) && put_outcome(m, m2, before.put_type, t@, r),
        },
    }
}

fn copy_error(e: &ScriptError) -> (r: ScriptError)
    ensures
        same_error(r, *e),
{
    ScriptError { code: e.code, message: e.message.clone() }
}

fn set_global(globals: &mut Vec<(String, DatumRef)>, name: String, value: DatumRef)
    ensures
        forall|n: Seq<char>|
            #[trigger] global_value(final(globals)@, n) == if n == name@ {
                value
            } else {
                global_value(old(globals)@, n)
            },
{
    let mut i: usize = 0;
    while i < globals.len()
        invariant
            i <= globals.len(),
            globals@ == old(globals)@,
            forall|j: int| 0 <= j < i ==> globals@[j].0@ != name@,
        decreases globals.len() - i,
    {
        if globals[i].0 == name {
            proof {
                lemma_global_value_at(old(globals)@, i as int, name@);
            }
            let ghost before = globals@;
            let ghost key = name;
            globals.set(i, (name, value));
            proof {
                assert forall|n: Seq<char>| #[trigger] global_value(globals@, n) == if n == before[i as int].0@ {
                    value
                } else {
                    global_value(before, n)
                } by {
                    lemma_global_value_update(before, i as int, n, key, value);
                }
            }
            return;
        }
        i = i + 1;
    }
    let ghost before = globals@;
    globals.push((name, value));
    proof {
        assert forall|n: Seq<char>| #[trigger] global_value(globals@, n) == if n == before.push((name, value)).last().0@ {
            value
        } else {
            global_value(before, n)
        } by {
            lemma_global_value_push(before, n, name, value);
        }
    }
}

proof fn lemma_global_value_at(globals: Seq<(String, DatumRef)>, i: int, name: Seq<char>)
    requires
        0 <= i < globals.len(),
        globals[i].0@ == name,
        forall|j: int| 0 <= j < i ==> globals[j].0@ != name,
    ensures
        global_value(globals, name) == globals[i].1,
    decreases i,
{
    if i > 0 {
        lemma_global_value_at(globals.drop_first(), i - 1, name);
    }
}

proof fn lemma_global_value_update(globals: Seq<(String, DatumRef)>, i: int, n: Seq<char>, key: String, value: DatumRef)
    requires
        0 <= i < globals.len(),
        key@ == globals[i].0@,
        forall|j: int| 0 <= j < i ==> globals[j].0@ != globals[i].0@,
    ensures
        global_value(globals.update(i, (key, value)), n) == if n == globals[i].0@ {
            value
        } else {
            global_value(globals, n)
        },
    decreases i,
{
    let g2 = globals.update(i, (key, value));
    if i == 0 {
        assert(g2.drop_first() =~= globals.drop_first());
    } else {
        let rest = globals.drop_first();
        assert(rest[i - 1] == globals[i]);
        assert forall|j: int| 0 <= j < i - 1 implies #[trigger] rest[j].0@ != rest[i - 1].0@ by {
            assert(rest[j] == globals[j + 1]);
        }
        assert(g2.drop_first() =~= rest.update(i - 1, (key, value)));
        assert(g2[0] == globals[0]);
        assert(globals[0].0@ != globals[i].0@);
        lemma_global_value_update(rest, i - 1, n, key, value);
    }
}

proof fn lemma_global_value_push(globals: Seq<(String, DatumRef)>, n: Seq<char>, name: String, value: DatumRef)
    requires
        forall|j: int| 0 <= j < globals.len() ==> globals[j].0@ != name@,
    ensures
        global_value(globals.push((name, value)), n) == if n == name@ {
            value
        } else {
            global_value(globals, n)
        },
    decreases globals.len(),
{
    let g2 = globals.push((name, value));
    if globals.len() == 0 {
        assert(g2.drop_first() =~= Seq::<(String, DatumRef)>::empty());
        assert(g2[0] == (name, value));
    } else {
        let rest = globals.drop_first();
        assert forall|j: int| 0 <= j < rest.len() implies rest[j].0@ != name@ by {
            assert(rest[j] == globals[j + 1]);
        }
        assert(g2.drop_first() =~= rest.push((name, value)));
        assert(g2[0] == globals[0]);
        assert(globals[0].0@ != name@);
        lemma_global_value_push(rest, n, name, value);
    }
}

/// The name of the global a reference of type 1 or 2 names: the symbol
/// itself, or the handler's global name at the operand's index.
pub open spec fn global_target(id: DatumView, env: ContextVarEnv) -> Seq<char> {
    match id {
        DatumView::Symbol(n) => n,
        _ => indexed_name(env, env.global_name_ids@, id_index(id, env.variable_multiplier).unwrap()),
    }
}

/// How setting a resolvable context variable to `value` changes the
/// environment: the name tables and the multiplier stay; a global (types 1
/// and 2) takes the value under its name, an argument (4) or a local (5) is
/// replaced, and nothing else changes; for a property (3) or a field (6)
/// the environment stays as it was.
pub open spec fn env_after_write(id: DatumView, var_type: u32, value: DatumRef, before: ContextVarEnv, after: ContextVarEnv) -> bool {
    &&& after.variable_multiplier == before.variable_multiplier
    &&& after.names == before.names
    &&& after.global_name_ids == before.global_name_ids
    &&& after.property_name_ids == before.property_name_ids
    &&& after.local_name_ids == before.local_name_ids
    &&& if var_type == 1 || var_type == 2 {
        let name = global_target(id, before);
        &&& forall|n: Seq<char>|
            #[trigger] global_value(after.globals@, n) == if n == name {
                value
            } else {
                global_value(before.globals@, n)
            }
        &&& after.args == before.args
        &&& after.locals == before.locals
    } else if var_type == 4 {
        &&& after.args@ == before.args@.update(id_index(id, before.variable_multiplier).unwrap(), value)
        &&& after.globals == before.globals
        &&& after.locals == before.locals
    } else if var_type == 5 {
        let name_id = match id {
            DatumView::Symbol(n) => local_id_named(before, before.local_name_ids@, n).unwrap(),
            _ => before.local_name_ids@[id_index(id, before.variable_multiplier).unwrap()],
        };
        &&& after.locals@ == before.locals@.insert(name_id, value)
        &&& after.globals == before.globals
        &&& after.args == before.args
    } else {
        after == before
    }
}

/// Sets a context variable to `value`: a global (types 1 and 2) or a local
/// (5) by name or index, or an argument (4) by index; a field (6) gets the
/// value's text put into, before or after its text (see `FieldWrite` and
/// `player_put_field_text`); a property (3) is left to the player, with the
/// property's name. Errors as for reading: an index operand that is not an
/// integer, a local name not found, or an unknown type; and for a field, the
/// errors of the field write.
pub fn player_set_context_var(
    id: &Datum,
    var_type: u32,
    value: DatumRef,
    env: &mut ContextVarEnv,
    field: &mut FieldWrite,
) -> (r: Result<ContextVarWrite, ScriptError>)
    requires
        0 < old(env).variable_multiplier <= i32::MAX,
        context_var_resolvable(id@, var_type, *old(env)),
        var_type == 6 ==> field_write_allowed(*old(field)),
    ensures
        var_type != 6 ==> *final(field) == *old(field),
        match context_var_spec(id@, var_type, *old(env)) {
            Err(()) => r matches Err(e) && e.code == ScriptErrorCode::Generic && *final(env) == *old(env),
            Ok(v) => {
                &&& env_after_write(id@, var_type, value, *old(env), *final(env))
                &&& if var_type == 3 {
                    v matches ContextVarView::Property(name) && r matches Ok(ContextVarWrite::Property(p)) && p@ == name
                } else if var_type == 6 {
                    field_write_outcome(
                        *old(field),
                        *final(field),
                        match r {
                            Ok(_) => Ok(()),
                            Err(e) => Err(e),
                        },
                    ) && (r is Ok ==> r matches Ok(ContextVarWrite::Done))
                } else {
                    r matches Ok(ContextVarWrite::Done)
                }
            },
        },
{
    if var_type == 1 || var_type == 2 {
        let name = if let Datum::Symbol(name) = id {
            name.clone()
        } else {
            let i = match index_of_id(id, env.variable_multiplier) {
                Ok(i) => i,
                Err(e) => {
                    return Err(e);
                },
            };
            name_at(env, env.global_name_ids[i]).clone()
        };
        set_global(&mut env.globals, name, value);
        Ok(ContextVarWrite::Done)
    } else if var_type == 3 {
        if let Datum::Symbol(name) = id {
            return Ok(ContextVarWrite::Property(name.clone()));
        }
        let i = match index_of_id(id, env.variable_multiplier) {
            Ok(i) => i,
            Err(e) => {
                return Err(e);
            },
        };
        let name = name_at(env, env.property_name_ids[i]);
        Ok(ContextVarWrite::Property(name.clone()))
    } else if var_type == 4 {
        let i = match index_of_id(id, env.variable_multiplier) {
            Ok(i) => i,
            Err(e) => {
                return Err(e);
            },
        };
        env.args.set(i, value);
        Ok(ContextVarWrite::Done)
    } else if var_type == 5 {
        let name_id = if let Datum::Symbol(name) = id {
            match find_local_named(env, name) {
                Some(nid) => nid,
                None => {
                    return Err(ScriptError::new(String::from_str("local variable not found")));
                },
            }
        } else {
            let i = match index_of_id(id, env.variable_multiplier) {
                Ok(i) => i,
                Err(e) => {
                    return Err(e);
                },
            };
            env.local_name_ids[i]
        };
        env.locals.insert(name_id, value);
        Ok(ContextVarWrite::Done)
    } else if var_type == 6 {
        let text = match &field.value_text {
            Ok(t) => t.clone(),
            Err(e) => {
                return Err(copy_error(e));
            },
        };
        match &mut field.member {
            Ok(m) => match player_put_field_text(m, field.put_type, text) {
                Ok(()) => Ok(ContextVarWrite::Done),
                Err(e) => Err(e),
            },
            Err(e) => Err(copy_error(e)),
        }
    } else {
        Err(ScriptError::new(String::from_str("invalid context var type")))
    }
}

/// A local's name id found by name depends only on the name table.
proof fn lemma_local_id_named_by_names(e1: ContextVarEnv, e2: ContextVarEnv, ids: Seq<u16>, name: Seq<char>)
    requires
        e1.names == e2.names,
    ensures
        local_id_named(e1, ids, name) == local_id_named(e2, ids, name),
    decreases ids.len(),
{
    if ids.len() > 0 {
        lemma_local_id_named_by_names(e1, e2, ids.drop_first(), name);
    }
}

/// Reading a global, an argument or a local just written gives back the
/// value written.
pub proof fn lemma_written_context_var_reads_back(id: DatumView, var_type: u32, value: DatumRef, before: ContextVarEnv, after: ContextVarEnv)
    requires
        var_type == 1 || var_type == 2 || var_type == 4 || var_type == 5,
        context_var_resolvable(id, var_type, before),
        context_var_spec(id, var_type, before) is Ok,
        env_after_write(id, var_type, value, before, after),
    ensures
        context_var_spec(id, var_type, after) == Ok::<ContextVarView, ()>(ContextVarView::Value(value)),
{
    if var_type == 5 {
        if let DatumView::Symbol(n) = id {
            lemma_local_id_named_by_names(before, after, before.local_name_ids@, n);
        }
    }
}

/// Writing a global leaves every other global as it was.
pub proof fn lemma_write_keeps_other_globals(id: DatumView, var_type: u32, value: DatumRef, before: ContextVarEnv, after: ContextVarEnv, other: Seq<char>)
    requires
        var_type == 1 || var_type == 2,
        env_after_write(id, var_type, value, before, after),
        other != global_target(id, before),
    ensures
        global_value(after.globals@, other) == global_value(before.globals@, other),
{
}

// ---- Putting text into a field ----

/// The member a field reference names, as a `put` sees it.
pub enum PutTarget {
    Field(FieldMember),
    Text(EditableText),
    Button(ButtonMember),
    /// A member of another kind.
    Other,
}

/// The caret stays where it can: where the caret is not at the old text's
/// end, the new text's length reads as a non-negative 32-bit number.
pub open spec fn caret_can_move(sel_start: i32, sel_end: i32, old_text: Seq<char>, new_text: Seq<char>) -> bool {
    !caret_at_end(sel_start, sel_end, byte_len(old_text)) ==> byte_len(new_text) >= 0
}

/// A field after its text became `t` by `set_text_preserving_caret`.
pub open spec fn field_with_text(f: FieldMember, t: Seq<char>, g: FieldMember) -> bool {
    let c = caret_after(f.sel_start, f.sel_end, byte_len(f.text@), byte_len(t));
    g.text@ == t && g == (FieldMember { text: g.text, sel_start: c, sel_end: c, sel_anchor: c, ..f })
}

/// What a `put` of `new_value` may meet without stopping the player: the
/// caret of the member's text can move.
pub open spec fn put_allowed(target: Option<PutTarget>, put_type: PutType, new_value: Seq<char>) -> bool {
    match target {
        Some(PutTarget::Field(f)) => caret_can_move(f.sel_start, f.sel_end, f.text@, put_text(put_type, new_value, f.text@)),
        Some(PutTarget::Text(t)) => caret_can_move(t.sel_start, t.sel_end, t.text@, put_text(put_type, new_value, t.text@)),
        Some(PutTarget::Button(b)) => caret_can_move(
            b.field.sel_start,
            b.field.sel_end,
            b.field.text@,
            put_text(put_type, new_value, b.field.text@),
        ),
        _ => true,
    }
}

/// The outcome of putting `new_value` into a field reference's member:
/// without a member, or with one of another kind, an error and no change;
/// else the member's text after the put, its caret moved as
/// `set_text_preserving_caret` does.
pub open spec fn put_outcome(
    before: Option<PutTarget>,
    after: Option<PutTarget>,
    put_type: PutType,
    new_value: Seq<char>,
    r: Result<(), ScriptError>,
) -> bool {
    match before {
        None => r matches Err(e) && e.code == ScriptErrorCode::Generic && e.message@ == "Field member not found"@
            && after == before,
        Some(PutTarget::Other) => r matches Err(e) && e.code == ScriptErrorCode::Generic && e.message@
            == "Cast member exists but is not a Field, Text, or Button"@ && after == before,
        Some(PutTarget::Field(f)) => {
            &&& r is Ok
            &&& after matches Some(PutTarget::Field(g))
            &&& field_with_text(f, put_text(put_type, new_value, f.text@), g)
        },
        Some(PutTarget::Text(t)) => {
            let c = caret_after(
                t.sel_start,
                t.sel_end,
                byte_len(t.text@),
                byte_len(put_text(put_type, new_value, t.text@)),
            );
            &&& r is Ok
            &&& after matches Some(PutTarget::Text(u))
            &&& u.text@ == put_text(put_type, new_value, t.text@)
            &&& u.sel_start == c && u.sel_end == c && u.sel_anchor == c
        },
        Some(PutTarget::Button(b)) => {
            &&& r is Ok
            &&& after matches Some(PutTarget::Button(c))
            &&& field_with_text(b.field, put_text(put_type, new_value, b.field.text@), c.field)
            &&& c == (ButtonMember { field: c.field, ..b })
        },
    }
}

/// Puts `new_value` into, before or after the text of the field, text or
/// button member a field reference names, moving its caret as
/// `set_text_preserving_caret` does. Without a member, or with a member of
/// another kind, it is an error and nothing changes.
pub fn player_put_field_text(member: &mut Option<PutTarget>, put_type: PutType, new_value: String) -> (r: Result<
    (),
    ScriptError,
>)
    requires
        put_allowed(*old(member), put_type, new_value@),
    ensures
        put_outcome(*old(member), *final(member), put_type, new_value@, r),
{
    match member {
        None => Err(ScriptError::new(String::from_str("Field member not found"))),
        Some(PutTarget::Field(f)) => {
            let combined = combine_put(put_type, new_value, &f.text);
            f.set_text_preserving_caret(combined);
            Ok(())
        },
        Some(PutTarget::Text(t)) => {
            let combined = combine_put(put_type, new_value, &t.text);
            t.set_text_preserving_caret(combined);
            Ok(())
        },
        Some(PutTarget::Button(b)) => {
            let combined = combine_put(put_type, new_value, &b.field.text);
            b.field.set_text_preserving_caret(combined);
            Ok(())
        },
        Some(PutTarget::Other) => Err(
            ScriptError::new(String::from_str("Cast member exists but is not a Field, Text, or Button")),
        ),
    }
}

} // verus!
