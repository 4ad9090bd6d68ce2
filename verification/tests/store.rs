use vm_rust::cast_member::{ButtonMember, ButtonType, EditableText, FieldMember};
use vm_rust::context_vars::{player_put_field_text, FieldWrite, PutTarget};
use vm_rust::datum::{ScriptError, ScriptErrorCode};
use vm_rust::allocator::DatumAllocator;
use std::collections::HashMap;

use vm_rust::context_vars::{
    combine_put, player_get_context_var, player_set_context_var, read_context_var_args, ContextVarEnv, ContextVarValue,
    ContextVarWrite, PutType,
};
use vm_rust::datum::Datum;
use vm_rust::datum_ref::DatumRef;
use vm_rust::scope::{Scope, StackDatum};

#[test]
fn store_gives_back_what_was_stored() {
    let mut a = DatumAllocator::new();
    let r = a.alloc_datum(Datum::Int(7));
    assert_eq!(r.unwrap(), 1);
    assert!(matches!(a.get_datum(&r), Datum::Int(7)));
    assert!(matches!(a.get_datum(&DatumRef::Void), Datum::Void));
    assert_eq!(DatumRef::Void.unwrap(), 0);
}

#[test]
fn locals_grow_and_read_void_when_unset() {
    let mut s = Scope::new();
    s.ensure_locals(2);
    assert_eq!(s.locals.len(), 2);
    assert!(!s.local_is_assigned(1));
    assert!(matches!(s.local(5), StackDatum::Void));
    s.set_local(4, StackDatum::Int(3));
    assert_eq!(s.locals.len(), 5);
    assert!(s.local_is_assigned(4));
    assert!(!s.local_is_assigned(3));
}

#[test]
fn context_var_operands() {
    let mut s = Scope::new();
    s.stack.push(StackDatum::Int(1));
    s.stack.push(StackDatum::Int(2));
    let (id, cast) = read_context_var_args(&mut s, 6, 500);
    assert!(matches!(id, StackDatum::Int(1)));
    assert!(matches!(cast, Some(StackDatum::Int(2))));
    assert!(s.stack.is_empty());
    s.stack.push(StackDatum::Int(9));
    s.stack.push(StackDatum::Int(8));
    let (id, cast) = read_context_var_args(&mut s, 6, 400);
    assert!(matches!(id, StackDatum::Int(8)));
    assert!(cast.is_none());
    assert_eq!(s.stack.len(), 1);
}

fn env() -> ContextVarEnv {
    let mut locals = HashMap::new();
    locals.insert(2u16, DatumRef::Ref(7));
    ContextVarEnv {
        variable_multiplier: 6,
        global_name_ids: vec![0, 1],
        property_name_ids: vec![3],
        local_name_ids: vec![2, 4],
        names: vec!["gScore".to_string(), "gLevel".to_string(), "count".to_string(), "pName".to_string(), "tmp".to_string()],
        globals: vec![("gLevel".to_string(), DatumRef::Ref(5))],
        args: vec![DatumRef::Ref(8), DatumRef::Ref(9)],
        locals,
    }
}

fn value(r: Result<ContextVarValue, vm_rust::datum::ScriptError>) -> usize {
    match r.unwrap() {
        ContextVarValue::Value(v) => v.unwrap(),
        _ => panic!("expected a value"),
    }
}

#[test]
fn context_vars_resolve_by_index_and_by_name() {
    let e = env();
    // Global 1 (operand 6 = index 1 times the multiplier) is gLevel.
    assert_eq!(value(player_get_context_var(&Datum::Int(6), 1, &e)), 5);
    // A global nobody set is VOID.
    assert_eq!(value(player_get_context_var(&Datum::Int(0), 2, &e)), 0);
    assert_eq!(value(player_get_context_var(&Datum::Symbol("gLevel".to_string()), 1, &e)), 5);
    // Argument 1.
    assert_eq!(value(player_get_context_var(&Datum::Int(6), 4, &e)), 9);
    // Local by index and by name, ignoring case.
    assert_eq!(value(player_get_context_var(&Datum::Int(0), 5, &e)), 7);
    assert_eq!(value(player_get_context_var(&Datum::Symbol("COUNT".to_string()), 5, &e)), 7);
    assert_eq!(value(player_get_context_var(&Datum::Int(6), 5, &e)), 0);
    assert!(player_get_context_var(&Datum::Symbol("missing".to_string()), 5, &e).is_err());
    match player_get_context_var(&Datum::Int(0), 3, &e).unwrap() {
        ContextVarValue::Property(name) => assert_eq!(name, "pName"),
        _ => panic!("expected a property"),
    }
    assert!(matches!(player_get_context_var(&Datum::Int(0), 6, &e).unwrap(), ContextVarValue::Field));
    assert!(player_get_context_var(&Datum::Int(0), 9, &e).is_err());
    assert!(player_get_context_var(&Datum::String("x".to_string()), 4, &e).is_err());
}

#[test]
fn put_places_text_into_before_or_after() {
    let old = "world".to_string();
    assert_eq!(combine_put(PutType::Into, "hello".to_string(), &old), "hello");
    assert_eq!(combine_put(PutType::Before, "hello ".to_string(), &old), "hello world");
    assert_eq!(combine_put(PutType::After, "!".to_string(), &old), "world!");
}

#[test]
fn context_var_written_reads_back() {
    let mut e = env();
    // A new global is added, an existing one replaced.
    assert!(matches!(player_set_context_var(&Datum::Int(0), 1, DatumRef::Ref(11), &mut e, &mut no_field()), Ok(ContextVarWrite::Done)));
    assert_eq!(value(player_get_context_var(&Datum::Int(0), 1, &e)), 11);
    assert!(matches!(
        player_set_context_var(&Datum::Symbol("gLevel".to_string()), 2, DatumRef::Ref(12), &mut e, &mut no_field()),
        Ok(ContextVarWrite::Done)
    ));
    assert_eq!(value(player_get_context_var(&Datum::Int(6), 1, &e)), 12);
    assert_eq!(e.globals.len(), 2);
    // Argument 0 and a local by name.
    player_set_context_var(&Datum::Int(0), 4, DatumRef::Ref(13), &mut e, &mut no_field()).unwrap();
    assert_eq!(value(player_get_context_var(&Datum::Int(0), 4, &e)), 13);
    player_set_context_var(&Datum::Symbol("TMP".to_string()), 5, DatumRef::Ref(14), &mut e, &mut no_field()).unwrap();
    assert_eq!(value(player_get_context_var(&Datum::Int(6), 5, &e)), 14);
    // Properties and fields are left to the player.
    match player_set_context_var(&Datum::Int(0), 3, DatumRef::Ref(1), &mut e, &mut no_field()).unwrap() {
        ContextVarWrite::Property(name) => assert_eq!(name, "pName"),
        _ => panic!("expected a property"),
    }
    // A field gets the value's text put into it.
    let mut f = FieldMember::new();
    f.text = "old".to_string();
    let mut fw = FieldWrite { put_type: PutType::After, value_text: Ok(" new".to_string()), member: Ok(Some(PutTarget::Field(f))) };
    assert!(matches!(player_set_context_var(&Datum::Int(0), 6, DatumRef::Ref(1), &mut e, &mut fw), Ok(ContextVarWrite::Done)));
    assert!(matches!(&fw.member, Ok(Some(PutTarget::Field(f))) if f.text == "old new"));
    let mut missing = no_field();
    let err = player_set_context_var(&Datum::Int(0), 6, DatumRef::Ref(1), &mut e, &mut missing).unwrap_err();
    assert_eq!(err.message, "Field member not found");
    let mut unreadable = FieldWrite {
        put_type: PutType::Into,
        value_text: Err(ScriptError { code: ScriptErrorCode::Generic, message: "not a string".to_string() }),
        member: Ok(Some(PutTarget::Other)),
    };
    let err = player_set_context_var(&Datum::Int(0), 6, DatumRef::Ref(1), &mut e, &mut unreadable).unwrap_err();
    assert_eq!(err.message, "not a string");
    assert!(player_set_context_var(&Datum::Symbol("nope".to_string()), 5, DatumRef::Ref(1), &mut e, &mut no_field()).is_err());
    assert!(player_set_context_var(&Datum::Int(0), 7, DatumRef::Ref(1), &mut e, &mut no_field()).is_err());
}

#[test]
fn put_into_field_text_and_button_members() {
    let mut f = FieldMember::new();
    f.text = "world".to_string();
    f.sel_start = 5;
    f.sel_end = 5;
    let mut m = Some(PutTarget::Field(f));
    assert!(player_put_field_text(&mut m, PutType::Before, "hello ".to_string()).is_ok());
    match &m {
        Some(PutTarget::Field(f)) => {
            assert_eq!(f.text, "hello world");
            assert_eq!((f.sel_start, f.sel_end, f.sel_anchor), (11, 11, 11));
        }
        _ => panic!("expected a field"),
    }
    let mut t = Some(PutTarget::Text(EditableText { text: "abc".to_string(), sel_start: 1, sel_end: 1, sel_anchor: 1 }));
    assert!(player_put_field_text(&mut t, PutType::After, "!".to_string()).is_ok());
    assert!(matches!(&t, Some(PutTarget::Text(e)) if e.text == "abc!" && e.sel_start == 1));
    let mut b = Some(PutTarget::Button(ButtonMember {
        field: FieldMember::new(),
        button_type: ButtonType::CheckBox,
        hilite: true,
        script_id: 0,
        member_script_ref: None,
    }));
    assert!(player_put_field_text(&mut b, PutType::Into, "OK".to_string()).is_ok());
    assert!(matches!(&b, Some(PutTarget::Button(x)) if x.field.text == "OK" && x.hilite));
    let mut none: Option<PutTarget> = None;
    assert_eq!(player_put_field_text(&mut none, PutType::Into, "x".to_string()).unwrap_err().message, "Field member not found");
    let mut other = Some(PutTarget::Other);
    assert!(player_put_field_text(&mut other, PutType::Into, "x".to_string()).is_err());
}

fn no_field() -> FieldWrite {
    FieldWrite { put_type: PutType::Into, value_text: Ok(String::new()), member: Ok(None) }
}
