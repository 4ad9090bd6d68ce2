use std::collections::HashMap;
use vm_rust::datum_ref::DatumRef;
use vm_rust::eval::{get_eval_top_level_prop, EvalScope, TopLevelProp};
use vm_rust::events::ScriptInstanceRef;

fn scope() -> EvalScope {
    let mut locals = HashMap::new();
    locals.insert(1u16, DatumRef::Ref(4));
    EvalScope {
        names: Some(vec!["a".to_string(), "Count".to_string(), "x".to_string(), "unset".to_string()]),
        locals,
        receiver: Some(ScriptInstanceRef { id: 9 }),
        argument_name_ids: Some(vec![2, 0]),
        args: vec![DatumRef::Ref(5)],
    }
}

fn value(r: TopLevelProp) -> usize {
    match r {
        TopLevelProp::Value(v) => v.unwrap(),
        other => panic!("expected a value, got {:?}", other),
    }
}

#[test]
fn bare_names_resolve_in_turn() {
    let s = Some(scope());
    match get_eval_top_level_prop("the stageColor", &s) {
        TopLevelProp::MovieProp(p) => assert_eq!(p, "stageColor"),
        other => panic!("expected a movie property, got {:?}", other),
    }
    // A local, ignoring case.
    assert_eq!(value(get_eval_top_level_prop("COUNT", &s)), 4);
    assert!(matches!(get_eval_top_level_prop("me", &s), TopLevelProp::Me(r) if r.id == 9));
    // An argument by name.
    assert_eq!(value(get_eval_top_level_prop("X", &s)), 5);
    // The second argument's name, but the frame holds one argument only.
    assert!(matches!(get_eval_top_level_prop("a", &s), TopLevelProp::Elsewhere));
    // A name of the table that is no set local.
    assert!(matches!(get_eval_top_level_prop("unset", &s), TopLevelProp::Elsewhere));
    assert!(matches!(get_eval_top_level_prop("count", &None), TopLevelProp::Elsewhere));
    assert!(matches!(get_eval_top_level_prop("the", &None), TopLevelProp::Elsewhere));
    let mut no_receiver = scope();
    no_receiver.receiver = None;
    assert!(matches!(get_eval_top_level_prop("me", &Some(no_receiver)), TopLevelProp::Elsewhere));
}

#[test]
fn lingo_text_is_not_split_into_tokens() {
    assert!(vm_rust::eval::tokenize_lingo("put 1 + 2").is_empty());
}
