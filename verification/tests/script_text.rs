use vm_rust::script_text::{decompile_script, HandlerText, ScriptText};

fn names() -> Vec<String> {
    ["Activate", "x", "gA", "yes", "p1", "gB"].iter().map(|s| s.to_string()).collect()
}

fn handler(name_id: u16, symbol: &str, args: Vec<u16>, globals: Vec<u16>, ops: Vec<u16>, lines: Vec<(u32, &str)>) -> HandlerText {
    HandlerText {
        symbol: symbol.to_string(),
        name_id,
        argument_name_ids: args,
        global_name_ids: globals,
        global_op_ids: ops,
        lines: lines.into_iter().map(|(i, t)| (i, t.to_string())).collect(),
    }
}

#[test]
fn declarations_come_first_and_handlers_keep_their_table_names() {
    let script = ScriptText {
        names: names(),
        property_name_ids: vec![4],
        global_name_ids: vec![2],
        js_source: None,
        handlers: vec![handler(0, "activate", vec![1, 3], vec![2], vec![], vec![(0, "put x"), (1, "nested")])],
    };
    assert_eq!(
        decompile_script(&Some(script)),
        "property p1\nglobal gA\n\non Activate x, yes\n  global gA\n  put x\n    nested\nend\n"
    );
}

#[test]
fn inferred_globals_are_declared_only_where_the_script_declares_none() {
    let h = || handler(0, "activate", vec![], vec![], vec![5, 2, 5, 65535], vec![(0, "gB = gA")]);
    let without = ScriptText { names: names(), property_name_ids: vec![], global_name_ids: vec![], js_source: None, handlers: vec![h()] };
    assert_eq!(decompile_script(&Some(without)), "on Activate\n  global gB, gA\n  gB = gA\nend\n");
    let with = ScriptText { names: names(), property_name_ids: vec![], global_name_ids: vec![5], js_source: None, handlers: vec![h()] };
    assert_eq!(decompile_script(&Some(with)), "global gB\n\non Activate\n  gB = gA\nend\n");
}

#[test]
fn unnamed_arguments_and_handlers_fall_back() {
    let script = ScriptText {
        names: names(),
        property_name_ids: vec![9],
        global_name_ids: vec![],
        js_source: None,
        handlers: vec![
            handler(40, "mouseup", vec![7], vec![], vec![], vec![]),
            handler(0, "activate", vec![], vec![], vec![], vec![(2, "beep")]),
        ],
    };
    assert_eq!(decompile_script(&Some(script)), "on mouseup arg7\n\nend\n\non Activate\n      beep\nend\n");
}

#[test]
fn javascript_scripts_are_their_program_and_no_context_is_empty() {
    let script = ScriptText {
        names: names(),
        property_name_ids: vec![4],
        global_name_ids: vec![2],
        js_source: Some(vec![(0, "function f() {".to_string()), (1, "x();".to_string()), (0, "}".to_string())]),
        handlers: vec![handler(0, "activate", vec![], vec![], vec![], vec![(0, "x")])],
    };
    assert_eq!(decompile_script(&Some(script)), "// property p1\n// global gA\nfunction f() {\n  x();\n}\n");
    assert_eq!(decompile_script(&None), "");
    let empty = ScriptText { names: vec![], property_name_ids: vec![], global_name_ids: vec![], js_source: None, handlers: vec![] };
    assert_eq!(decompile_script(&Some(empty)), "");
}
