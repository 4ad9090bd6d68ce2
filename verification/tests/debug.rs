use vm_rust::debug::{BreakpointManager, StepMode};

fn s(t: &str) -> String {
    t.to_string()
}

#[test]
fn add_then_has() {
    let mut m = BreakpointManager::new();
    m.add_breakpoint(s("movie"), s("startMovie"), 3);
    assert!(m.has_breakpoint(&s("movie"), &s("startMovie"), 3));
    assert!(!m.has_breakpoint(&s("movie"), &s("startMovie"), 4));
    let bp = m.find_breakpoint_for_bytecode(&s("movie"), &s("startMovie"), 3).unwrap();
    assert_eq!(bp.bytecode_index, 3);
}

#[test]
fn remove_clears_every_copy_and_keeps_others() {
    let mut m = BreakpointManager::new();
    m.add_breakpoint(s("a"), s("h"), 1);
    m.add_breakpoint(s("a"), s("h"), 2);
    m.add_breakpoint(s("a"), s("h"), 1);
    m.remove_breakpoint(s("a"), s("h"), 1);
    assert!(!m.has_breakpoint(&s("a"), &s("h"), 1));
    assert!(m.has_breakpoint(&s("a"), &s("h"), 2));
    assert_eq!(m.breakpoints.len(), 1);
}

#[test]
fn toggle_twice_restores() {
    let mut m = BreakpointManager::new();
    m.toggle_breakpoint(s("a"), s("h"), 5);
    assert!(m.has_breakpoint(&s("a"), &s("h"), 5));
    m.toggle_breakpoint(s("a"), s("h"), 5);
    assert!(!m.has_breakpoint(&s("a"), &s("h"), 5));
    assert!(m.find_breakpoint_for_bytecode(&s("a"), &s("h"), 5).is_none());
}

#[test]
fn default_step_mode_is_inactive() {
    assert!(matches!(StepMode::default(), StepMode::Inactive));
}

#[test]
fn toggling_an_unset_breakpoint_twice_gives_back_the_list() {
    let mut m = BreakpointManager::new();
    m.add_breakpoint(s("a"), s("h"), 1);
    m.add_breakpoint(s("b"), s("g"), 2);
    m.toggle_breakpoint(s("a"), s("h"), 5);
    assert_eq!(m.breakpoints.len(), 3);
    m.toggle_breakpoint(s("a"), s("h"), 5);
    assert_eq!(m.breakpoints.len(), 2);
    assert_eq!((m.breakpoints[0].script_name.as_str(), m.breakpoints[0].bytecode_index), ("a", 1));
    assert_eq!((m.breakpoints[1].script_name.as_str(), m.breakpoints[1].bytecode_index), ("b", 2));
}
