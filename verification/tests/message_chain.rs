use vm_rust::datum::{CastMemberRef, ScriptErrorCode};
use vm_rust::events::ScriptInstanceRef;
use vm_rust::message_chain::{global_event_receivers, static_scripts, ChainAction, ChainEvent, MessageChain};

#[test]
fn every_receiver_gets_the_event_and_a_taken_event_stops_there() {
    let (mut c, a) = MessageChain::start(2, 3, true);
    assert_eq!(a, ChainAction::CallReceiver(0));
    assert_eq!(c.step(ChainEvent::Returned { passed: false }), ChainAction::CallReceiver(1));
    assert_eq!(c.step(ChainEvent::Returned { passed: true }), ChainAction::Done(true));
}

#[test]
fn an_untaken_event_goes_to_the_scripts_up_to_the_first_that_takes_it() {
    let (mut c, a) = MessageChain::start(1, 3, true);
    assert_eq!(a, ChainAction::CallReceiver(0));
    assert_eq!(c.step(ChainEvent::Returned { passed: true }), ChainAction::CallScript(0));
    assert_eq!(c.step(ChainEvent::NoHandler), ChainAction::CallScript(1));
    assert_eq!(c.step(ChainEvent::Returned { passed: false }), ChainAction::Done(true));
    // All scripts pass: not handled.
    let (mut c, a) = MessageChain::start(0, 2, true);
    assert_eq!(a, ChainAction::CallScript(0));
    assert_eq!(c.step(ChainEvent::Returned { passed: true }), ChainAction::CallScript(1));
    assert_eq!(c.step(ChainEvent::Returned { passed: true }), ChainAction::Done(false));
    // Instances only.
    let (mut c, _) = MessageChain::start(1, 2, false);
    assert_eq!(c.step(ChainEvent::Returned { passed: true }), ChainAction::Done(false));
    assert_eq!(MessageChain::start(0, 0, true).1, ChainAction::Done(false));
}

#[test]
fn failures_end_the_chain_and_receiver_errors_are_reported() {
    let (mut c, _) = MessageChain::start(2, 1, true);
    assert_eq!(c.step(ChainEvent::Failed(ScriptErrorCode::Generic)), ChainAction::Fail { report: true });
    let (mut c, _) = MessageChain::start(2, 1, true);
    assert_eq!(c.step(ChainEvent::Failed(ScriptErrorCode::Abort)), ChainAction::Fail { report: false });
    let (mut c, _) = MessageChain::start(0, 1, true);
    assert_eq!(c.step(ChainEvent::Failed(ScriptErrorCode::Generic)), ChainAction::Fail { report: false });
}

#[test]
fn receivers_and_scripts_in_order() {
    let frame = CastMemberRef { cast_lib: 1, cast_member: 9 };
    let movie = vec![CastMemberRef { cast_lib: 1, cast_member: 2 }, CastMemberRef { cast_lib: 2, cast_member: 1 }];
    let all = static_scripts(Some(frame), &movie);
    assert_eq!(all.len(), 3);
    assert_eq!(all[0].cast_member, 9);
    assert_eq!(all[2].cast_lib, 2);
    assert_eq!(static_scripts(None, &movie).len(), 2);
    let stage = vec![ScriptInstanceRef { id: 1 }];
    let globals = vec![None, Some(ScriptInstanceRef { id: 7 }), None, Some(ScriptInstanceRef { id: 3 })];
    let ids: Vec<u32> = global_event_receivers(&stage, &globals).iter().map(|r| r.id).collect();
    assert_eq!(ids, vec![1, 7, 3]);
}
