//! Events the player posts to its event loop, and how a handler's result is
//! taken when the caller only wants a value.
use vstd::prelude::*;
use crate::datum::{ScriptError, ScriptErrorCode};
use crate::datum_ref::DatumRef;

verus! {

/// A script instance, by its id in the player's instance store.
#[derive(Clone, Copy, Debug)]
pub struct ScriptInstanceRef {
    pub id: u32,
}

/// An event for the event loop to deliver.
pub enum PlayerVMEvent {
    /// A handler call on the frame and movie scripts.
    Global(String, Vec<DatumRef>),
    /// A handler call on the given script instances, or, with `None`, on
    /// the current sprites' behaviors.
    Targeted(String, Vec<DatumRef>, Option<Vec<ScriptInstanceRef>>),
    /// A handler call on one receiver.
    Callback(DatumRef, String, Vec<DatumRef>),
}

fn copy_refs(v: &Vec<DatumRef>) -> (r: Vec<DatumRef>)
    ensures
        r@ == v@,
{
    let mut r: Vec<DatumRef> = Vec::new();
    let mut i: usize = 0;
    while i < v.len()
        invariant
            i <= v.len(),
            r@ == v@.take(i as int),
        decreases v.len() - i,
    {
        r.push(v[i]);
        i = i + 1;
        assert(r@ =~= v@.take(i as int));
    }
    assert(v@.take(v.len() as int) =~= v@);
    r
}

fn copy_instances(v: &Vec<ScriptInstanceRef>) -> (r: Vec<ScriptInstanceRef>)
    ensures
        r@ == v@,
{
    let mut r: Vec<ScriptInstanceRef> = Vec::new();
    let mut i: usize = 0;
    while i < v.len()
        invariant
            i <= v.len(),
            r@ == v@.take(i as int),
        decreases v.len() - i,
    {
        r.push(v[i]);
        i = i + 1;
        assert(r@ =~= v@.take(i as int));
    }
    assert(v@.take(v.len() as int) =~= v@);
    r
}

/// The event that calls `handler_name` with `args` on the frame and movie
/// scripts.
pub fn player_dispatch_global_event(handler_name: &str, args: &Vec<DatumRef>) -> (e: PlayerVMEvent)
    ensures
        e matches PlayerVMEvent::Global(name, a) && name@ == handler_name@ && a@ == args@,
{
    PlayerVMEvent::Global(handler_name.to_string(), copy_refs(args))
}

/// The event that calls `handler_name` with `args` on `receiver`.
pub fn player_dispatch_callback_event(receiver: DatumRef, handler_name: &str, args: &Vec<DatumRef>) -> (e:
    PlayerVMEvent)
    ensures
        e matches PlayerVMEvent::Callback(r, name, a) && r == receiver && name@ == handler_name@ && a@
            == args@,
{
    PlayerVMEvent::Callback(receiver, handler_name.to_string(), copy_refs(args))
}

/// The event that calls `handler_name` with `args` on the given instances.
pub fn player_dispatch_targeted_event(
    handler_name: &str,
    args: &Vec<DatumRef>,
    instance_ids: Option<&Vec<ScriptInstanceRef>>,
) -> (e: PlayerVMEvent)
    ensures
        e matches PlayerVMEvent::Targeted(name, a, ids) && name@ == handler_name@ && a@ == args@ && match
            instance_ids {
            Some(v) => ids matches Some(w) && w@ == v@,
            None => ids is None,
        },
{
    let ids = match instance_ids {
        Some(v) => Some(copy_instances(v)),
        None => None,
    };
    PlayerVMEvent::Targeted(handler_name.to_string(), copy_refs(args), ids)
}

/// The event that calls `handler_name` with `args` on the script instances of
/// sprite `sprite_num`; `sprite_instances` are those instances, `None` when
/// the score has no such sprite, in which case there is no event.
pub fn player_dispatch_event_to_sprite(
    handler_name: &str,
    args: &Vec<DatumRef>,
    sprite_num: u16,
    sprite_instances: Option<Vec<ScriptInstanceRef>>,
) -> (e: Option<PlayerVMEvent>)
    ensures
        match sprite_instances {
            None => e is None,
            Some(v) => {
                &&& e matches Some(PlayerVMEvent::Targeted(name, a, ids))
                &&& name@ == handler_name@
                &&& a@ == args@
                &&& ids matches Some(w)
                &&& w@ == v@
            },
        },
{
    match sprite_instances {
        None => None,
        Some(ids) => Some(PlayerVMEvent::Targeted(handler_name.to_string(), copy_refs(args), Some(ids))),
    }
}

/// A handler's value, VOID on an error; with it the error the player must
/// report, which is every error but an abort.
pub fn player_unwrap_result(result: Result<DatumRef, ScriptError>) -> (r: (DatumRef, Option<ScriptError>))
    ensures
        match result {
            Ok(v) => r.0 == v && r.1 is None,
            Err(e) => r.0 == DatumRef::Void && (if e.code == ScriptErrorCode::Abort {
                r.1 is None
            } else {
                r.1 matches Some(reported) && reported.code == e.code && reported.message@ == e.message@
            }),
        },
{
    match result {
        Ok(v) => (v, None),
        Err(err) => {
            if err.code != ScriptErrorCode::Abort {
                (DatumRef::Void, Some(err))
            } else {
                (DatumRef::Void, None)
            }
        },
    }
}

/// The targets of the timeouts that are scheduled, in order: a system event
/// (`prepareFrame`, `exitFrame` and the like) goes to each of them. Each
/// entry of `timeouts` says whether the timeout is scheduled, and its target.
pub fn scheduled_timeout_targets(timeouts: &Vec<(bool, DatumRef)>) -> (r: Vec<DatumRef>)
    ensures
        r@ == timeouts@.filter(|t: (bool, DatumRef)| t.0).map_values(|t: (bool, DatumRef)| t.1),
{
    let mut r: Vec<DatumRef> = Vec::new();
    let mut i: usize = 0;
    while i < timeouts.len()
        invariant
            i <= timeouts.len(),
            r@ == timeouts@.take(i as int).filter(|t: (bool, DatumRef)| t.0).map_values(|t: (bool, DatumRef)| t.1),
        decreases timeouts.len() - i,
    {
        let ghost prefix = timeouts@.take(i as int);
        assert(timeouts@.take(i + 1).drop_last() =~= prefix);
        reveal(Seq::filter);
        if timeouts[i].0 {
            r.push(timeouts[i].1);
        }
        i = i + 1;
        assert(r@ =~= timeouts@.take(i as int).filter(|t: (bool, DatumRef)| t.0).map_values(|t: (bool, DatumRef)| t.1));
    }
    assert(timeouts@.take(timeouts.len() as int) =~= timeouts@);
    r
}

/// Whether the event loop leaves an event for later: while a pointer or key
/// command's handler runs or yields, or a transition plays (they share the
/// handler frames with the events).
pub fn event_loop_defers(in_mouse_command: bool, command_handler_yielding: bool, in_transition: bool) -> (r: bool)
    ensures
        r == (in_mouse_command || command_handler_yielding || in_transition),
{
    in_mouse_command || command_handler_yielding || in_transition
}

} // verus!
