//! Director's message hierarchy for an event: first the receivers (script
//! instances whose scripts have the handler), every one of them; then, if
//! none of them took the event without passing it, the frame script and the
//! movie scripts, in that order, up to the first that takes it. The player
//! makes the calls; the decisions between them are here.
use vstd::prelude::*;
use crate::datum::{CastMemberRef, ScriptErrorCode};
use crate::events::ScriptInstanceRef;

verus! {

/// Which part of the hierarchy a chain is in.
#[derive(Clone, Copy, Debug, PartialEq, Eq, Structural)]
pub enum ChainPhase {
    Receivers,
    Scripts,
    Finished,
}

/// An event on its way through the hierarchy.
#[derive(Clone, Copy, Debug)]
pub struct MessageChain {
    /// How many receivers have the handler.
    pub receivers: usize,
    /// How many static scripts there are: the frame script, if any, then
    /// the movie scripts.
    pub scripts: usize,
    /// Whether an event no receiver took goes on to the static scripts.
    pub falls_through: bool,
    pub phase: ChainPhase,
    /// The receiver or script called last, or to be called next.
    pub position: usize,
    /// Whether a handler took the event without passing it.
    pub handled: bool,
}

/// What the player does next.
#[derive(Clone, Copy, Debug, PartialEq, Eq, Structural)]
pub enum ChainAction {
    /// Call the handler on this receiver.
    CallReceiver(usize),
    /// Call this static script's handler, if it has one.
    CallScript(usize),
    /// The event has been through; whether a handler took it.
    Done(bool),
    /// A call failed: the error goes back to the caller, reported to the
    /// player first where `report` says so.
    Fail { report: bool },
}

/// How the last call went.
#[derive(Clone, Copy, Debug)]
pub enum ChainEvent {
    /// The handler ran; whether it passed the event on.
    Returned { passed: bool },
    /// The static script has no such handler.
    NoHandler,
    /// The handler failed with an error of this kind.
    Failed(ScriptErrorCode),
}

/// Where a chain goes from `position` on in its phase: the receiver or
/// script there; past the last receiver, the end (where the event was
/// taken or does not fall through) or else the first script; past the last
/// script, the end.
pub open spec fn chain_next(c: MessageChain) -> (MessageChain, ChainAction) {
    match c.phase {
        ChainPhase::Receivers => if c.position < c.receivers {
            (c, ChainAction::CallReceiver(c.position))
        } else if c.handled || !c.falls_through || c.scripts == 0 {
            (MessageChain { phase: ChainPhase::Finished, ..c }, ChainAction::Done(c.handled))
        } else {
            (MessageChain { phase: ChainPhase::Scripts, position: 0, ..c }, ChainAction::CallScript(0))
        },
        ChainPhase::Scripts => if c.position < c.scripts {
            (c, ChainAction::CallScript(c.position))
        } else {
            (MessageChain { phase: ChainPhase::Finished, ..c }, ChainAction::Done(c.handled))
        },
        ChainPhase::Finished => (c, ChainAction::Done(c.handled)),
    }
}

/// A chain waiting for the outcome of the call it asked for.
pub open spec fn is_waiting(c: MessageChain) -> bool {
    match c.phase {
        ChainPhase::Receivers => c.position < c.receivers,
        ChainPhase::Scripts => c.position < c.scripts,
        ChainPhase::Finished => false,
    }
}

/// The chain after a call's outcome, and what follows: a failure ends it
/// (reported where a receiver failed other than by an abort); a receiver
/// that does not pass marks the event taken, and the next receiver follows;
/// a script that does not pass ends the chain, the event taken; otherwise
/// the next script follows.
pub open spec fn chain_step(c: MessageChain, ev: ChainEvent) -> (MessageChain, ChainAction) {
    match ev {
        ChainEvent::Failed(code) => (
            MessageChain { phase: ChainPhase::Finished, ..c },
            ChainAction::Fail { report: c.phase == ChainPhase::Receivers && code != ScriptErrorCode::Abort },
        ),
        ChainEvent::Returned { passed } => if c.phase == ChainPhase::Scripts && !passed {
            (MessageChain { phase: ChainPhase::Finished, handled: true, ..c }, ChainAction::Done(true))
        } else {
            chain_next(
                MessageChain { position: (c.position + 1) as usize, handled: c.handled || !passed, ..c },
            )
        },
        ChainEvent::NoHandler => chain_next(MessageChain { position: (c.position + 1) as usize, ..c }),
    }
}

impl MessageChain {
    /// A chain over this many receivers and static scripts, and its first
    /// action.
    pub fn start(receivers: usize, scripts: usize, falls_through: bool) -> (r: (MessageChain, ChainAction))
        ensures
            r == chain_next(
                MessageChain {
                    receivers,
                    scripts,
                    falls_through,
                    phase: ChainPhase::Receivers,
                    position: 0,
                    handled: false,
                },
            ),
    {
        let c = MessageChain {
            receivers,
            scripts,
            falls_through,
            phase: ChainPhase::Receivers,
            position: 0,
            handled: false,
        };
        c.next()
    }

    fn next(self) -> (r: (MessageChain, ChainAction))
        ensures
            r == chain_next(self),
    {
        match self.phase {
            ChainPhase::Receivers => if self.position < self.receivers {
                (self, ChainAction::CallReceiver(self.position))
            } else if self.handled || !self.falls_through || self.scripts == 0 {
                (MessageChain { phase: ChainPhase::Finished, ..self }, ChainAction::Done(self.handled))
            } else {
                (MessageChain { phase: ChainPhase::Scripts, position: 0, ..self }, ChainAction::CallScript(0))
            },
            ChainPhase::Scripts => if self.position < self.scripts {
                (self, ChainAction::CallScript(self.position))
            } else {
                (MessageChain { phase: ChainPhase::Finished, ..self }, ChainAction::Done(self.handled))
            },
            ChainPhase::Finished => (self, ChainAction::Done(self.handled)),
        }
    }

    /// Takes the outcome of the call the chain asked for; see `chain_step`.
    pub fn step(&mut self, ev: ChainEvent) -> (a: ChainAction)
        requires
            is_waiting(*old(self)),
        ensures
            (*final(self), a) == chain_step(*old(self), ev),
    {
        match ev {
            ChainEvent::Failed(code) => {
                let report = self.phase == ChainPhase::Receivers && code != ScriptErrorCode::Abort;
                self.phase = ChainPhase::Finished;
                ChainAction::Fail { report }
            },
            ChainEvent::Returned { passed } => {
                if self.phase == ChainPhase::Scripts && !passed {
                    self.phase = ChainPhase::Finished;
                    self.handled = true;
                    return ChainAction::Done(true);
                }
                let c = MessageChain { position: self.position + 1, handled: self.handled || !passed, ..*self };
                let (n, a) = c.next();
                *self = n;
                a
            },
            ChainEvent::NoHandler => {
                let c = MessageChain { position: self.position + 1, ..*self };
                let (n, a) = c.next();
                *self = n;
                a
            },
        }
    }
}

// ---- Laws of the hierarchy ----

/// Every receiver gets the event, in order, unless a call fails.
pub proof fn lemma_receivers_all_called(c: MessageChain, passed: bool)
    requires
        c.phase == ChainPhase::Receivers,
        c.position + 1 < c.receivers,
    ensures
        chain_step(c, ChainEvent::Returned { passed }).1 == ChainAction::CallReceiver((c.position + 1) as usize),
{
}

/// An event a receiver took never reaches the static scripts.
pub proof fn lemma_taken_event_stops_before_scripts(c: MessageChain)
    requires
        c.phase == ChainPhase::Receivers,
        c.position + 1 == c.receivers,
    ensures
        chain_step(c, ChainEvent::Returned { passed: false }).1 == ChainAction::Done(true),
{
}

/// An event no receiver took goes on to the first static script, where it
/// falls through and there is one.
pub proof fn lemma_untaken_event_reaches_scripts(c: MessageChain)
    requires
        c.phase == ChainPhase::Receivers,
        c.position + 1 == c.receivers,
        !c.handled,
        c.falls_through,
        c.scripts > 0,
    ensures
        chain_step(c, ChainEvent::Returned { passed: true }).1 == ChainAction::CallScript(0),
{
}

/// The first static script that does not pass the event ends the chain,
/// the event taken.
pub proof fn lemma_script_takes_event(c: MessageChain)
    requires
        c.phase == ChainPhase::Scripts,
    ensures
        chain_step(c, ChainEvent::Returned { passed: false }) == (
            MessageChain { phase: ChainPhase::Finished, handled: true, ..c },
            ChainAction::Done(true),
        ),
{
}

/// A failed call ends the chain; only a receiver's error other than an
/// abort is reported.
pub proof fn lemma_failure_ends_chain(c: MessageChain, code: ScriptErrorCode)
    ensures
        chain_step(c, ChainEvent::Failed(code)).0.phase == ChainPhase::Finished,
        chain_step(c, ChainEvent::Failed(code)).1 == (ChainAction::Fail {
            report: c.phase == ChainPhase::Receivers && code != ScriptErrorCode::Abort,
        }),
        code == ScriptErrorCode::Abort ==> chain_step(c, ChainEvent::Failed(code)).1 == (ChainAction::Fail {
            report: false,
        }),
{
}

/// A waiting chain moves on: each step calls a later receiver or script, or
/// ends the chain.
pub proof fn lemma_chain_progresses(c: MessageChain, ev: ChainEvent)
    requires
        is_waiting(c),
    ensures
        ({
            let (n, a) = chain_step(c, ev);
            match a {
                ChainAction::CallReceiver(i) => n.phase == ChainPhase::Receivers && i == n.position && i
                    == c.position + 1,
                ChainAction::CallScript(i) => n.phase == ChainPhase::Scripts && i == n.position && (c.phase
                    == ChainPhase::Receivers || i == c.position + 1),
                _ => n.phase == ChainPhase::Finished,
            }
        }),
{
}

// ---- Who receives an event ----

/// The static scripts an event goes to: the frame's script first, if the
/// frame has one, then the movie scripts.
pub fn static_scripts(frame_script: Option<CastMemberRef>, movie_scripts: &Vec<CastMemberRef>) -> (r: Vec<
    CastMemberRef,
>)
    ensures
        r@ == match frame_script {
            Some(f) => seq![f] + movie_scripts@,
            None => movie_scripts@,
        },
{
    let mut r: Vec<CastMemberRef> = Vec::new();
    if let Some(f) = frame_script {
        r.push(f);
    }
    let ghost head = r@;
    let mut i: usize = 0;
    while i < movie_scripts.len()
        invariant
            i <= movie_scripts.len(),
            r@ == head + movie_scripts@.take(i as int),
        decreases movie_scripts.len() - i,
    {
        r.push(movie_scripts[i]);
        i = i + 1;
        assert(r@ =~= head + movie_scripts@.take(i as int));
    }
    assert(movie_scripts@.take(movie_scripts.len() as int) =~= movie_scripts@);
    r
}

/// The script instances a global holds, in order.
pub open spec fn held_instances(globals: Seq<Option<ScriptInstanceRef>>) -> Seq<ScriptInstanceRef>
    decreases globals.len(),
{
    if globals.len() == 0 {
        Seq::empty()
    } else {
        held_instances(globals.drop_last()) + match globals.last() {
            Some(r) => seq![r],
            None => Seq::empty(),
        }
    }
}

/// The receivers of a global event: the stage's script instances, then
/// those that globals hold (`global_instances` has, for each global, the
/// instance it holds, if any).
pub fn global_event_receivers(
    stage_instances: &Vec<ScriptInstanceRef>,
    global_instances: &Vec<Option<ScriptInstanceRef>>,
) -> (r: Vec<ScriptInstanceRef>)
    ensures
        r@ == stage_instances@ + held_instances(global_instances@),
{
    let mut r: Vec<ScriptInstanceRef> = Vec::new();
    let mut i: usize = 0;
    while i < stage_instances.len()
        invariant
            i <= stage_instances.len(),
            r@ == stage_instances@.take(i as int),
        decreases stage_instances.len() - i,
    {
        r.push(stage_instances[i]);
        i = i + 1;
        assert(r@ =~= stage_instances@.take(i as int));
    }
    assert(stage_instances@.take(stage_instances.len() as int) =~= stage_instances@);
    let mut j: usize = 0;
    while j < global_instances.len()
        invariant
            j <= global_instances.len(),
            r@ == stage_instances@ + held_instances(global_instances@.take(j as int)),
        decreases global_instances.len() - j,
    {
        assert(global_instances@.take(j + 1).drop_last() =~= global_instances@.take(j as int));
        if let Some(inst) = global_instances[j] {
            r.push(inst);
        }
        j = j + 1;
        assert(r@ =~= stage_instances@ + held_instances(global_instances@.take(j as int)));
    }
    assert(global_instances@.take(global_instances.len() as int) =~= global_instances@);
    r
}

} // verus!
