//! Breakpoints and step modes of the script debugger.
use vstd::prelude::*;

verus! {

broadcast use vstd::seq_lib::group_filter_ensures;

/// The current step-debugging mode.
#[derive(Clone, Debug)]
pub enum StepMode {
    /// No step debugging: normal execution.
    Inactive,
    /// Stop at the next bytecode, entering calls.
    Into,
    /// Stop at the next line, entering calls.
    IntoLine { skip_bytecode_indices: Vec<usize> },
    /// Stop at the next bytecode of the current scope, stepping over calls.
    Over,
    /// Stop at the next line of the current scope not among the skipped bytecodes.
    OverLine { skip_bytecode_indices: Vec<usize> },
    /// Stop on returning from the current scope.
    Out,
}

impl Default for StepMode {
    fn default() -> (m: StepMode)
        ensures
            m is Inactive,
    {
        StepMode::Inactive
    }
}

/// A breakpoint: a bytecode of a handler of a script.
#[derive(Clone, Debug)]
pub struct Breakpoint {
    pub script_name: String,
    pub handler_name: String,
    pub bytecode_index: usize,
}

/// What names a breakpoint: script, handler and bytecode index.
pub type BreakpointKey = (Seq<char>, Seq<char>, usize);

impl View for Breakpoint {
    type V = BreakpointKey;

    open spec fn view(&self) -> BreakpointKey {
        (self.script_name@, self.handler_name@, self.bytecode_index)
    }
}

/// The breakpoints with one more at the end.
pub open spec fn with_breakpoint(bps: Seq<BreakpointKey>, key: BreakpointKey) -> Seq<BreakpointKey> {
    bps.push(key)
}

/// Whether a breakpoint is another one than `key`.
pub open spec fn other_than(key: BreakpointKey) -> spec_fn(BreakpointKey) -> bool {
    |b: BreakpointKey| b != key
}

/// The breakpoints other than `key`, in their order.
pub open spec fn without_breakpoint(bps: Seq<BreakpointKey>, key: BreakpointKey) -> Seq<BreakpointKey> {
    bps.filter(other_than(key))
}

/// The breakpoints after toggling `key`: removed where set, added where not.
pub open spec fn toggled(bps: Seq<BreakpointKey>, key: BreakpointKey) -> Seq<BreakpointKey> {
    if bps.contains(key) {
        without_breakpoint(bps, key)
    } else {
        with_breakpoint(bps, key)
    }
}

/// The breakpoints set in the debugger, in the order they were set.
pub struct BreakpointManager {
    pub breakpoints: Vec<Breakpoint>,
}

impl View for BreakpointManager {
    type V = Seq<BreakpointKey>;

    open spec fn view(&self) -> Seq<BreakpointKey> {
        self.breakpoints@.map_values(|b: Breakpoint| b@)
    }
}

fn copy_breakpoint(bp: &Breakpoint) -> (r: Breakpoint)
    ensures
        r@ == bp@,
{
    Breakpoint {
        script_name: bp.script_name.clone(),
        handler_name: bp.handler_name.clone(),
        bytecode_index: bp.bytecode_index,
    }
}

fn is_breakpoint(bp: &Breakpoint, script_name: &String, handler_name: &String, bytecode_index: usize) -> (r: bool)
    ensures
        r == (bp@ == (script_name@, handler_name@, bytecode_index)),
{
    bp.script_name == *script_name && bp.handler_name == *handler_name && bp.bytecode_index == bytecode_index
}

impl BreakpointManager {
    /// No breakpoints.
    pub fn new() -> (m: BreakpointManager)
        ensures
            m@ == Seq::<BreakpointKey>::empty(),
    {
        let m = BreakpointManager { breakpoints: Vec::new() };
        assert(m@ =~= Seq::<BreakpointKey>::empty());
        m
    }

    /// Sets a breakpoint, after those already set.
    pub fn add_breakpoint(&mut self, script_name: String, handler_name: String, bytecode_index: usize)
        ensures
            final(self)@ == with_breakpoint(old(self)@, (script_name@, handler_name@, bytecode_index)),
    {
        let ghost key = (script_name@, handler_name@, bytecode_index);
        self.breakpoints.push(Breakpoint { script_name, handler_name, bytecode_index });
        assert(self@ =~= old(self)@.push(key));
    }

    /// Clears every breakpoint at that bytecode of that handler.
    pub fn remove_breakpoint(&mut self, script_name: String, handler_name: String, bytecode_index: usize)
        ensures
            final(self)@ == without_breakpoint(old(self)@, (script_name@, handler_name@, bytecode_index)),
    {
        let ghost key = (script_name@, handler_name@, bytecode_index);
        let ghost pred = other_than(key);
        let mut kept: Vec<Breakpoint> = Vec::new();
        let mut i: usize = 0;
        while i < self.breakpoints.len()
            invariant
                i <= self.breakpoints.len(),
                self.breakpoints == old(self).breakpoints,
                key == (script_name@, handler_name@, bytecode_index),
                pred == other_than(key),
                kept@.map_values(|b: Breakpoint| b@) == self@.take(i as int).filter(pred),
            decreases self.breakpoints.len() - i,
        {
            let ghost before = kept@.map_values(|b: Breakpoint| b@);
            proof {
                reveal(Seq::filter);
            }
            assert(self@.take(i + 1).drop_last() =~= self@.take(i as int));
            if !is_breakpoint(&self.breakpoints[i], &script_name, &handler_name, bytecode_index) {
                kept.push(copy_breakpoint(&self.breakpoints[i]));
                assert(kept@.map_values(|b: Breakpoint| b@) =~= before.push(self@[i as int]));
            }
            i = i + 1;
        }
        assert(self@.take(self.breakpoints.len() as int) =~= self@);
        self.breakpoints = kept;
    }

    /// Clears the breakpoint if it is set, else sets it.
    pub fn toggle_breakpoint(&mut self, script_name: String, handler_name: String, bytecode_index: usize)
        ensures
            final(self)@ == toggled(old(self)@, (script_name@, handler_name@, bytecode_index)),
    {
        if self.has_breakpoint(&script_name, &handler_name, bytecode_index) {
            self.remove_breakpoint(script_name, handler_name, bytecode_index);
        } else {
            self.add_breakpoint(script_name, handler_name, bytecode_index);
        }
    }

    /// Whether a breakpoint is set at that bytecode of that handler.
    pub fn has_breakpoint(&self, script_name: &String, handler_name: &String, bytecode_index: usize) -> (r:
        bool)
        ensures
            r == self@.contains((script_name@, handler_name@, bytecode_index)),
    {
        match self.find_breakpoint_for_bytecode(script_name, handler_name, bytecode_index) {
            Some(bp) => {
                proof {
                    let i = choose|i: int|
                        0 <= i < self.breakpoints.len() && self.breakpoints@[i] == *bp && bp@ == (
                            script_name@,
                            handler_name@,
                            bytecode_index,
                        ) && forall|j: int| 0 <= j < i ==> #[trigger] self@[j] != (script_name@, handler_name@, bytecode_index);
                    assert(self@[i] == (script_name@, handler_name@, bytecode_index));
                }
                true
            },
            None => false,
        }
    }

    /// The first breakpoint set at that bytecode of that handler.
    pub fn find_breakpoint_for_bytecode(
        &self,
        script_name: &String,
        handler_name: &String,
        bytecode_index: usize,
    ) -> (r: Option<&Breakpoint>)
        ensures
            match r {
                Some(bp) => exists|i: int|
                    0 <= i < self.breakpoints.len() && self.breakpoints@[i] == *bp && bp@ == (
                        script_name@,
                        handler_name@,
                        bytecode_index,
                    ) && forall|j: int| 0 <= j < i ==> #[trigger] self@[j] != (script_name@, handler_name@, bytecode_index),
                None => !self@.contains((script_name@, handler_name@, bytecode_index)),
            },
    {
        let ghost key = (script_name@, handler_name@, bytecode_index);
        let mut i: usize = 0;
        while i < self.breakpoints.len()
            invariant
                i <= self.breakpoints.len(),
                key == (script_name@, handler_name@, bytecode_index),
                forall|j: int| 0 <= j < i ==> #[trigger] self@[j] != key,
            decreases self.breakpoints.len() - i,
        {
            if is_breakpoint(&self.breakpoints[i], script_name, handler_name, bytecode_index) {
                return Some(&self.breakpoints[i]);
            }
            i = i + 1;
        }
        proof {
            if self@.contains(key) {
                let k = choose|k: int| 0 <= k < self@.len() && self@[k] == key;
                assert(self@[k] != key);
            }
        }
        None
    }
}

/// A breakpoint just set is set.
pub proof fn lemma_added_is_set(bps: Seq<BreakpointKey>, key: BreakpointKey)
    ensures
        with_breakpoint(bps, key).contains(key),
{
    assert(with_breakpoint(bps, key)[bps.len() as int] == key);
}

/// A breakpoint just removed is no longer set.
pub proof fn lemma_removed_is_unset(bps: Seq<BreakpointKey>, key: BreakpointKey)
    ensures
        !without_breakpoint(bps, key).contains(key),
{
    let pred = other_than(key);
    if without_breakpoint(bps, key).contains(key) {
        let i = choose|i: int| 0 <= i < bps.filter(pred).len() && bps.filter(pred)[i] == key;
        assert(pred(bps.filter(pred)[i]));
    }
}

/// Removing a breakpoint leaves every other one as it was.
pub proof fn lemma_remove_keeps_others(bps: Seq<BreakpointKey>, key: BreakpointKey, other: BreakpointKey)
    requires
        other != key,
    ensures
        without_breakpoint(bps, key).contains(other) == bps.contains(other),
{
    let pred = other_than(key);
    if bps.contains(other) {
        let i = choose|i: int| 0 <= i < bps.len() && bps[i] == other;
        assert(bps.filter(pred).contains(bps[i]));
    }
    if bps.filter(pred).contains(other) {
        bps.lemma_filter_contains_rev(pred, other);
    }
}

/// Toggling a breakpoint twice leaves it set exactly when it was set before.
pub proof fn lemma_toggle_twice(bps: Seq<BreakpointKey>, key: BreakpointKey)
    ensures
        toggled(toggled(bps, key), key).contains(key) == bps.contains(key),
        toggled(bps, key).contains(key) == !bps.contains(key),
{
    lemma_added_is_set(bps, key);
    if bps.contains(key) {
        lemma_removed_is_unset(bps, key);
        lemma_added_is_set(without_breakpoint(bps, key), key);
    } else {
        lemma_removed_is_unset(with_breakpoint(bps, key), key);
    }
}

/// Removing a breakpoint that is not set changes nothing.
proof fn lemma_remove_unset(bps: Seq<BreakpointKey>, key: BreakpointKey)
    requires
        !bps.contains(key),
    ensures
        without_breakpoint(bps, key) == bps,
    decreases bps.len(),
{
    let pred = other_than(key);
    if bps.len() == 0 {
        assert(bps.filter(pred) =~= bps);
    } else {
        let rest = bps.drop_last();
        assert(rest.push(bps.last()) =~= bps);
        if rest.contains(key) {
            let i = choose|i: int| 0 <= i < rest.len() && rest[i] == key;
            assert(bps[i] == key);
        }
        assert(bps[bps.len() - 1] == bps.last());
        lemma_remove_unset(rest, key);
        rest.lemma_filter_push(bps.last(), pred);
    }
}

/// Toggling a breakpoint that is not set, then toggling it again, gives back
/// the very list of breakpoints there was.
pub proof fn lemma_toggle_twice_restores(bps: Seq<BreakpointKey>, key: BreakpointKey)
    requires
        !bps.contains(key),
    ensures
        toggled(toggled(bps, key), key) == bps,
{
    lemma_added_is_set(bps, key);
    bps.lemma_filter_push(key, other_than(key));
    lemma_remove_unset(bps, key);
}

} // verus!
