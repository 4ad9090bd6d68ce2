//! The frame of a running handler: its arguments, operand stack and locals.
use vstd::prelude::*;
use crate::datum_ref::DatumRef;

verus! {

/// An operand or local: VOID, an integer held inline, or a stored datum.
#[derive(Clone, Copy, Debug)]
pub enum StackDatum {
    Void,
    Int(i32),
    Ref(DatumRef),
}

/// A local slot's value; an unset slot reads as VOID.
pub open spec fn local_at(locals: Seq<StackDatum>, i: int) -> StackDatum {
    if 0 <= i < locals.len() {
        locals[i]
    } else {
        StackDatum::Void
    }
}

/// The local file after writing `v` into slot `i`, growing it with VOID slots
/// as needed, and the slot marked as assigned.
pub open spec fn locals_after_set(locals: Seq<StackDatum>, assigned: Seq<bool>, i: int, v: StackDatum) -> (
    Seq<StackDatum>,
    Seq<bool>,
) {
    if i < locals.len() {
        (locals.update(i, v), assigned.update(i, true))
    } else {
        (
            (locals + Seq::new((i - locals.len()) as nat, |k: int| StackDatum::Void)).push(v),
            (assigned + Seq::new((i - assigned.len()) as nat, |k: int| false)).push(true),
        )
    }
}

/// A sequence padded with `fill` up to length `n`.
pub open spec fn padded<T>(s: Seq<T>, n: nat, fill: T) -> Seq<T> {
    if s.len() < n {
        s + Seq::new((n - s.len()) as nat, |k: int| fill)
    } else {
        s
    }
}

/// A handler's frame.
pub struct Scope {
    pub args: Vec<DatumRef>,
    pub stack: Vec<StackDatum>,
    pub locals: Vec<StackDatum>,
    /// Which local slots have been written.
    pub locals_assigned: Vec<bool>,
    /// The bytecode the handler is at.
    pub bytecode_index: usize,
    pub return_value: DatumRef,
}

impl Scope {
    /// Each local slot has its assigned flag.
    pub open spec fn wf(&self) -> bool {
        self.locals.len() == self.locals_assigned.len()
    }

    /// A fresh frame: no arguments, an empty stack, no locals, at bytecode 0.
    pub fn new() -> (s: Scope)
        ensures
            s.wf(),
            s.args@.len() == 0,
            s.stack@.len() == 0,
            s.locals@.len() == 0,
            s.bytecode_index == 0,
            s.return_value == DatumRef::Void,
    {
        Scope {
            args: Vec::new(),
            stack: Vec::new(),
            locals: Vec::new(),
            locals_assigned: Vec::new(),
            bytecode_index: 0,
            return_value: DatumRef::Void,
        }
    }

    /// Grows the local file to at least `n` unassigned VOID slots.
    pub fn ensure_locals(&mut self, n: usize)
        requires
            old(self).wf(),
        ensures
            final(self).wf(),
            final(self).locals@ == padded(old(self).locals@, n as nat, StackDatum::Void),
            final(self).locals_assigned@ == padded(old(self).locals_assigned@, n as nat, false),
            final(self).args == old(self).args,
            final(self).stack == old(self).stack,
            final(self).bytecode_index == old(self).bytecode_index,
            final(self).return_value == old(self).return_value,
    {
        let ghost l0 = self.locals@;
        let ghost a0 = self.locals_assigned@;
        while self.locals.len() < n
            invariant
                self.wf(),
                l0.len() <= self.locals.len() <= (if l0.len() < n { n as int } else { l0.len() as int }),
                self.locals@ == l0 + Seq::new((self.locals.len() - l0.len()) as nat, |k: int| StackDatum::Void),
                self.locals_assigned@ == a0 + Seq::new((self.locals.len() - l0.len()) as nat, |k: int| false),
                self.args == old(self).args,
                self.stack == old(self).stack,
                self.bytecode_index == old(self).bytecode_index,
                self.return_value == old(self).return_value,
                l0 == old(self).locals@,
                a0 == old(self).locals_assigned@,
            decreases n - self.locals.len(),
        {
            self.locals.push(StackDatum::Void);
            self.locals_assigned.push(false);
        }
        assert(self.locals@ == padded(l0, n as nat, StackDatum::Void));
        assert(self.locals_assigned@ == padded(a0, n as nat, false));
    }

    /// The value of local slot `i`.
    pub fn local(&self, i: usize) -> (v: StackDatum)
        ensures
            v == local_at(self.locals@, i as int),
    {
        if i < self.locals.len() {
            self.locals[i]
        } else {
            StackDatum::Void
        }
    }

    /// Whether local slot `i` has been written.
    pub fn local_is_assigned(&self, i: usize) -> (b: bool)
        ensures
            b == (0 <= i < self.locals_assigned.len() && self.locals_assigned@[i as int]),
    {
        i < self.locals_assigned.len() && self.locals_assigned[i]
    }

    /// Writes local slot `i` and marks it assigned.
    pub fn set_local(&mut self, i: usize, v: StackDatum)
        requires
            old(self).wf(),
        ensures
            final(self).wf(),
            (final(self).locals@, final(self).locals_assigned@) == locals_after_set(
                old(self).locals@,
                old(self).locals_assigned@,
                i as int,
                v,
            ),
            final(self).args == old(self).args,
            final(self).stack == old(self).stack,
            final(self).bytecode_index == old(self).bytecode_index,
            final(self).return_value == old(self).return_value,
    {
        if i < self.locals.len() {
            self.locals.set(i, v);
            self.locals_assigned.set(i, true);
        } else {
            let ghost l0 = self.locals@;
            let ghost a0 = self.locals_assigned@;
            while self.locals.len() < i
                invariant
                    self.wf(),
                    l0.len() <= self.locals.len() <= i,
                    self.locals@ == l0 + Seq::new((self.locals.len() - l0.len()) as nat, |k: int| StackDatum::Void),
                    self.locals_assigned@ == a0 + Seq::new((self.locals.len() - l0.len()) as nat, |k: int| false),
                    self.args == old(self).args,
                    self.stack == old(self).stack,
                    self.bytecode_index == old(self).bytecode_index,
                    self.return_value == old(self).return_value,
                    l0 == old(self).locals@,
                    a0 == old(self).locals_assigned@,
                    l0.len() == a0.len(),
                decreases i - self.locals.len(),
            {
                self.locals.push(StackDatum::Void);
                self.locals_assigned.push(false);
            }
            self.locals.push(v);
            self.locals_assigned.push(true);
        }
    }
}

} // verus!
