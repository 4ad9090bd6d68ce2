//! The store that datum references point into.
use vstd::prelude::*;
use crate::datum::{Datum, DatumView, clone_datum};
use crate::datum_ref::{DatumId, DatumRef};

verus! {

/// The datums of a player, addressed by `DatumRef`. Slot 0 is VOID, so that
/// a reference to id 0 and `DatumRef::Void` name the same value.
pub struct DatumAllocator {
    pub datums: Vec<Datum>,
}

impl DatumAllocator {
    /// Slot 0 holds VOID.
    pub open spec fn wf(&self) -> bool {
        self.datums.len() >= 1 && self.datums@[0]@ == DatumView::Void
    }

    /// Whether a reference names a stored datum.
    pub open spec fn holds(&self, r: DatumRef) -> bool {
        r.id() < self.datums.len()
    }

    /// The value a reference names.
    pub open spec fn value_of(&self, r: DatumRef) -> DatumView {
        match r {
            DatumRef::Void => DatumView::Void,
            DatumRef::Ref(id) => self.datums@[id as int]@,
        }
    }

    /// A store that holds only VOID.
    pub fn new() -> (a: DatumAllocator)
        ensures
            a.wf(),
            a.datums.len() == 1,
    {
        let mut datums: Vec<Datum> = Vec::new();
        datums.push(Datum::Void);
        DatumAllocator { datums }
    }

    /// Stores a datum and returns a reference to it.
    pub fn alloc_datum(&mut self, d: Datum) -> (r: DatumRef)
        requires
            old(self).wf(),
        ensures
            final(self).wf(),
            final(self).datums@ == old(self).datums@.push(d),
            r == DatumRef::Ref(old(self).datums.len() as DatumId),
            final(self).holds(r),
            final(self).value_of(r) == d@,
            forall|q: DatumRef| #[trigger] old(self).holds(q) ==> final(self).holds(q) && final(self).value_of(q) == old(self).value_of(q),
    {
        let id = self.datums.len();
        self.datums.push(d);
        DatumRef::Ref(id)
    }

    /// A copy of the datum a reference names.
    pub fn get_datum(&self, r: &DatumRef) -> (d: Datum)
        requires
            self.wf(),
            self.holds(*r),
        ensures
            d@ == self.value_of(*r),
    {
        match r {
            DatumRef::Void => Datum::Void,
            DatumRef::Ref(id) => clone_datum(&self.datums[*id]),
        }
    }
}

} // verus!
