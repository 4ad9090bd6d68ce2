use vstd::prelude::*;
use crate::text::{nat_to_decimal, push_decimal};

verus! {

/// Identifier of a datum in the player's datum store; 0 stands for VOID.
pub type DatumId = usize;

/// A reference to a stored datum, or VOID.
#[derive(Clone, Copy, Debug)]
pub enum DatumRef {
    Void,
    Ref(DatumId),
}

impl DatumRef {
    /// The id this reference points at; VOID has id 0.
    pub open spec fn id(self) -> DatumId {
        match self {
            DatumRef::Void => 0,
            DatumRef::Ref(id) => id,
        }
    }

    /// The id of the referenced datum, 0 for VOID.
    pub fn unwrap(&self) -> (id: DatumId)
        ensures
            id == self.id(),
    {
        match self {
            DatumRef::Void => 0,
            DatumRef::Ref(id) => *id,
        }
    }

    /// `DatumRef(Void)` or `DatumRef(<id>)`, as the player prints a reference.
    pub fn to_display_string(&self) -> (s: String)
        ensures
            s@ == (match *self {
                DatumRef::Void => "DatumRef(Void)"@,
                DatumRef::Ref(id) => "DatumRef("@ + nat_to_decimal(id as nat) + ")"@,
            }),
    {
        match self {
            DatumRef::Void => String::from_str("DatumRef(Void)"),
            DatumRef::Ref(id) => {
                let mut s = String::from_str("DatumRef(");
                push_decimal(&mut s, *id as u64);
                s.append(")");
                s
            },
        }
    }
}

/// Two references are equal when they name the same id; a reference to id 0
/// is VOID.
impl PartialEq for DatumRef {
    fn eq(&self, other: &Self) -> (r: bool) {
        match (self, other) {
            (DatumRef::Void, DatumRef::Void) => true,
            (DatumRef::Ref(id1), DatumRef::Void) => *id1 == 0,
            (DatumRef::Void, DatumRef::Ref(id2)) => *id2 == 0,
            (DatumRef::Ref(id1), DatumRef::Ref(id2)) => *id1 == *id2,
        }
    }
}

impl vstd::std_specs::cmp::PartialEqSpecImpl for DatumRef {
    open spec fn obeys_eq_spec() -> bool {
        true
    }

    open spec fn eq_spec(&self, other: &DatumRef) -> bool {
        self.id() == other.id()
    }
}

} // verus!
