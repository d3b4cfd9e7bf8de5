use crate::ids::ObjId;
use vstd::prelude::*;

verus! {

/// A message for one mob, or for every mob at a location.
#[derive(Debug, Clone)]
pub enum Output {
    Private { mob_id: ObjId, msg: String },
    Broadcast { exclude: Option<ObjId>, location_id: ObjId, recursive: bool, msg: String },
}

/// Messages produced by the game, in order, until they are taken.
pub struct Outputs {
    list: Vec<Output>,
}

impl View for Outputs {
    type V = Seq<Output>;

    closed spec fn view(&self) -> Seq<Output> {
        self.list@
    }
}

impl Outputs {
    pub fn new() -> (r: Self)
        ensures
            r@ == Seq::<Output>::empty(),
    {
        Outputs { list: Vec::new() }
    }

    /// A message to one mob.
    pub fn private(&mut self, mob_id: ObjId, msg: String)
        ensures
            final(self)@ == old(self)@.push(Output::Private { mob_id, msg }),
    {
        self.list.push(Output::Private { mob_id, msg });
    }

    /// A message to the mobs directly at a location, but the excluded one.
    pub fn broadcast(&mut self, exclude: Option<ObjId>, location_id: ObjId, msg: String)
        ensures
            final(self)@ == old(self)@.push(Output::Broadcast { exclude, location_id, recursive: false, msg }),
    {
        self.list.push(Output::Broadcast { exclude, location_id, recursive: false, msg });
    }

    /// A message to the mobs anywhere inside a location, but the excluded one.
    pub fn broadcast_all(&mut self, exclude: Option<ObjId>, location_id: ObjId, msg: String)
        ensures
            final(self)@ == old(self)@.push(Output::Broadcast { exclude, location_id, recursive: true, msg }),
    {
        self.list.push(Output::Broadcast { exclude, location_id, recursive: true, msg });
    }

    /// Give the messages, leaving none.
    pub fn take(&mut self) -> (r: Vec<Output>)
        ensures
            r@ == old(self)@,
            final(self)@ == Seq::<Output>::empty(),
    {
        let mut other: Vec<Output> = Vec::new();
        std::mem::swap(&mut self.list, &mut other);
        other
    }
}

} // verus!
