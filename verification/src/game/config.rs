use crate::game::loader::apply::ObjLoad;
use crate::ids::{ObjId, StaticId};
use vstd::prelude::*;

verus! {

/// What the game is set up with: where new players start, the prefab of their avatars and of
/// money, and the data of the avatar prefab.
#[derive(Clone, Debug)]
pub struct Config {
    pub initial_room: Option<ObjId>,
    pub avatar_id: Option<StaticId>,
    pub money_id: Option<StaticId>,
    pub avatar: Option<ObjLoad>,
}

impl Config {
    /// Nothing set up yet.
    pub fn new() -> (r: Self)
        ensures
            r.initial_room is None,
            r.avatar_id is None,
            r.money_id is None,
            r.avatar is None,
    {
        Config { initial_room: None, avatar_id: None, money_id: None, avatar: None }
    }
}

} // verus!
