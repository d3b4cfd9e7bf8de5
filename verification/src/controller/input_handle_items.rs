use crate::errors::Error;
use crate::game::actions_items::{
    do_drop, do_equip, do_pickup, do_strip, drop_done, equip_done, pickable, pickup_done, same_but_outputs,
    strip_done, told, PickUpError,
};
use crate::game::comm;
use crate::game::comm::{
    drop_item_no_target_text, drop_item_not_found_text, equip_item_not_found_text, equip_what_text,
    pick_what_text, pick_where_not_found_text, strip_item_not_found_text, strip_what_text,
};
use crate::game::container::Container;
use crate::game::input_handle_items::{is_preposition, preposition};
use crate::game::mob::MobId;
use crate::game::inventory_service::{is_search_one, search_one};
use crate::game::item::{Item, ItemId, ItemRepository};
use crate::game::labels::Labels;
use crate::game::location::{children, Locations};
use crate::ids::ObjId;
use crate::utils::strinput::{arguments_text, views, words, StrInput};
use vstd::prelude::*;

verus! {

broadcast use vstd::set::group_set_axioms;

/// Why an item could not be read from a command.
#[derive(Debug)]
pub enum ParseItemError {
    ItemNotProvided,
    ItemNotFound { label: String },
}

/// The words of the command after the command word.
pub open spec fn command_args(input: Seq<char>) -> Seq<Seq<char>> {
    if words(input).len() > 0 {
        words(input).drop_first()
    } else {
        Seq::empty()
    }
}

/// What reading an owned item from `input` may give (see `parser_owned_item`).
pub open spec fn owned_parsed(
    labels: &Labels,
    locations: Map<u32, u32>,
    items: Map<u32, Item>,
    owner_id: u32,
    input: Seq<char>,
    r: Result<ItemId, ParseItemError>,
) -> bool {
    let label = arguments_text(input);
    &&& label.len() == 0 ==> (r matches Err(ParseItemError::ItemNotProvided))
    &&& label.len() > 0 ==> match r {
        Ok(id) => is_search_one(labels, locations, items, owner_id, label, Some(id.0)),
        Err(ParseItemError::ItemNotFound { label: l }) => l@ == label && is_search_one(
            labels,
            locations,
            items,
            owner_id,
            label,
            None,
        ),
        _ => false,
    }
}

/// What reading a not owned item from `input` may give (see `parse_not_owned_item`).
pub open spec fn not_owned_parsed(
    labels: &Labels,
    locations: Map<u32, u32>,
    items: Map<u32, Item>,
    item_location: u32,
    input: Seq<char>,
    r: Result<(ItemId, Option<ItemId>), ParseItemError>,
) -> bool {
    let a = command_args(input);
    &&& a.len() == 1 ==> match r {
        Ok((id, None)) => is_search_one(labels, locations, items, item_location, a[0], Some(id.0)),
        Err(ParseItemError::ItemNotFound { label }) => label@ == a[0] && is_search_one(
            labels,
            locations,
            items,
            item_location,
            a[0],
            None,
        ),
        _ => false,
    }
    &&& a.len() >= 3 && is_preposition(a[1]) ==> match r {
        Ok((id, Some(c))) => is_search_one(labels, locations, items, item_location, a[2], Some(c.0))
            && is_search_one(labels, locations, items, c.0, a[0], Some(id.0)),
        Err(ParseItemError::ItemNotFound { label }) => (label@ == a[2] && is_search_one(
            labels,
            locations,
            items,
            item_location,
            a[2],
            None,
        )) || (label@ == a[0] && exists|c: u32|
            is_search_one(labels, locations, items, item_location, a[2], Some(c))
                && is_search_one(labels, locations, items, c, a[0], None)),
        _ => false,
    }
    &&& !(a.len() == 1 || (a.len() >= 3 && is_preposition(a[1]))) ==> (r matches Err(
        ParseItemError::ItemNotProvided,
    ))
}

/// Read an item owned by `owner_id` from a command: the text after the command word is searched
/// among the items located at the owner.
pub fn parser_owned_item(
    labels: &Labels,
    locations: &Locations,
    items: &ItemRepository,
    owner_id: ObjId,
    args: StrInput,
) -> (r: Result<ItemId, ParseItemError>)
    requires
        labels.wf(),
    ensures
        owned_parsed(labels, locations@, items@, owner_id.0, args.0@, r),
{
    let item_label = args.plain_arguments();
    if item_label.is_empty() {
        return Err(ParseItemError::ItemNotProvided);
    }
    match search_one(labels, locations, items, owner_id, item_label) {
        Some(item_id) => Ok(item_id),
        None => Err(ParseItemError::ItemNotFound { label: item_label.to_owned() }),
    }
}

/// Read an item not owned by the player from a command: "get <item>" searches the location,
/// "get <item> in|at|from <container>" searches the container found at the location.
pub fn parse_not_owned_item(
    labels: &Labels,
    locations: &Locations,
    items: &ItemRepository,
    item_location: ObjId,
    args: StrInput,
) -> (r: Result<(ItemId, Option<ItemId>), ParseItemError>)
    requires
        labels.wf(),
    ensures
        not_owned_parsed(labels, locations@, items@, item_location.0, args.0@, r),
{
    let args = args.parse_arguments();
    proof {
        assert(views(args@).len() == args@.len());
        assert forall|i: int| 0 <= i < args@.len() implies views(args@)[i] == args@[i]@ by {}
    }
    if args.len() == 1 {
        let item_label = args[0];
        match search_one(labels, locations, items, item_location, item_label) {
            Some(found) => Ok((found, None)),
            None => Err(ParseItemError::ItemNotFound { label: item_label.to_owned() }),
        }
    } else if args.len() >= 3 && preposition(args[1]) {
        let item_label = args[0];
        let container_label = args[2];
        let found_container = match search_one(labels, locations, items, item_location, container_label) {
            Some(c) => c,
            None => {
                return Err(ParseItemError::ItemNotFound { label: container_label.to_owned() });
            },
        };
        proof {
        }
        match search_one(labels, locations, items, found_container, item_label) {
            Some(found_item) => Ok((found_item, Some(found_container))),
            None => Err(ParseItemError::ItemNotFound { label: item_label.to_owned() }),
        }
    } else {
        Err(ParseItemError::ItemNotProvided)
    }
}

/// Whatever item the command names can be picked up by the mob (see `pickable`).
pub open spec fn pickup_allowed(c: &Container, mob_id: MobId, args: StrInput) -> bool {
    c.locations@.contains_key(mob_id.0) ==> forall|p: Result<(ItemId, Option<ItemId>), ParseItemError>|
        #[trigger] not_owned_parsed(&c.labels, c.locations@, c.items@, c.locations@[mob_id.0], args.0@, p) ==> match p {
            Ok((i, _)) => pickable(c, mob_id, i),
            _ => true,
        }
}

/// What a pickup command does (see `pickup`).
pub open spec fn pickup_cmd_done<F: Fn(ItemId) -> bool>(c: &Container, f: &Container, mob_id: MobId, args: StrInput, fits: F, r: Result<(), Error>) -> bool {
    &&& !c.locations@.contains_key(mob_id.0) ==> (r matches Err(Error::NotFoundFailure))
        && *f == *c
    &&& c.locations@.contains_key(mob_id.0) ==> r is Ok && exists|p: Result<(ItemId, Option<ItemId>), ParseItemError>|
        #[trigger] not_owned_parsed(
            &c.labels,
            c.locations@,
            c.items@,
            c.locations@[mob_id.0],
            args.0@,
            p,
        ) && match p {
            Ok((item_id, inventory_id)) => exists|b: bool, pr: Result<(), PickUpError>|
                fits.ensures((item_id,), b) && pickup_done(
                    c,
                    f,
                    mob_id,
                    item_id,
                    inventory_id,
                    b,
                    pr,
                ),
            Err(ParseItemError::ItemNotProvided) => same_but_outputs(c, f) && told(
                c,
                f,
                mob_id,
                pick_what_text(),
            ),
            Err(ParseItemError::ItemNotFound { label }) => same_but_outputs(c, f)
                && told(c, f, mob_id, pick_where_not_found_text(label@)),
        }
}

/// The mob picks up an item named by the command, from the floor or from a container there
/// (see `do_pickup`; `fits` says whether the mob can carry an item). A command that names no
/// item, or an item that is not found, is told to the mob. `NotFoundFailure` where the mob is
/// nowhere; else `Ok`, whatever the pickup gave.
pub fn pickup<F: Fn(ItemId) -> bool>(container: &mut Container, mob_id: MobId, args: StrInput, fits: F) -> (r: Result<(), Error>)
    requires
        old(container).wf(),
        forall|i: ItemId| fits.requires((i,)),
        pickup_allowed(old(container), mob_id, args),
    ensures
        final(container).wf(),
        pickup_cmd_done(old(container), final(container), mob_id, args, fits, r),
{
    let room_id = match container.locations.get(mob_id) {
        Some(room_id) => room_id,
        None => {
            return Err(Error::NotFoundFailure);
        },
    };
    let parsed = parse_not_owned_item(&container.labels, &container.locations, &container.items, room_id, args);
    match parsed {
        Ok((item_id, maybe_container)) => {
            let b = fits(item_id);
            let _ = do_pickup(container, mob_id, item_id, maybe_container, b);
        },
        Err(ParseItemError::ItemNotProvided) => {
            container.outputs.private(mob_id, comm::pick_what());
            proof {
                assert(container.outputs@.take(old(container).outputs@.len() as int) =~= old(container).outputs@);
            }
        },
        Err(ParseItemError::ItemNotFound { label }) => {
            container.outputs.private(mob_id, comm::pick_where_not_found(label.as_str()));
            proof {
                assert(container.outputs@.take(old(container).outputs@.len() as int) =~= old(container).outputs@);
            }
        },
    }
    Ok(())
}

/// What an equip command does (see `equip`).
pub open spec fn equip_cmd_done(c: &Container, f: &Container, mob_id: MobId, args: StrInput, r: Result<(), Error>) -> bool {
    &&& exists|p: Result<ItemId, ParseItemError>|
        #[trigger] owned_parsed(
            &c.labels,
            c.locations@,
            c.items@,
            mob_id.0,
            args.0@,
            p,
        ) && match p {
            Ok(item_id) => equip_done(c, f, mob_id, item_id, r),
            Err(ParseItemError::ItemNotProvided) => (r matches Err(Error::InvalidArgumentFailure))
                && same_but_outputs(c, f) && told(
                c,
                f,
                mob_id,
                equip_what_text(),
            ),
            Err(ParseItemError::ItemNotFound { label }) => (r matches Err(Error::InvalidArgumentFailure))
                && same_but_outputs(c, f) && told(
                c,
                f,
                mob_id,
                equip_item_not_found_text(label@),
            ),
        }
}

/// The mob starts using an item it carries, named by the command (see `do_equip`). A command that
/// names no item, or an item the mob does not carry, is told to the mob and refused with
/// `InvalidArgumentFailure`.
pub fn equip(container: &mut Container, mob_id: MobId, args: StrInput) -> (r: Result<(), Error>)
    requires
        old(container).wf(),
    ensures
        final(container).wf(),
        equip_cmd_done(old(container), final(container), mob_id, args, r),
{
    let parsed = parser_owned_item(&container.labels, &container.locations, &container.items, mob_id, args);
    match parsed {
        Ok(item_id) => do_equip(container, mob_id, item_id),
        Err(ParseItemError::ItemNotProvided) => {
            container.outputs.private(mob_id, comm::equip_what());
            proof {
                assert(container.outputs@.take(old(container).outputs@.len() as int) =~= old(container).outputs@);
            }
            Err(Error::InvalidArgumentFailure)
        },
        Err(ParseItemError::ItemNotFound { label }) => {
            container.outputs.private(mob_id, comm::equip_item_not_found(label.as_str()));
            proof {
                assert(container.outputs@.take(old(container).outputs@.len() as int) =~= old(container).outputs@);
            }
            Err(Error::InvalidArgumentFailure)
        },
    }
}

/// Whatever item the command names is not the place of the mob.
pub open spec fn drop_allowed(c: &Container, mob_id: MobId, args: StrInput) -> bool {
    c.locations@.contains_key(mob_id.0) ==> forall|p: Result<ItemId, ParseItemError>|
        #[trigger] owned_parsed(&c.labels, c.locations@, c.items@, mob_id.0, args.0@, p) ==> match p {
            Ok(i) => i.0 != c.locations@[mob_id.0],
            _ => true,
        }
}

/// What a drop command does (see `drop`).
pub open spec fn drop_cmd_done(c: &Container, f: &Container, mob_id: MobId, args: StrInput, r: Result<(), Error>) -> bool {
    &&& exists|p: Result<ItemId, ParseItemError>|
        #[trigger] owned_parsed(
            &c.labels,
            c.locations@,
            c.items@,
            mob_id.0,
            args.0@,
            p,
        ) && match p {
            Ok(item_id) => drop_done(c, f, mob_id, item_id, r),
            Err(ParseItemError::ItemNotProvided) => (r matches Err(Error::InvalidArgumentFailure))
                && same_but_outputs(c, f) && told(
                c,
                f,
                mob_id,
                drop_item_no_target_text(),
            ),
            Err(ParseItemError::ItemNotFound { label }) => (r matches Err(Error::InvalidArgumentFailure))
                && same_but_outputs(c, f) && told(
                c,
                f,
                mob_id,
                drop_item_not_found_text(label@),
            ),
        }
}

/// The mob drops an item it carries, named by the command (see `do_drop`). A command that
/// names no item, or an item the mob does not carry, is told to the mob and refused with
/// `InvalidArgumentFailure`.
pub fn drop(container: &mut Container, mob_id: MobId, args: StrInput) -> (r: Result<(), Error>)
    requires
        old(container).wf(),
        drop_allowed(old(container), mob_id, args),
    ensures
        final(container).wf(),
        drop_cmd_done(old(container), final(container), mob_id, args, r),
{
    let parsed = parser_owned_item(&container.labels, &container.locations, &container.items, mob_id, args);
    match parsed {
        Ok(item_id) => do_drop(container, mob_id, item_id),
        Err(ParseItemError::ItemNotProvided) => {
            container.outputs.private(mob_id, comm::drop_item_no_target());
            proof {
                assert(container.outputs@.take(old(container).outputs@.len() as int) =~= old(container).outputs@);
            }
            Err(Error::InvalidArgumentFailure)
        },
        Err(ParseItemError::ItemNotFound { label }) => {
            container.outputs.private(mob_id, comm::drop_item_not_found(label.as_str()));
            proof {
                assert(container.outputs@.take(old(container).outputs@.len() as int) =~= old(container).outputs@);
            }
            Err(Error::InvalidArgumentFailure)
        },
    }
}

/// What a strip command does (see `strip`).
pub open spec fn strip_cmd_done(c: &Container, f: &Container, mob_id: MobId, args: StrInput, r: Result<(), Error>) -> bool {
    &&& exists|p: Result<ItemId, ParseItemError>|
        #[trigger] owned_parsed(
            &c.labels,
            c.locations@,
            c.items@,
            mob_id.0,
            args.0@,
            p,
        ) && match p {
            Ok(item_id) => strip_done(c, f, mob_id, item_id, r),
            Err(ParseItemError::ItemNotProvided) => (r matches Err(Error::InvalidArgumentFailure))
                && same_but_outputs(c, f) && told(
                c,
                f,
                mob_id,
                strip_what_text(),
            ),
            Err(ParseItemError::ItemNotFound { label }) => (r matches Err(Error::InvalidArgumentFailure))
                && same_but_outputs(c, f) && told(
                c,
                f,
                mob_id,
                strip_item_not_found_text(label@),
            ),
        }
}

/// The mob stops using an item it carries, named by the command (see `do_strip`). A command that
/// names no item, or an item the mob does not carry, is told to the mob and refused with
/// `InvalidArgumentFailure`.
pub fn strip(container: &mut Container, mob_id: MobId, args: StrInput) -> (r: Result<(), Error>)
    requires
        old(container).wf(),
    ensures
        final(container).wf(),
        strip_cmd_done(old(container), final(container), mob_id, args, r),
{
    let parsed = parser_owned_item(&container.labels, &container.locations, &container.items, mob_id, args);
    match parsed {
        Ok(item_id) => do_strip(container, mob_id, item_id),
        Err(ParseItemError::ItemNotProvided) => {
            container.outputs.private(mob_id, comm::strip_what());
            proof {
                assert(container.outputs@.take(old(container).outputs@.len() as int) =~= old(container).outputs@);
            }
            Err(Error::InvalidArgumentFailure)
        },
        Err(ParseItemError::ItemNotFound { label }) => {
            container.outputs.private(mob_id, comm::strip_item_not_found(label.as_str()));
            proof {
                assert(container.outputs@.take(old(container).outputs@.len() as int) =~= old(container).outputs@);
            }
            Err(Error::InvalidArgumentFailure)
        },
    }
}

} // verus!
