use crate::game::inventory_service::{is_search_one, search, search_one};
use crate::game::item::{ItemId, ItemRepository};
use crate::game::labels::{id_values, Labels};
use crate::game::location::{children, Locations};
use crate::ids::ObjId;
use crate::utils::text::str_eq;
use vstd::prelude::*;

verus! {

broadcast use vstd::set::group_set_axioms;

/// Why an item could not be read from a command.
#[derive(Debug)]
pub enum ParseItemError {
    ItemNotProvided,
    ItemNotFound { label: String },
}

/// "in", "at" or "from".
pub open spec fn is_preposition(s: Seq<char>) -> bool {
    s == seq!['i', 'n'] || s == seq!['a', 't'] || s == seq!['f', 'r', 'o', 'm']
}

/// Law: "in", "at" and "from" are the prepositions that name a container, and no other word
/// is one.
pub proof fn lemma_prepositions()
    ensures
        is_preposition("in"@),
        is_preposition("at"@),
        is_preposition("from"@),
        forall|w: Seq<char>| #[trigger] is_preposition(w) ==> w == "in"@ || w == "at"@ || w == "from"@,
{
    reveal_strlit("in");
    reveal_strlit("at");
    reveal_strlit("from");
    assert("in"@ =~= seq!['i', 'n']);
    assert("at"@ =~= seq!['a', 't']);
    assert("from"@ =~= seq!['f', 'r', 'o', 'm']);
}

pub fn preposition(s: &str) -> (r: bool)
    ensures
        r == is_preposition(s@),
{
    proof {
        reveal_strlit("in");
        reveal_strlit("at");
        reveal_strlit("from");
        assert("in"@ =~= seq!['i', 'n']);
        assert("at"@ =~= seq!['a', 't']);
        assert("from"@ =~= seq!['f', 'r', 'o', 'm']);
    }
    str_eq(s, "in") || str_eq(s, "at") || str_eq(s, "from")
}

/// Read an item not owned by the player from the words of a command: "get <item>" searches
/// the location, "get <item> in|at|from <container>" searches the container found at the
/// location.
pub fn parse_not_owned_item(
    labels: &Labels,
    locations: &Locations,
    items: &ItemRepository,
    item_location: ObjId,
    args: Vec<&str>,
) -> (r: Result<(ItemId, Option<ItemId>), ParseItemError>)
    requires
        labels.wf(),
    ensures
        args@.len() == 2 ==> match r {
            Ok((id, None)) => is_search_one(labels, locations@, items@, item_location.0, args@[1]@, Some(id.0)),
            Err(ParseItemError::ItemNotFound { label }) => label@ == args@[1]@ && is_search_one(
                labels,
                locations@,
                items@,
                item_location.0,
                args@[1]@,
                None,
            ),
            _ => false,
        },
        args@.len() >= 4 && is_preposition(args@[2]@) ==> match r {
            Ok((id, Some(c))) => is_search_one(labels, locations@, items@, item_location.0, args@[3]@, Some(c.0))
                && is_search_one(labels, locations@, items@, c.0, args@[1]@, Some(id.0)),
            Err(ParseItemError::ItemNotFound { label }) => (label@ == args@[3]@ && is_search_one(
                labels,
                locations@,
                items@,
                item_location.0,
                args@[3]@,
                None,
            )) || (label@ == args@[1]@ && exists|c: u32|
                is_search_one(labels, locations@, items@, item_location.0, args@[3]@, Some(c))
                    && is_search_one(labels, locations@, items@, c, args@[1]@, None)),
            _ => false,
        },
        !(args@.len() == 2 || (args@.len() >= 4 && is_preposition(args@[2]@))) ==> r matches Err(
            ParseItemError::ItemNotProvided,
        ),
        args@.len() >= 4 && (args@[2]@ == "in"@ || args@[2]@ == "at"@ || args@[2]@ == "from"@) ==> match r {
            Ok((id, Some(c))) => is_search_one(labels, locations@, items@, item_location.0, args@[3]@, Some(c.0))
                && is_search_one(labels, locations@, items@, c.0, args@[1]@, Some(id.0)),
            Err(ParseItemError::ItemNotFound { .. }) => true,
            _ => false,
        },
{
    proof {
        lemma_prepositions();
    }
    if args.len() == 2 {
        let item_label = args[1];
        match search_one(labels, locations, items, item_location, item_label) {
            Some(found) => Ok((found, None)),
            None => Err(ParseItemError::ItemNotFound { label: item_label.to_owned() }),
        }
    } else if args.len() >= 4 && preposition(args[2]) {
        let item_label = args[1];
        let container_label = args[3];
        let found_container = match search_one(labels, locations, items, item_location, container_label) {
            Some(c) => c,
            None => {
                return Err(ParseItemError::ItemNotFound { label: container_label.to_owned() });
            },
        };
        proof {
        }
        match search_one(labels, locations, items, found_container, item_label) {
            Some(found_item) => Ok((found_item, Some(found_container))),
            None => Err(ParseItemError::ItemNotFound { label: item_label.to_owned() }),
        }
    } else {
        Err(ParseItemError::ItemNotProvided)
    }
}

/// Read an item owned by `owner_id` from the words of a command: the second word is searched
/// among the items located at the owner.
pub fn parser_owned_item(
    labels: &Labels,
    locations: &Locations,
    items: &ItemRepository,
    owner_id: ObjId,
    args: Vec<&str>,
) -> (r: Result<ItemId, ParseItemError>)
    requires
        labels.wf(),
    ensures
        args@.len() < 2 ==> r matches Err(ParseItemError::ItemNotProvided),
        args@.len() >= 2 ==> match r {
            Ok(id) => is_search_one(labels, locations@, items@, owner_id.0, args@[1]@, Some(id.0)),
            Err(ParseItemError::ItemNotFound { label }) => label@ == args@[1]@ && is_search_one(
                labels,
                locations@,
                items@,
                owner_id.0,
                args@[1]@,
                None,
            ),
            _ => false,
        },
{
    if args.len() < 2 {
        return Err(ParseItemError::ItemNotProvided);
    }
    let item_label = args[1];
    match search_one(labels, locations, items, owner_id, item_label) {
        Some(item_id) => Ok(item_id),
        None => Err(ParseItemError::ItemNotFound { label: item_label.to_owned() }),
    }
}

} // verus!
