use crate::errors::{Error, Result};
use crate::game::actions_hire::{hire_done, same_but_mobs};
use crate::game::actions_items::{lemma_told, private, same_but_outputs, told};
use crate::game::comm;
use crate::game::comm::{hire_fail_not_found_text, hire_fail_text, hire_list_text};
use crate::game::container::Container;
use crate::game::labels::{candidates, id_values, label_text, search_in};
use crate::game::location::{children, enumerates, obj_values};
use crate::game::mob::MobId;
use crate::ids::ObjId;
use crate::utils::strinput::{arguments_text, StrInput};
use crate::utils::text::str_chars;
use vstd::prelude::*;

verus! {

/// The outputs are the old ones and two private messages to the mob.
pub open spec fn told_two(before: &Container, after: &Container, mob_id: MobId, first: Seq<char>, second: Seq<char>) -> bool {
    let n = before.outputs@.len() as int;
    &&& after.outputs@.len() == n + 2
    &&& after.outputs@.take(n) == before.outputs@
    &&& private(mob_id, first, after.outputs@[n])
    &&& private(mob_id, second, after.outputs@[n + 1])
}

/// The labels of the objects.
pub open spec fn labels_of(c: &Container, ids: Seq<ObjId>) -> Seq<Seq<char>> {
    ids.map_values(|o: ObjId| label_text(c.labels@, o.0))
}

/// What a hire command does (see `hire`): the mobs for hire where the mob is are searched by
/// the arguments, where there are any; the first found is hired; else the mob is told who can
/// be hired, and why where it asked for someone.
pub open spec fn hire_command_done(c: &Container, f: &Container, mob_id: MobId, input: Seq<char>, r: Result<()>) -> bool {
    if !c.locations@.contains_key(mob_id.0) {
        (r matches Err(Error::InvalidStateFailure)) && same_but_outputs(c, f) && told(c, f, mob_id, hire_fail_text())
    } else {
        let args = arguments_text(input);
        exists|cands: Seq<ObjId>|
            enumerates(cands, children(c.locations@, c.locations@[mob_id.0]).intersect(c.hires@.dom()))
                && #[trigger] hired_among(c, f, mob_id, args, cands, r)
    }
}

/// What a hire command does with the mobs for hire found where the mob is.
pub open spec fn hired_among(c: &Container, f: &Container, mob_id: MobId, args: Seq<char>, cands: Seq<ObjId>, r: Result<()>) -> bool {
    let founds = if args.len() == 0 {
        Seq::empty()
    } else {
        search_in(candidates(c.labels.keys_of(cands)), args)
    };
    if founds.len() > 0 {
        hire_done(c, f, mob_id, ObjId(founds[0]), r)
    } else if args.len() == 0 {
        r is Ok && same_but_outputs(c, f) && told(c, f, mob_id, hire_list_text(labels_of(c, cands)))
    } else {
        (r matches Err(Error::NotFoundFailure)) && same_but_outputs(c, f) && told_two(
            c,
            f,
            mob_id,
            hire_fail_not_found_text(args),
            hire_list_text(labels_of(c, cands)),
        )
    }
}

/// Hire one of the mobs for hire where the mob is, by the arguments of the command (see
/// `hire_command_done`).
pub fn hire(container: &mut Container, mob_id: MobId, input: StrInput) -> (r: Result<()>)
    requires
        old(container).wf(),
    ensures
        final(container).wf(),
        hire_command_done(old(container), final(container), mob_id, input.0@, r),
{
    let location_id = match container.locations.get(mob_id) {
        Some(location_id) => location_id,
        None => {
            container.outputs.private(mob_id, comm::hire_fail());
            proof {
                lemma_told(old(container).outputs@, container.outputs@);
            }
            return Err(Error::InvalidStateFailure);
        },
    };
    let all = container.locations.list_at(location_id);
    let ghost here = children(container.locations@, location_id.0);
    let mut cands: Vec<ObjId> = Vec::new();
    let mut i: usize = 0;
    while i < all.len()
        invariant
            i <= all.len(),
            obj_values(all@).no_duplicates(),
            obj_values(all@).to_set() == here,
            obj_values(cands@).no_duplicates(),
            forall|x: u32|
                obj_values(cands@).contains(x) <==> (obj_values(all@).take(i as int).contains(x)
                    && container.hires@.contains_key(x)),
        decreases all.len() - i,
    {
        let id = all[i];
        let ghost before = obj_values(cands@);
        proof {
            assert(obj_values(all@)[i as int] == id.0);
            assert(obj_values(all@).take(i + 1) =~= obj_values(all@).take(i as int).push(id.0));
        }
        if container.hires.exist(id) {
            cands.push(id);
            proof {
                assert(obj_values(cands@) =~= before.push(id.0));
                if before.contains(id.0) {
                    let j = choose|j: int| 0 <= j < i && #[trigger] obj_values(all@).take(i as int)[j] == id.0;
                    assert(obj_values(all@)[j] == obj_values(all@)[i as int]);
                }
                assert forall|x: u32|
                    obj_values(cands@).contains(x) <==> (obj_values(all@).take(i + 1).contains(x)
                        && container.hires@.contains_key(x)) by {
                    vstd::seq_lib::lemma_seq_contains_after_push(before, id.0, x);
                    vstd::seq_lib::lemma_seq_contains_after_push(obj_values(all@).take(i as int), id.0, x);
                }
            }
        } else {
            proof {
                assert forall|x: u32|
                    obj_values(cands@).contains(x) <==> (obj_values(all@).take(i + 1).contains(x)
                        && container.hires@.contains_key(x)) by {
                    vstd::seq_lib::lemma_seq_contains_after_push(obj_values(all@).take(i as int), id.0, x);
                }
            }
        }
        i = i + 1;
    }
    proof {
        assert(obj_values(all@).take(all.len() as int) =~= obj_values(all@));
        assert(obj_values(cands@).to_set() =~= here.intersect(container.hires@.dom()));
    }
    let args = input.plain_arguments();
    let no_args = str_chars(args).len() == 0;
    let founds = if no_args {
        Vec::new()
    } else {
        container.labels.search(&cands, args)
    };
    proof {
        assert(location_id.0 == old(container).locations@[mob_id.0]);
        assert(enumerates(cands@, children(old(container).locations@, old(container).locations@[mob_id.0]).intersect(old(container).hires@.dom())));
        assert(old(container).labels.keys_of(cands@) == container.labels.keys_of(cands@));
        assert(id_values(founds@).len() == founds.len());
    }
    if founds.len() > 0 {
        let hired_id = founds[0];
        proof {
            assert(id_values(founds@)[0] == hired_id.0);
        }
        let r = crate::game::actions_hire::hire(container, mob_id, hired_id);
        proof {
            assert(hired_among(old(container), container, mob_id, args@, cands@, r));
        }
        r
    } else {
        let labels = container.labels.resolve_labels(&cands);
        proof {
            assert(comm::str_views(labels@) =~= labels_of(old(container), cands@));
        }
        let list = comm::hire_list(labels);
        if no_args {
            container.outputs.private(mob_id, list);
            proof {
                lemma_told(old(container).outputs@, container.outputs@);
                assert(hired_among(old(container), container, mob_id, args@, cands@, Ok(())));
            }
            Ok(())
        } else {
            let msg = comm::hire_fail_not_found(args);
            container.outputs.private(mob_id, msg);
            container.outputs.private(mob_id, list);
            proof {
                lemma_told(old(container).outputs@, container.outputs@);
                assert(hired_among(old(container), container, mob_id, args@, cands@, Err(Error::NotFoundFailure)));
            }
            Err(Error::NotFoundFailure)
        }
    }
}

} // verus!
