use vstd::prelude::*;

verus! {

/// A user, as far as delete fan-out is concerned: its id and the id of the
/// instance it lives on.
#[derive(Clone, Copy, Debug, PartialEq, Eq, Structural)]
pub struct Actor {
    pub id: i32,
    pub instance: i32,
}

/// Whether some actor of `s` lives on `instance`.
pub open spec fn has_instance(s: Seq<Actor>, instance: i32) -> bool {
    exists|j: int| 0 <= j < s.len() && (#[trigger] s[j]).instance == instance
}

/// One actor per remote instance among `known`: the first one met on each
/// instance other than `local`, in order.
pub open spec fn representatives(known: Seq<Actor>, local: i32) -> Seq<Actor>
    decreases known.len(),
{
    if known.len() == 0 {
        Seq::empty()
    } else {
        let prev = representatives(known.drop_last(), local);
        let a = known.last();
        if a.instance == local || has_instance(prev, a.instance) {
            prev
        } else {
            prev.push(a)
        }
    }
}

/// The actors to which deleting a user of `user_instance` sends the delete
/// activity.
pub open spec fn delete_targets(user_instance: i32, local_instance: Option<i32>, known: Seq<Actor>) -> Seq<
    Actor,
> {
    if local_instance == Some(user_instance) {
        representatives(known, user_instance)
    } else {
        Seq::empty()
    }
}

/// Picks the targets of a delete broadcast among the actors that are known
/// to have interacted with the deleted user.
pub fn broadcast_targets(known: &Vec<Actor>, local: i32) -> (r: Vec<Actor>)
    ensures
        r@ == representatives(known@, local),
{
    let mut targets: Vec<Actor> = Vec::new();
    let mut i: usize = 0;
    while i < known.len()
        invariant
            i <= known@.len(),
            targets@ == representatives(known@.subrange(0, i as int), local),
        decreases known@.len() - i,
    {
        let a = known[i];
        let ghost prefix = known@.subrange(0, i + 1);
        assert(prefix.drop_last() =~= known@.subrange(0, i as int));
        let mut seen = a.instance == local;
        let mut j: usize = 0;
        while j < targets.len() && !seen
            invariant
                j <= targets@.len(),
                seen == (a.instance == local || exists|t: int|
                    0 <= t < j && (#[trigger] targets@[t]).instance == a.instance),
            decreases targets@.len() - j,
        {
            if targets[j].instance == a.instance {
                seen = true;
            }
            j = j + 1;
        }
        if !seen {
            targets.push(a);
        }
        i = i + 1;
    }
    assert(known@.subrange(0, i as int) =~= known@);
    targets
}

/// What a ban does after the account is deleted: for a user of the local
/// instance, the targets of the delete broadcast; for a remote user, whose
/// home instance already knows, nothing to send. `local_instance` is
/// `None` when the local instance could not be loaded.
pub fn ban(user_instance: i32, local_instance: Option<i32>, known: &Vec<Actor>) -> (r: Option<
    Vec<Actor>,
>)
    ensures
        r is Some <==> local_instance == Some(user_instance),
        r matches Some(t) ==> t@ == representatives(known@, user_instance),
        r matches Some(t) ==> t@ == delete_targets(user_instance, local_instance, known@),
{
    match local_instance {
        Some(local) => {
            if local == user_instance {
                Some(broadcast_targets(known, local))
            } else {
                None
            }
        },
        None => None,
    }
}

proof fn lemma_representatives(known: Seq<Actor>, local: i32)
    ensures
        forall|j: int|
            0 <= j < representatives(known, local).len() ==> (#[trigger] representatives(
                known,
                local,
            )[j]).instance != local && known.contains(representatives(known, local)[j]),
        forall|i: int, j: int|
            0 <= i < representatives(known, local).len() && 0 <= j < representatives(
                known,
                local,
            ).len() && i != j ==> (#[trigger] representatives(known, local)[i]).instance
                != (#[trigger] representatives(known, local)[j]).instance,
        forall|inst: i32|
            inst != local && #[trigger] has_instance(known, inst) ==> has_instance(
                representatives(known, local),
                inst,
            ),
    decreases known.len(),
{
    if known.len() > 0 {
        let rest = known.drop_last();
        lemma_representatives(rest, local);
        let prev = representatives(rest, local);
        let r = representatives(known, local);
        let a = known.last();
        assert forall|j: int| 0 <= j < r.len() implies (#[trigger] r[j]).instance != local
            && known.contains(r[j]) by {
            if j < prev.len() {
                assert(r[j] == prev[j]);
                let k = choose|k: int| 0 <= k < rest.len() && rest[k] == prev[j];
                assert(known[k] == rest[k]);
            } else {
                assert(known[known.len() - 1] == a);
            }
        }
        assert forall|inst: i32| inst != local && #[trigger] has_instance(known, inst) implies has_instance(
            r,
            inst,
        ) by {
            let k = choose|k: int| 0 <= k < known.len() && (#[trigger] known[k]).instance == inst;
            if k < known.len() - 1 {
                assert(rest[k] == known[k]);
                assert(has_instance(rest, inst));
                let p = choose|p: int| 0 <= p < prev.len() && (#[trigger] prev[p]).instance == inst;
                assert(r[p] == prev[p]);
            } else if !has_instance(prev, a.instance) {
                assert(r[prev.len() as int] == a);
            } else {
                let p = choose|p: int| 0 <= p < prev.len() && (#[trigger] prev[p]).instance == inst;
                assert(r[p] == prev[p]);
            }
        }
    }
}

/// Deleting a local user sends the delete activity exactly once to each
/// remote instance among the known actors, and to no other instance;
/// deleting a remote user sends nothing.
pub proof fn lemma_one_delete_per_instance(
    user_instance: i32,
    local_instance: Option<i32>,
    known: Seq<Actor>,
)
    ensures
        local_instance != Some(user_instance) ==> delete_targets(
            user_instance,
            local_instance,
            known,
        ).len() == 0,
        local_instance == Some(user_instance) ==> ({
            let t = delete_targets(user_instance, local_instance, known);
            &&& forall|inst: i32|
                inst != user_instance && #[trigger] has_instance(known, inst) ==> exists|i: int|
                    0 <= i < t.len() && (#[trigger] t[i]).instance == inst && forall|j: int|
                        0 <= j < t.len() && (#[trigger] t[j]).instance == inst ==> j == i
            &&& forall|j: int|
                0 <= j < t.len() ==> (#[trigger] t[j]).instance != user_instance
                    && known.contains(t[j])
        }),
{
    if local_instance == Some(user_instance) {
        lemma_representatives(known, user_instance);
        let t = representatives(known, user_instance);
        assert(delete_targets(user_instance, local_instance, known) == t);
        assert forall|inst: i32| inst != user_instance && #[trigger] has_instance(known, inst) implies exists|i: int|
            0 <= i < t.len() && (#[trigger] t[i]).instance == inst && forall|j: int|
                0 <= j < t.len() && (#[trigger] t[j]).instance == inst ==> j == i by {
            let i = choose|i: int| 0 <= i < t.len() && (#[trigger] t[i]).instance == inst;
            assert forall|j: int| 0 <= j < t.len() && (#[trigger] t[j]).instance == inst implies j == i by {
                if j != i {
                    assert(t[i].instance != t[j].instance);
                }
            }
        }
    }
}

} // verus!
