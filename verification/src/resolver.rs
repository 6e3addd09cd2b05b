//! The dependency resolver: expands a requested package into the run of
//! snapshots to add to a profile, following declared dependencies
//! transitively. Packages the profile already holds are never re-added,
//! every package enters the result at most once (which makes dependency
//! cycles safe), and a dependency the registry does not define is skipped
//! without failing the operation.

use vstd::prelude::*;

use crate::profile::{package_names, ProfilePackage};
use crate::registry::{clone_string_vec, get_package_details, is_snapshot_of, Registry};
use crate::text;
use crate::text::str_views;

verus! {

/// A dependency path: a non-empty chain of package names in which each
/// link is a declared dependency of the one before it, every name on the
/// chain is defined in the registry, and none is already in the profile.
pub open spec fn is_dep_path(reg: Registry, existing: Seq<Seq<char>>, path: Seq<Seq<char>>) -> bool {
    &&& path.len() > 0
    &&& (forall|i: int|
        0 <= i < path.len() ==> reg.spec_has(#[trigger] path[i]) && !existing.contains(path[i]))
    &&& (forall|i: int|
        0 <= i < path.len() - 1 ==> str_views(
            reg.spec_entry(#[trigger] path[i]).dependencies@,
        ).contains(path[i + 1]))
}

/// `name` lies in the dependency closure of `root`: some dependency path
/// leads from `root` to it, avoiding packages already in the profile.
pub open spec fn reachable(
    reg: Registry,
    existing: Seq<Seq<char>>,
    root: Seq<char>,
    name: Seq<char>,
) -> bool {
    exists|path: Seq<Seq<char>>|
        #[trigger] is_dep_path(reg, existing, path) && path.first() == root && path.last() == name
}

/// The snapshots gathered so far are faithful copies of registry entries,
/// pairwise distinct by name, none already in the profile, and each
/// reachable from the requested package.
pub open spec fn gathered_ok(
    reg: Registry,
    existing: Seq<Seq<char>>,
    requested: Seq<char>,
    additions: Seq<ProfilePackage>,
) -> bool {
    &&& (forall|i: int|
        0 <= i < additions.len() ==> {
            let n = (#[trigger] additions[i]).name@;
            &&& reg.spec_has(n)
            &&& is_snapshot_of(additions[i], reg.spec_entry(n))
            &&& !existing.contains(n)
        })
    &&& package_names(additions).no_duplicates()
    &&& (forall|i: int|
        0 <= i < additions.len() ==> reachable(
            reg,
            existing,
            requested,
            (#[trigger] additions[i]).name@,
        ))
}

/// Everything the resolver promises of its result: the gathered snapshots
/// are faithful, new, distinct and reachable; an added package's
/// registry-defined dependencies are satisfied by the result or by the
/// profile; and the requested package itself is added whenever the
/// registry defines it and the profile lacks it.
pub open spec fn resolve_post(
    reg: Registry,
    existing: Seq<Seq<char>>,
    requested: Seq<char>,
    additions: Seq<ProfilePackage>,
) -> bool {
    let names = package_names(additions);
    &&& gathered_ok(reg, existing, requested, additions)
    &&& (forall|i: int, j: int|
        0 <= i < additions.len() && 0 <= j < additions[i].dependencies@.len() ==> {
            let d = (#[trigger] additions[i].dependencies@[j])@;
            reg.spec_has(d) ==> names.contains(d) || existing.contains(d)
        })
    &&& (reg.spec_has(requested) && !existing.contains(requested) ==> names.contains(requested))
}

/// Law: adding a package the profile already holds yields no additions at
/// all, so the caller reports "nothing new" and leaves the profile file
/// untouched.
pub proof fn lemma_already_present_empty(
    reg: Registry,
    existing: Seq<Seq<char>>,
    requested: Seq<char>,
    additions: Seq<ProfilePackage>,
)
    requires
        resolve_post(reg, existing, requested, additions),
        existing.contains(requested),
    ensures
        additions.len() == 0,
{
    if additions.len() > 0 {
        assert(reachable(reg, existing, requested, additions[0].name@));
        let path = choose|path: Seq<Seq<char>>|
            #[trigger] is_dep_path(reg, existing, path) && path.first() == requested && path.last()
                == additions[0].name@;
        assert(!existing.contains(path[0]));
    }
}

/// Law: requesting a package the registry does not define yields no
/// additions at all.
pub proof fn lemma_unknown_request_empty(
    reg: Registry,
    existing: Seq<Seq<char>>,
    requested: Seq<char>,
    additions: Seq<ProfilePackage>,
)
    requires
        resolve_post(reg, existing, requested, additions),
        !reg.spec_has(requested),
    ensures
        additions.len() == 0,
{
    if additions.len() > 0 {
        assert(reachable(reg, existing, requested, additions[0].name@));
        let path = choose|path: Seq<Seq<char>>|
            #[trigger] is_dep_path(reg, existing, path) && path.first() == requested && path.last()
                == additions[0].name@;
        assert(reg.spec_has(path[0]));
    }
}

/// Whether `target` occurs in a list of names.
fn contains_name(names: &Vec<String>, target: &str) -> (r: bool)
    ensures
        r == str_views(names@).contains(target@),
{
    let n = names.len();
    let mut i: usize = 0;
    while i < n
        invariant
            i <= n,
            n == names@.len(),
            forall|k: int| 0 <= k < i ==> str_views(names@)[k] != target@,
        decreases n - i,
    {
        if text::str_eq(names[i].as_str(), target) {
            proof {
                assert(str_views(names@)[i as int] == target@);
            }
            return true;
        }
        i = i + 1;
    }
    proof {
        assert(forall|k: int| 0 <= k < names@.len() ==> str_views(names@)[k] != target@);
    }
    false
}

/// Whether a package of this name is among the snapshots gathered so far.
fn contains_package_name(additions: &Vec<ProfilePackage>, target: &str) -> (r: bool)
    ensures
        r == package_names(additions@).contains(target@),
{
    let n = additions.len();
    let mut i: usize = 0;
    while i < n
        invariant
            i <= n,
            n == additions@.len(),
            forall|k: int| 0 <= k < i ==> package_names(additions@)[k] != target@,
        decreases n - i,
    {
        if text::str_eq(additions[i].name.as_str(), target) {
            proof {
                assert(package_names(additions@)[i as int] == target@);
            }
            return true;
        }
        i = i + 1;
    }
    proof {
        assert(forall|k: int|
            0 <= k < additions@.len() ==> package_names(additions@)[k] != target@);
    }
    false
}

/// A run of distinct names all drawn from a registry's names is no longer
/// than the registry's name list.
proof fn lemma_distinct_names_bound(names: Seq<Seq<char>>, reg_names: Seq<Seq<char>>)
    requires
        names.no_duplicates(),
        forall|i: int| 0 <= i < names.len() ==> reg_names.contains(#[trigger] names[i]),
    ensures
        names.len() <= reg_names.len(),
{
    broadcast use vstd::seq_lib::seq_to_set_is_finite;
    broadcast use vstd::set::group_set_axioms;

    names.unique_seq_to_set();
    reg_names.lemma_cardinality_of_set();
    assert forall|x: Seq<char>| names.to_set().contains(x) implies reg_names.to_set().contains(
        x,
    ) by {
        let i = choose|i: int| 0 <= i < names.len() && names[i] == x;
        assert(reg_names.contains(names[i]));
    }
    vstd::set_lib::lemma_len_subset(names.to_set(), reg_names.to_set());
}

/// A name popped off the worklist is reachable from the request, provided
/// it is registry-defined, not already in the profile, and either the
/// request itself or a declared dependency of an already gathered
/// (hence reachable) snapshot.
proof fn lemma_reachable_step(
    reg: Registry,
    existing: Seq<Seq<char>>,
    requested: Seq<char>,
    additions: Seq<ProfilePackage>,
    current: Seq<char>,
)
    requires
        gathered_ok(reg, existing, requested, additions),
        reg.spec_has(current),
        !existing.contains(current),
        current == requested || exists|i: int|
            0 <= i < additions.len() && str_views(
                (#[trigger] additions[i]).dependencies@,
            ).contains(current),
    ensures
        reachable(reg, existing, requested, current),
{
    if current == requested {
        let path = seq![current];
        assert(is_dep_path(reg, existing, path));
        assert(path.first() == requested && path.last() == current);
    } else {
        let i = choose|i: int|
            0 <= i < additions.len() && str_views((#[trigger] additions[i]).dependencies@).contains(
                current,
            );
        let parent = additions[i].name@;
        assert(reachable(reg, existing, requested, parent));
        let p0 = choose|path: Seq<Seq<char>>|
            #[trigger] is_dep_path(reg, existing, path) && path.first() == requested && path.last()
                == parent;
        let path = p0.push(current);
        assert(additions[i].dependencies@ == reg.spec_entry(parent).dependencies@);
        assert forall|m: int| 0 <= m < path.len() implies reg.spec_has(#[trigger] path[m])
            && !existing.contains(path[m]) by {
            if m < path.len() - 1 {
                assert(path[m] == p0[m]);
            }
        }
        assert forall|m: int| 0 <= m < path.len() - 1 implies str_views(
            reg.spec_entry(#[trigger] path[m]).dependencies@,
        ).contains(path[m + 1]) by {
            if m < path.len() - 2 {
                assert(path[m] == p0[m] && path[m + 1] == p0[m + 1]);
            } else {
                assert(path[m] == p0.last() && path[m + 1] == current);
            }
        }
        assert(is_dep_path(reg, existing, path));
        assert(path.first() == requested && path.last() == current);
    }
}

/// Removing the last pending name keeps all the earlier ones and their views.
proof fn lemma_queue_pop(before: Seq<String>, after: Seq<String>)
    requires
        before.len() > 0,
        after == before.drop_last(),
    ensures
        str_views(after) == str_views(before).drop_last(),
        forall|d: Seq<char>|
            str_views(before).contains(d) ==> d == str_views(before).last() || str_views(
                after,
            ).contains(d),
{
    assert(str_views(after) =~= str_views(before).drop_last());
    assert forall|d: Seq<char>| str_views(before).contains(d) implies d == str_views(before).last()
        || str_views(after).contains(d) by {
        let k = choose|k: int| 0 <= k < str_views(before).len() && str_views(before)[k] == d;
        if k < str_views(before).len() - 1 {
            assert(str_views(after)[k] == d);
        }
    }
}

/// Appends a gathered snapshot and queues its declared dependencies.
fn absorb_snapshot(
    additions: &mut Vec<ProfilePackage>,
    queue: &mut Vec<String>,
    snap: ProfilePackage,
)
    requires
        !package_names(old(additions)@).contains(snap.name@),
        package_names(old(additions)@).no_duplicates(),
    ensures
        final(additions)@ == old(additions)@.push(snap),
        package_names(final(additions)@) == package_names(old(additions)@).push(snap.name@),
        package_names(final(additions)@).no_duplicates(),
        final(queue)@.len() == old(queue)@.len() + snap.dependencies@.len(),
        forall|k: int| 0 <= k < old(queue)@.len() ==> #[trigger] final(queue)@[k] == old(queue)@[k],
        forall|d: Seq<char>|
            str_views(old(queue)@).contains(d) ==> str_views(final(queue)@).contains(d),
        forall|j: int|
            0 <= j < snap.dependencies@.len() ==> str_views(final(queue)@).contains(
                (#[trigger] snap.dependencies@[j])@,
            ),
        forall|k: int|
            old(queue)@.len() <= k < final(queue)@.len() ==> str_views(
                snap.dependencies@,
            ).contains((#[trigger] final(queue)@[k])@),
{
    let ghost old_names = package_names(additions@);
    let ghost queue_before = queue@;
    let deps = clone_string_vec(&snap.dependencies);
    let ghost snap_g = snap;
    additions.push(snap);
    proof {
        assert(package_names(additions@) =~= old_names.push(snap_g.name@));
        let names = package_names(additions@);
        assert forall|i: int, j: int| 0 <= i < j < names.len() implies names[i] != names[j] by {
            if j < names.len() - 1 {
                assert(old_names[i] != old_names[j]);
            } else {
                if names[i] == snap_g.name@ {
                    assert(old_names.contains(old_names[i]));
                }
            }
        }
    }
    let mut di: usize = 0;
    while di < deps.len()
        invariant
            di <= deps.len(),
            deps@ == snap_g.dependencies@,
            queue@.len() == queue_before.len() + di,
            forall|k: int| 0 <= k < queue_before.len() ==> #[trigger] queue@[k] == queue_before[k],
            forall|k: int|
                queue_before.len() <= k < queue@.len() ==> (#[trigger] queue@[k])@ == deps@[k
                    - queue_before.len()]@,
        decreases deps@.len() - di,
    {
        queue.push(deps[di].clone());
        di = di + 1;
    }
    proof {
        assert forall|d: Seq<char>| str_views(queue_before).contains(d) implies str_views(
            queue@,
        ).contains(d) by {
            let k = choose|k: int|
                0 <= k < str_views(queue_before).len() && str_views(queue_before)[k] == d;
            assert(str_views(queue@)[k] == d);
        }
        assert forall|j: int| 0 <= j < snap_g.dependencies@.len() implies str_views(
            queue@,
        ).contains((snap_g.dependencies@[j])@) by {
            assert(str_views(queue@)[queue_before.len() + j] == (snap_g.dependencies@[j])@);
        }
        assert forall|k: int| queue_before.len() <= k < queue@.len() implies str_views(
            snap_g.dependencies@,
        ).contains((#[trigger] queue@[k])@) by {
            assert(str_views(snap_g.dependencies@)[k - queue_before.len()] == (queue@[k])@);
        }
    }
}

/// Computes the packages to add for `requested` against a profile that
/// already holds `existing_names`: the transitive dependency closure,
/// without duplicates, without packages already present, and without
/// names the registry does not define.
#[verifier::rlimit(100)]
pub fn resolve(registry: &Registry, existing_names: &Vec<String>, requested: &str) -> (additions:
    Vec<ProfilePackage>)
    requires
        registry.wf(),
    ensures
        resolve_post(*registry, str_views(existing_names@), requested@, additions@),
{
    let ghost ex: Seq<Seq<char>> = str_views(existing_names@);
    let ghost reg_names: Seq<Seq<char>> = registry.spec_names();

    let mut additions: Vec<ProfilePackage> = Vec::new();
    let mut queue: Vec<String> = Vec::new();
    queue.push(requested.to_owned());

    proof {
        assert(package_names(additions@) =~= Seq::<Seq<char>>::empty());
        assert(str_views(queue@) =~= seq![requested@]);
        assert(str_views(queue@)[0] == requested@);
        assert(str_views(queue@).contains(requested@));
    }

    while queue.len() != 0
        invariant
            registry.wf(),
            ex == str_views(existing_names@),
            reg_names == registry.spec_names(),
            additions@.len() <= registry.packages@.len(),
            gathered_ok(*registry, ex, requested@, additions@),
            // every pending name is the request or a dependency of a snapshot
            forall|k: int|
                0 <= k < queue@.len() ==> (#[trigger] queue@[k])@ == requested@ || exists|i: int|
                    0 <= i < additions@.len() && str_views(
                        (#[trigger] additions@[i]).dependencies@,
                    ).contains(queue@[k]@),
            // a gathered snapshot's dependencies are gathered, already present,
            // undefined, or still pending
            forall|i: int, j: int|
                0 <= i < additions@.len() && 0 <= j < additions@[i].dependencies@.len() ==> {
                    let d = (#[trigger] additions@[i].dependencies@[j])@;
                    registry.spec_has(d) ==> package_names(additions@).contains(d) || ex.contains(d)
                        || str_views(queue@).contains(d)
                },
            // the request is gathered, already present, undefined, or pending
            package_names(additions@).contains(requested@) || ex.contains(requested@)
                || !registry.spec_has(requested@) || str_views(queue@).contains(requested@),
        decreases registry.packages@.len() - additions@.len(), queue@.len(),
    {
        let ghost old_queue = queue@;
        let ghost old_additions = additions@;
        let current: String = queue.pop().unwrap();
        proof {
            lemma_queue_pop(old_queue, queue@);
            assert(current@ == str_views(old_queue).last());
            assert(str_views(old_queue)[old_queue.len() - 1] == current@);
        }

        let in_existing = contains_name(existing_names, current.as_str());
        let in_processed = contains_package_name(&additions, current.as_str());
        if !in_existing && !in_processed {
            match get_package_details(registry, current.as_str()) {
                Ok(snap) => {
                    proof {
                        lemma_reachable_step(*registry, ex, requested@, additions@, current@);
                        assert(snap.name@ == current@);
                    }
                    let ghost snap_g = snap;
                    let ghost mid_queue = queue@;
                    absorb_snapshot(&mut additions, &mut queue, snap);
                    proof {
                        lemma_distinct_names_bound(package_names(additions@), reg_names);
                        assert(additions@[additions@.len() - 1] == snap_g);
                        assert(forall|i: int|
                            0 <= i < old_additions.len() ==> additions@[i] == old_additions[i]);
                        let names = package_names(additions@);
                        let old_names = package_names(old_additions);
                        assert(names.contains(current@)) by {
                            assert(names[additions@.len() - 1] == current@);
                        }
                        assert forall|d: Seq<char>| old_names.contains(d) implies names.contains(
                            d,
                        ) by {
                            let k = choose|k: int|
                                0 <= k < old_names.len() && old_names[k] == d;
                            assert(names[k] == d);
                        }
                        // a dependency that was pending before the pop is
                        // gathered now or still pending
                        assert forall|d: Seq<char>|
                            str_views(old_queue).contains(d) implies names.contains(d)
                            || str_views(queue@).contains(d) by {
                            if d == current@ {
                            } else {
                                assert(str_views(mid_queue).contains(d));
                            }
                        }
                    }
                },
                Err(_) => {
                    // the name is not in the registry: a missing dependency is
                    // skipped, it does not abort the operation
                    proof {
                        assert(!registry.spec_has(current@));
                        assert forall|d: Seq<char>|
                            str_views(old_queue).contains(d) && registry.spec_has(
                                d,
                            ) implies str_views(queue@).contains(d) by {
                            assert(d != current@);
                        }
                    }
                },
            }
        } else {
            proof {
                // the popped name is already accounted for: in the profile or
                // among the gathered snapshots
                assert forall|d: Seq<char>|
                    str_views(old_queue).contains(d) implies package_names(additions@).contains(d)
                    || ex.contains(d) || str_views(queue@).contains(d) by {
                    if d == current@ {
                    }
                }
            }
        }
    }
    proof {
        assert(str_views(queue@).len() == 0);
    }
    additions
}

} // verus!
