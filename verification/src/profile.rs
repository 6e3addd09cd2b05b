//! Profiles: named, persisted sets of package snapshots.
//!
//! A profile holds at most one package per name, and is persisted with its
//! packages sorted by name, so the on-disk order is a function of the
//! membership alone, not of insertion history.

use vstd::multiset::Multiset;
use vstd::prelude::*;
use vstd::string::StringExecFns;

use crate::error::Error;
use crate::text;

verus! {

/// A denormalized snapshot of a registry entry, captured when the package
/// was added to a profile. Later registry changes do not affect it.
pub struct ProfilePackage {
    pub name: String,
    pub display: Option<String>,
    pub installers: Vec<(String, String)>,
    pub detect: Option<String>,
    pub dependencies: Vec<String>,
}

impl ProfilePackage {
    /// The label a listing shows for this package: its display name when
    /// it has one, else the package name itself.
    pub fn display_name(&self) -> (r: String)
        ensures
            r@ == match self.display {
                Some(d) => d@,
                None => self.name@,
            },
    {
        match &self.display {
            Some(d) => d.clone(),
            None => self.name.clone(),
        }
    }
}

/// A named set of package snapshots.
pub struct Profile {
    pub name: String,
    pub packages: Vec<ProfilePackage>,
}

/// The names of a run of packages, in order.
pub open spec fn package_names(packages: Seq<ProfilePackage>) -> Seq<Seq<char>> {
    packages.map(|i: int, p: ProfilePackage| p.name@)
}

/// Lexicographically non-decreasing.
pub open spec fn names_sorted(names: Seq<Seq<char>>) -> bool {
    forall|i: int, j: int| 0 <= i < j < names.len() ==> text::str_le(names[i], names[j])
}

impl Profile {
    /// The names of this profile's packages, in order.
    pub open spec fn spec_names(self) -> Seq<Seq<char>> {
        package_names(self.packages@)
    }

    /// The profile invariant: no two packages share a name.
    pub open spec fn wf(self) -> bool {
        self.spec_names().no_duplicates()
    }

    /// The persisted shape: packages in lexicographic order of name.
    pub open spec fn sorted(self) -> bool {
        names_sorted(self.spec_names())
    }
}

/// Decides profile creation: refused when a profile of this name already
/// exists, otherwise the new profile is empty.
pub fn create_profile(profile_name: &str, exists: bool) -> (r: Result<Profile, Error>)
    ensures
        exists ==> (r matches Err(e) && e matches Error::ProfileAlreadyExists { name } && name@
            == profile_name@),
        !exists ==> (r matches Ok(p) && p.name@ == profile_name@ && p.packages@.len() == 0
            && p.wf() && p.sorted()),
{
    if exists {
        Err(Error::ProfileAlreadyExists { name: profile_name.to_owned() })
    } else {
        let p = Profile { name: profile_name.to_owned(), packages: Vec::new() };
        proof {
            assert(p.spec_names() =~= Seq::<Seq<char>>::empty());
        }
        Ok(p)
    }
}

/// Decides profile deletion. The configured default profile is protected:
/// deleting it always fails, whatever it holds; a missing profile cannot be
/// deleted either.
pub fn delete_profile(profile_name: &str, default_profile: &str, exists: bool) -> (r: Result<
    (),
    Error,
>)
    ensures
        profile_name@ == default_profile@ ==> (r matches Err(e) && e
            matches Error::ProtectedDefault { name } && name@ == default_profile@),
        profile_name@ != default_profile@ && !exists ==> (r matches Err(e) && e
            matches Error::ProfileNotFound { name } && name@ == profile_name@),
        profile_name@ != default_profile@ && exists ==> r is Ok,
{
    if text::str_eq(profile_name, default_profile) {
        Err(Error::ProtectedDefault { name: default_profile.to_owned() })
    } else if !exists {
        Err(Error::ProfileNotFound { name: profile_name.to_owned() })
    } else {
        Ok(())
    }
}

/// Finds an index of a name-minimal package among `packages`.
fn min_name_index(packages: &Vec<ProfilePackage>) -> (mi: usize)
    requires
        packages@.len() > 0,
    ensures
        mi < packages@.len(),
        forall|k: int|
            0 <= k < packages@.len() ==> text::str_le(
                packages@[mi as int].name@,
                (#[trigger] packages@[k]).name@,
            ),
{
    let n = packages.len();
    let mut mi: usize = 0;
    let mut j: usize = 1;
    proof {
        text::lemma_str_le_reflexive(packages@[0].name@);
    }
    while j < n
        invariant
            n == packages@.len(),
            mi < j <= n,
            forall|k: int|
                0 <= k < j ==> text::str_le(
                    packages@[mi as int].name@,
                    (#[trigger] packages@[k]).name@,
                ),
        decreases n - j,
    {
        if text::str_le_exec(packages[j].name.as_str(), packages[mi].name.as_str()) {
            proof {
                assert forall|k: int| 0 <= k < j + 1 implies text::str_le(
                    packages@[j as int].name@,
                    (#[trigger] packages@[k]).name@,
                ) by {
                    if k < j {
                        text::lemma_str_le_transitive(
                            packages@[j as int].name@,
                            packages@[mi as int].name@,
                            packages@[k].name@,
                        );
                    } else {
                        text::lemma_str_le_reflexive(packages@[j as int].name@);
                    }
                }
            }
            mi = j;
        } else {
            proof {
                text::lemma_str_le_total(packages@[j as int].name@, packages@[mi as int].name@);
            }
        }
        j = j + 1;
    }
    mi
}

/// Sorts the packages lexicographically by name, keeping exactly the same
/// packages: selection of a name-minimal remainder each round.
pub fn sort_packages_by_name(packages: &mut Vec<ProfilePackage>)
    ensures
        final(packages)@.to_multiset() == old(packages)@.to_multiset(),
        names_sorted(package_names(final(packages)@)),
{
    broadcast use vstd::seq_lib::group_to_multiset_ensures;
    broadcast use vstd::multiset::group_multiset_axioms;

    let ghost all = packages@.to_multiset();
    let mut out: Vec<ProfilePackage> = Vec::new();
    while packages.len() > 0
        invariant
            out@.to_multiset().add(packages@.to_multiset()) =~= all,
            names_sorted(package_names(out@)),
            forall|a: int, b: int|
                0 <= a < out@.len() && 0 <= b < packages@.len() ==> text::str_le(
                    (#[trigger] out@[a]).name@,
                    (#[trigger] packages@[b]).name@,
                ),
        decreases packages@.len(),
    {
        let mi = min_name_index(packages);
        let ghost before = packages@;
        let ghost out_before = out@;
        let m = packages.remove(mi);
        out.push(m);
        proof {
            before.to_multiset_ensures();
            out_before.to_multiset_ensures();
            assert(before.contains(before[mi as int]));
            assert(before.to_multiset().count(before[mi as int]) > 0);
            assert(packages@.to_multiset() =~= before.to_multiset().remove(before[mi as int]));
            assert(out@.to_multiset() =~= out_before.to_multiset().insert(before[mi as int]));
            assert(out@.to_multiset().add(packages@.to_multiset()) =~= all);
            // the new last element is name-minimal, so order and sortedness hold
            assert forall|a: int, b: int|
                0 <= a < out@.len() && 0 <= b < packages@.len() implies text::str_le(
                (#[trigger] out@[a]).name@,
                (#[trigger] packages@[b]).name@,
            ) by {
                if a == out@.len() - 1 {
                    if b < mi {
                        assert(packages@[b] == before[b]);
                    } else {
                        assert(packages@[b] == before[b + 1]);
                    }
                }
            }
            let names = package_names(out@);
            assert forall|a: int, b: int| 0 <= a < b < names.len() implies text::str_le(
                names[a],
                names[b],
            ) by {
                assert(out@[a] == out_before[a]);
                if b == names.len() - 1 {
                    assert(out@[b] == m);
                    assert(before[mi as int] == m);
                    assert(text::str_le(out_before[a].name@, before[mi as int].name@));
                } else {
                    assert(out@[b] == out_before[b]);
                    assert(package_names(out_before)[a] == out_before[a].name@);
                    assert(package_names(out_before)[b] == out_before[b].name@);
                    assert(text::str_le(
                        package_names(out_before)[a],
                        package_names(out_before)[b],
                    ));
                }
            }
        }
    }
    proof {
        assert(packages@.to_multiset() =~= Multiset::<ProfilePackage>::empty());
        assert(out@.to_multiset() =~= all);
    }
    *packages = out;
}

/// Names stay duplicate-free under any reordering: a run of packages with
/// pairwise distinct names keeps that property in every permutation.
pub proof fn lemma_names_nodup_permutation(a: Seq<ProfilePackage>, b: Seq<ProfilePackage>)
    requires
        package_names(a).no_duplicates(),
        a.to_multiset() == b.to_multiset(),
    ensures
        package_names(b).no_duplicates(),
{
    broadcast use vstd::multiset::group_multiset_axioms;

    a.to_multiset_ensures();
    b.to_multiset_ensures();
    assert(a.no_duplicates()) by {
        assert forall|i: int, j: int|
            0 <= i < a.len() && 0 <= j < a.len() && i != j implies a[i] != a[j] by {
            assert(package_names(a)[i] != package_names(a)[j]);
        }
    }
    a.lemma_multiset_has_no_duplicates();
    assert forall|i: int, j: int|
        0 <= i < b.len() && 0 <= j < b.len() && i != j implies package_names(b)[i]
        != package_names(b)[j] by {
        let lo = if i < j {
            i
        } else {
            j
        };
        let hi = if i < j {
            j
        } else {
            i
        };
        if package_names(b)[lo] == package_names(b)[hi] {
            if b[lo] == b[hi] {
                let s0 = b.subrange(0, hi);
                let s1 = b.subrange(hi, b.len() as int);
                assert(b =~= s0 + s1);
                vstd::seq_lib::lemma_multiset_commutative(s0, s1);
                s0.to_multiset_ensures();
                s1.to_multiset_ensures();
                assert(s0[lo] == b[lo]);
                assert(s0.contains(b[lo]));
                assert(s1[0] == b[hi]);
                assert(s1.contains(b[lo]));
                assert(b.to_multiset().count(b[lo]) >= 2);
                assert(a.to_multiset().contains(b[lo]));
                assert(false);
            } else {
                assert(b.contains(b[lo]) && b.contains(b[hi]));
                assert(a.to_multiset().count(b[lo]) > 0 && a.to_multiset().count(b[hi]) > 0);
                assert(a.contains(b[lo]) && a.contains(b[hi]));
                let k = choose|k: int| 0 <= k < a.len() && a[k] == b[lo];
                let l = choose|l: int| 0 <= l < a.len() && a[l] == b[hi];
                assert(k != l);
                assert(package_names(a)[k] == package_names(a)[l]);
                assert(false);
            }
        }
    }
}

/// Law: the persisted order is a pure function of membership. Two
/// name-sorted runs with duplicate-free names holding the same packages
/// are identical, whatever order the packages arrived in.
pub proof fn lemma_sorted_unique_by_name(a: Seq<ProfilePackage>, b: Seq<ProfilePackage>)
    requires
        names_sorted(package_names(a)),
        names_sorted(package_names(b)),
        package_names(a).no_duplicates(),
        a.to_multiset() == b.to_multiset(),
    ensures
        a == b,
    decreases a.len(),
{
    broadcast use vstd::multiset::group_multiset_axioms;

    a.to_multiset_ensures();
    b.to_multiset_ensures();
    if a.len() == 0 {
        assert(b.len() == 0);
        assert(a =~= b);
    } else {
        assert(b.len() == a.len());
        assert(b.contains(b[0]));
        assert(b.to_multiset().count(b[0]) > 0);
        assert(a.contains(b[0]));
        let i = choose|i: int| 0 <= i < a.len() && a[i] == b[0];
        assert(a.contains(a[0]));
        assert(b.to_multiset().count(a[0]) > 0);
        assert(b.contains(a[0]));
        let j = choose|j: int| 0 <= j < b.len() && b[j] == a[0];
        let a0n = a[0].name@;
        let b0n = b[0].name@;
        assert(text::str_le(a0n, b0n)) by {
            if i > 0 {
                assert(package_names(a)[0] == a0n && package_names(a)[i] == b0n);
            } else {
                text::lemma_str_le_reflexive(a0n);
            }
        }
        assert(text::str_le(b0n, a0n)) by {
            if j > 0 {
                assert(package_names(b)[0] == b0n && package_names(b)[j] == a0n);
            } else {
                text::lemma_str_le_reflexive(b0n);
            }
        }
        text::lemma_str_le_antisymmetric(a0n, b0n);
        assert(a[0] == b[0]) by {
            assert(package_names(a)[i] == b0n && package_names(a)[0] == a0n);
            assert(i == 0);
        }
        let a1 = a.drop_first();
        let b1 = b.drop_first();
        assert(a.remove(0) =~= a1);
        assert(b.remove(0) =~= b1);
        assert(a1.to_multiset() == a.to_multiset().remove(a[0]));
        assert(b1.to_multiset() == b.to_multiset().remove(b[0]));
        assert(package_names(a1) =~= package_names(a).drop_first());
        assert(package_names(b1) =~= package_names(b).drop_first());
        assert(names_sorted(package_names(a1))) by {
            assert forall|p: int, q: int|
                0 <= p < q < package_names(a1).len() implies text::str_le(
                package_names(a1)[p],
                package_names(a1)[q],
            ) by {
                assert(package_names(a)[p + 1] == package_names(a1)[p]);
                assert(package_names(a)[q + 1] == package_names(a1)[q]);
            }
        }
        assert(names_sorted(package_names(b1))) by {
            assert forall|p: int, q: int|
                0 <= p < q < package_names(b1).len() implies text::str_le(
                package_names(b1)[p],
                package_names(b1)[q],
            ) by {
                assert(package_names(b)[p + 1] == package_names(b1)[p]);
                assert(package_names(b)[q + 1] == package_names(b1)[q]);
            }
        }
        assert(package_names(a1).no_duplicates()) by {
            assert forall|p: int, q: int|
                0 <= p < package_names(a1).len() && 0 <= q < package_names(a1).len() && p
                    != q implies package_names(a1)[p] != package_names(a1)[q] by {
                assert(package_names(a)[p + 1] == package_names(a1)[p]);
                assert(package_names(a)[q + 1] == package_names(a1)[q]);
            }
        }
        lemma_sorted_unique_by_name(a1, b1);
        assert forall|p: int| 0 <= p < a.len() implies a[p] == b[p] by {
            if p >= 1 {
                assert(a1[p - 1] == b1[p - 1]);
            }
        }
        assert(a =~= b);
    }
}

/// The names of the given packages, as owned strings.
fn package_names_vec(packages: &Vec<ProfilePackage>) -> (names: Vec<String>)
    ensures
        text::str_views(names@) == package_names(packages@),
{
    let mut names: Vec<String> = Vec::new();
    let n = packages.len();
    let mut i: usize = 0;
    while i < n
        invariant
            i <= n,
            n == packages@.len(),
            names@.len() == i,
            forall|k: int| 0 <= k < i ==> (#[trigger] names@[k])@ == packages@[k].name@,
        decreases n - i,
    {
        names.push(packages[i].name.clone());
        i = i + 1;
    }
    proof {
        assert(text::str_views(names@) =~= package_names(packages@));
    }
    names
}

/// What a successful add leaves behind: some resolver result `adds` for
/// the requested package against the old membership explains the report
/// (its names, in the order they were gathered) and the new membership
/// (the old packages plus exactly the gathered snapshots).
pub open spec fn add_outcome(
    old_profile: Profile,
    new_profile: Profile,
    reg: crate::registry::Registry,
    requested: Seq<char>,
    report: Seq<String>,
) -> bool {
    exists|adds: Seq<ProfilePackage>|
        {
            &&& #[trigger] crate::resolver::resolve_post(
                reg,
                package_names(old_profile.packages@),
                requested,
                adds,
            )
            &&& text::str_views(report) == package_names(adds)
            &&& new_profile.packages@.to_multiset() == old_profile.packages@.to_multiset().add(
                adds.to_multiset(),
            )
        }
}

/// Adds a package and its transitive dependencies to a profile: resolves
/// the closure against the registry, appends the new snapshots, and
/// re-sorts the whole list by name. Returns the names of the packages
/// newly added, in the order they were gathered; an empty report means
/// nothing was missing and the profile is left exactly as it was.
pub fn add_package_to_profile(
    profile: &mut Profile,
    registry: &crate::registry::Registry,
    package_name: &str,
) -> (report: Vec<String>)
    requires
        old(profile).wf(),
        registry.wf(),
    ensures
        final(profile).name@ == old(profile).name@,
        final(profile).wf(),
        report@.len() == 0 ==> *final(profile) == *old(profile),
        report@.len() > 0 ==> final(profile).sorted(),
        add_outcome(*old(profile), *final(profile), *registry, package_name@, report@),
{
    broadcast use vstd::seq_lib::group_to_multiset_ensures;
    broadcast use vstd::multiset::group_multiset_axioms;

    let ghost old_packages = profile.packages@;
    let existing = package_names_vec(&profile.packages);
    let mut additions = crate::resolver::resolve(registry, &existing, package_name);
    let ghost adds = additions@;

    let mut report: Vec<String> = Vec::new();
    if additions.len() == 0 {
        proof {
            assert(text::str_views(report@) =~= package_names(adds));
            assert(adds.to_multiset() =~= Multiset::<ProfilePackage>::empty());
            assert(profile.packages@.to_multiset() =~= old_packages.to_multiset().add(
                adds.to_multiset(),
            ));
        }
        return report;
    }

    while additions.len() > 0
        invariant
            adds.len() > 0,
            additions@ =~= adds.skip(report@.len() as int),
            report@.len() <= adds.len(),
            profile.packages@ =~= old_packages + adds.subrange(0, report@.len() as int),
            profile.name@ == old(profile).name@,
            forall|k: int| 0 <= k < report@.len() ==> (#[trigger] report@[k])@ == adds[k].name@,
        decreases additions@.len(),
    {
        let ghost taken = report@.len() as int;
        let p = additions.remove(0);
        proof {
            assert(adds.skip(taken)[0] == adds[taken]);
            assert(adds.skip(taken).remove(0) =~= adds.skip(taken + 1));
        }
        report.push(p.name.clone());
        profile.packages.push(p);
        proof {
            assert(profile.packages@ =~= old_packages + adds.subrange(0, taken + 1));
        }
    }

    proof {
        assert(profile.packages@ =~= old_packages + adds);
        assert(text::str_views(report@) =~= package_names(adds));
        vstd::seq_lib::lemma_multiset_commutative(old_packages, adds);
        // appending the resolver's snapshots keeps names duplicate-free:
        // the old ones were, the new ones are, and the two sets are disjoint
        let combined_names = package_names(old_packages + adds);
        assert(combined_names =~= package_names(old_packages) + package_names(adds));
        assert forall|i: int, j: int|
            0 <= i < combined_names.len() && 0 <= j < combined_names.len() && i
                != j implies combined_names[i] != combined_names[j] by {
            let on = package_names(old_packages);
            let an = package_names(adds);
            if i < on.len() && j >= on.len() {
                assert(combined_names[i] == on[i] && combined_names[j] == an[j - on.len()]);
                assert(on.contains(on[i]));
            } else if i >= on.len() && j < on.len() {
                assert(combined_names[j] == on[j] && combined_names[i] == an[i - on.len()]);
                assert(on.contains(on[j]));
            }
        }
    }
    let ghost appended = profile.packages@;
    sort_packages_by_name(&mut profile.packages);
    proof {
        lemma_names_nodup_permutation(appended, profile.packages@);
        assert(profile.packages@.to_multiset() == old_packages.to_multiset().add(
            adds.to_multiset(),
        ));
    }
    report
}

/// Path of the file a profile is persisted under, below the profiles
/// directory.
pub fn profile_path(profiles_dir: &str, profile_name: &str) -> (r: String)
    ensures
        r@ == profiles_dir@ + "/"@ + profile_name@ + ".toml"@,
{
    let mut r = profiles_dir.to_owned();
    r.append("/");
    r.append(profile_name);
    r.append(".toml");
    r
}

} // verus!
