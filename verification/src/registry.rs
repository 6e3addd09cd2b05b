//! The package registry: a catalog of package definitions, shipped bundled
//! with the program and cached locally, kept in sync by version comparison.

use vstd::prelude::*;

use crate::error::Error;
use crate::profile::ProfilePackage;
use crate::text;

verus! {

/// One package's canonical definition.
pub struct RegistryEntry {
    pub name: String,
    pub display: Option<String>,
    pub installers: Vec<(String, String)>,
    pub detect: Option<String>,
    pub dependencies: Vec<String>,
}

/// A registry: an opaque version string (compared for equality only) and
/// the package definitions, at most one per name.
pub struct Registry {
    pub version: String,
    pub packages: Vec<RegistryEntry>,
}

impl Registry {
    /// The names of the entries, in order.
    pub open spec fn spec_names(self) -> Seq<Seq<char>> {
        self.packages@.map(|i: int, e: RegistryEntry| e.name@)
    }

    /// An entry of this name is present.
    pub open spec fn spec_has(self, name: Seq<char>) -> bool {
        self.spec_names().contains(name)
    }

    /// The index of the entry of this name.
    pub open spec fn spec_index_of(self, name: Seq<char>) -> int {
        choose|i: int| 0 <= i < self.packages@.len() && self.spec_names()[i] == name
    }

    /// The entry of this name.
    pub open spec fn spec_entry(self, name: Seq<char>) -> RegistryEntry {
        self.packages@[self.spec_index_of(name)]
    }

    /// The registry invariant: entry names are unique keys.
    pub open spec fn wf(self) -> bool {
        self.spec_names().no_duplicates()
    }
}

/// A profile package is exactly the snapshot of a registry entry.
pub open spec fn is_snapshot_of(p: ProfilePackage, e: RegistryEntry) -> bool {
    &&& p.name@ == e.name@
    &&& p.display == e.display
    &&& p.installers@ == e.installers@
    &&& p.detect == e.detect
    &&& p.dependencies@ == e.dependencies@
}

pub(crate) fn clone_opt_string(o: &Option<String>) -> (r: Option<String>)
    ensures
        r == *o,
{
    match o {
        Some(s) => Some(s.clone()),
        None => None,
    }
}

pub(crate) fn clone_string_vec(v: &Vec<String>) -> (r: Vec<String>)
    ensures
        r@ == v@,
{
    let mut r: Vec<String> = Vec::new();
    let mut i: usize = 0;
    while i < v.len()
        invariant
            i <= v.len(),
            r@ =~= v@.subrange(0, i as int),
        decreases v.len() - i,
    {
        r.push(v[i].clone());
        i = i + 1;
    }
    proof {
        assert(r@ =~= v@);
    }
    r
}

fn clone_pair_vec(v: &Vec<(String, String)>) -> (r: Vec<(String, String)>)
    ensures
        r@ == v@,
{
    let mut r: Vec<(String, String)> = Vec::new();
    let mut i: usize = 0;
    while i < v.len()
        invariant
            i <= v.len(),
            r@ =~= v@.subrange(0, i as int),
        decreases v.len() - i,
    {
        let pair = (v[i].0.clone(), v[i].1.clone());
        r.push(pair);
        i = i + 1;
    }
    proof {
        assert(r@ =~= v@);
    }
    r
}

/// The entry of the given name, if any.
fn find_entry<'a>(registry: &'a Registry, package_name: &str) -> (r: Option<&'a RegistryEntry>)
    requires
        registry.wf(),
    ensures
        match r {
            Some(e) => registry.spec_has(package_name@) && *e == registry.spec_entry(
                package_name@,
            ),
            None => !registry.spec_has(package_name@),
        },
{
    let n = registry.packages.len();
    let mut i: usize = 0;
    while i < n
        invariant
            i <= n,
            n == registry.packages@.len(),
            registry.wf(),
            forall|k: int| 0 <= k < i ==> registry.spec_names()[k] != package_name@,
        decreases n - i,
    {
        let e = &registry.packages[i];
        if text::str_eq(e.name.as_str(), package_name) {
            proof {
                assert(registry.spec_names()[i as int] == package_name@);
                let j = registry.spec_index_of(package_name@);
                assert(registry.spec_names()[j] == package_name@);
                assert(j == i as int);
            }
            return Some(e);
        }
        i = i + 1;
    }
    proof {
        assert forall|k: int| 0 <= k < registry.spec_names().len() implies registry.spec_names()[k]
            != package_name@ by {}
    }
    None
}

/// Whether a package of this name is defined in the registry.
pub fn is_package_in_registry(registry: &Registry, package_name: &str) -> (r: bool)
    requires
        registry.wf(),
    ensures
        r == registry.spec_has(package_name@),
{
    find_entry(registry, package_name).is_some()
}

/// Looks a package up and snapshots its definition for insertion into a
/// profile. Fails exactly when the name is not in the registry.
pub fn get_package_details(registry: &Registry, package_name: &str) -> (r: Result<
    ProfilePackage,
    Error,
>)
    requires
        registry.wf(),
    ensures
        r is Ok <==> registry.spec_has(package_name@),
        r matches Ok(p) ==> is_snapshot_of(p, registry.spec_entry(package_name@)),
        r matches Err(e) ==> e matches Error::PackageNotFound { name } && name@ == package_name@,
{
    match find_entry(registry, package_name) {
        Some(e) => Ok(
            ProfilePackage {
                name: e.name.clone(),
                display: clone_opt_string(&e.display),
                installers: clone_pair_vec(&e.installers),
                detect: clone_opt_string(&e.detect),
                dependencies: clone_string_vec(&e.dependencies),
            },
        ),
        None => Err(Error::PackageNotFound { name: package_name.to_owned() }),
    }
}

/// The declared direct dependencies of a package. Fails exactly when the
/// name is not in the registry; an entry without dependencies yields the
/// empty list.
pub fn get_dependencies(registry: &Registry, package_name: &str) -> (r: Result<Vec<String>, Error>)
    requires
        registry.wf(),
    ensures
        r is Ok <==> registry.spec_has(package_name@),
        r matches Ok(deps) ==> deps@ == registry.spec_entry(package_name@).dependencies@,
        r matches Err(e) ==> e matches Error::PackageNotFound { name } && name@ == package_name@,
{
    match find_entry(registry, package_name) {
        Some(e) => Ok(clone_string_vec(&e.dependencies)),
        None => Err(Error::PackageNotFound { name: package_name.to_owned() }),
    }
}

/// Whether the listing shows an entry: always without a query, otherwise
/// exactly when the lowercased name contains the lowercased query.
pub open spec fn entry_selected(e: RegistryEntry, query: Option<String>) -> bool {
    match query {
        None => true,
        Some(q) => text::has_substring(text::lower_of(e.name@), text::lower_of(q@)),
    }
}

/// The names the listing shows, in registry order.
pub open spec fn selected_names(entries: Seq<RegistryEntry>, query: Option<String>) -> Seq<
    Seq<char>,
>
    decreases entries.len(),
{
    if entries.len() == 0 {
        Seq::empty()
    } else {
        let rest = selected_names(entries.drop_last(), query);
        if entry_selected(entries.last(), query) {
            rest.push(entries.last().name@)
        } else {
            rest
        }
    }
}

/// The names of the packages a listing with this query shows, in registry
/// order: all of them without a query, otherwise those whose name contains
/// the query, case-insensitively.
pub fn list_packages(registry: &Registry, query: &Option<String>) -> (names: Vec<String>)
    ensures
        names@.map(|i: int, s: String| s@) == selected_names(registry.packages@, *query),
{
    let mut names: Vec<String> = Vec::new();
    let n = registry.packages.len();
    let mut i: usize = 0;
    while i < n
        invariant
            i <= n,
            n == registry.packages@.len(),
            names@.map(|k: int, s: String| s@) =~= selected_names(
                registry.packages@.subrange(0, i as int),
                *query,
            ),
        decreases n - i,
    {
        let e = &registry.packages[i];
        let selected = match query {
            None => true,
            Some(q) => text::matches_query(e.name.as_str(), q.as_str()),
        };
        if selected {
            names.push(e.name.clone());
        }
        proof {
            let prefix = registry.packages@.subrange(0, i + 1);
            assert(prefix.drop_last() =~= registry.packages@.subrange(0, i as int));
            assert(prefix.last() == registry.packages@[i as int]);
        }
        i = i + 1;
    }
    proof {
        assert(registry.packages@.subrange(0, n as int) =~= registry.packages@);
    }
    names
}

/// What a TOML document holds as a string at a top-level key: parsing is
/// deterministic, so this is a function of the document text and the key
/// alone. None when the document does not parse, the key is absent, or the
/// value there is not a string.
pub uninterp spec fn toml_str_at(doc: Seq<char>, key: Seq<char>) -> Option<Seq<char>>;

/// View of an optional owned string.
pub open spec fn opt_str_view(o: Option<String>) -> Option<Seq<char>> {
    match o {
        Some(s) => Some(s@),
        None => None,
    }
}

/// View of an optional borrowed string.
pub open spec fn opt_str_ref_view(o: Option<&str>) -> Option<Seq<char>> {
    match o {
        Some(s) => Some(s@),
        None => None,
    }
}

/// Relies on toml::from_str, toml::Value::get and toml::Value::as_str: the
/// string value at a top-level key of a TOML document.
#[verifier::external_body]
fn toml_top_level_str(doc: &str, key: &str) -> (r: Option<String>)
    ensures
        opt_str_view(r) == toml_str_at(doc@, key@),
{
    match toml::from_str::<toml::Value>(doc) {
        Ok(value) => match value.get(key) {
            Some(v) => match v.as_str() {
                Some(s) => Some(s.to_owned()),
                None => None,
            },
            None => None,
        },
        Err(_) => None,
    }
}

/// The version string a registry document declares, if any.
pub fn registry_version(content: &str) -> (r: Option<String>)
    ensures
        opt_str_view(r) == toml_str_at(content@, "version"@),
{
    toml_top_level_str(content, "version")
}

/// A sync keeps the local registry file untouched exactly when it exists
/// and declares the same version as the bundled registry.
pub open spec fn sync_keeps_local(bundled: Seq<char>, local: Option<Seq<char>>) -> bool {
    match local {
        Some(l) => toml_str_at(l, "version"@) == toml_str_at(bundled, "version"@),
        None => false,
    }
}

/// Decides registry synchronization. `bundled` is the bundled registry
/// document; `local` is the local cache's content, or None when that file
/// is missing or unreadable. Returns the content to write over the local
/// cache in full, or None to leave the local file untouched byte for byte.
/// Fails exactly when the bundled registry declares no version, which
/// signals a packaging defect.
pub fn update_registry_version_if_needed(bundled: &str, local: Option<&str>) -> (r: Result<
    Option<String>,
    Error,
>)
    ensures
        r is Ok <==> toml_str_at(bundled@, "version"@) is Some,
        r matches Err(e) ==> e == Error::BundledRegistryMissingVersion,
        r matches Ok(out) ==> match out {
            None => sync_keeps_local(bundled@, opt_str_ref_view(local)),
            Some(c) => !sync_keeps_local(bundled@, opt_str_ref_view(local)) && c@ == bundled@,
        },
{
    let bundled_version = registry_version(bundled);
    match bundled_version {
        None => Err(Error::BundledRegistryMissingVersion),
        Some(bv) => {
            let keep = match local {
                Some(l) => match registry_version(l) {
                    Some(lv) => text::str_eq(lv.as_str(), bv.as_str()),
                    None => false,
                },
                None => false,
            };
            if keep {
                Ok(None)
            } else {
                Ok(Some(bundled.to_owned()))
            }
        },
    }
}

/// Law: synchronization is idempotent. A sync that overwrites leaves the
/// local registry equal to the bundled content; this shows that a second
/// sync against an unchanged bundled registry then keeps the local file
/// untouched.
pub proof fn lemma_sync_idempotent(bundled: Seq<char>)
    ensures
        sync_keeps_local(bundled, Some(bundled)),
{
}

} // verus!
