//! Declared dependencies matched against the packages of a lock document.

use vstd::prelude::*;
use vstd::string::StringExecFns;

use crate::doc::{entries_get, entry_lookup, field_text, lookup, str_text, Doc};

verus! {

/// The texts of a sequence of strings.
pub open spec fn texts(v: Seq<String>) -> Seq<Seq<char>> {
    v.map_values(|s: String| s@)
}

/// The names that a manifest declares: the keys of its `dependencies` table,
/// in the table's order; none where that entry is absent or not a table.
pub open spec fn declared_names(manifest: Doc) -> Seq<Seq<char>> {
    match lookup(manifest, "dependencies"@) {
        Some(Doc::Table(entries)) => entries@.map_values(|e: (String, Doc)| e.0@),
        _ => Seq::empty(),
    }
}

/// The `name` field of a package record, empty where missing or not a string.
pub open spec fn package_name(entries: Seq<(String, Doc)>) -> Seq<char> {
    field_text(entry_lookup(entries, "name"@))
}

/// The `version` field of a package record, empty where missing or not a string.
pub open spec fn package_version(entries: Seq<(String, Doc)>) -> Seq<char> {
    field_text(entry_lookup(entries, "version"@))
}

/// What one element of a lock's package array contributes: `name:version`
/// where it is a table whose name is declared, nothing otherwise.
pub open spec fn package_entry(package: Doc, declared: Seq<Seq<char>>) -> Option<Seq<char>> {
    match package {
        Doc::Table(entries) => {
            let name = package_name(entries@);
            if declared.contains(name) {
                Some(name + ":"@ + package_version(entries@))
            } else {
                None
            }
        },
        _ => None,
    }
}

/// The contributions of a package array, in its order, duplicates kept.
pub open spec fn resolved_packages(packages: Seq<Doc>, declared: Seq<Seq<char>>) -> Seq<Seq<char>>
    decreases packages.len(),
{
    if packages.len() == 0 {
        Seq::empty()
    } else {
        let prev = resolved_packages(packages.drop_last(), declared);
        match package_entry(packages.last(), declared) {
            Some(s) => prev.push(s),
            None => prev,
        }
    }
}

/// The resolved packages of a lock document: those of its `package` array;
/// none where that entry is absent or not an array.
pub open spec fn locked_packages(lock: Doc, declared: Seq<Seq<char>>) -> Seq<Seq<char>> {
    match lookup(lock, "package"@) {
        Some(Doc::Array(packages)) => resolved_packages(packages@, declared),
        _ => Seq::empty(),
    }
}

/// The dependencies of a manifest resolved against a lock document.
pub open spec fn reconcile(manifest: Doc, lock: Doc) -> Seq<Seq<char>> {
    locked_packages(lock, declared_names(manifest))
}

/// The text of an optional field; empty where it is absent or not a string.
pub fn get_string_field<'a>(field: Option<&'a Doc>) -> (r: &'a str)
    ensures
        r@ == match field {
            Some(d) => str_text(*d),
            None => Seq::empty(),
        },
{
    match field {
        Some(Doc::Str(s)) => s.as_str(),
        _ => {
            proof {
                reveal_strlit("");
            }
            ""
        },
    }
}

/// Whether `name` is among `declared`.
fn contains_name(declared: &Vec<String>, name: &String) -> (r: bool)
    ensures
        r == texts(declared@).contains(name@),
{
    let n = declared.len();
    let mut i: usize = 0;
    while i < n
        invariant
            n == declared@.len(),
            i <= n,
            forall|j: int| 0 <= j < i ==> declared@[j]@ != name@,
        decreases n - i,
    {
        if declared[i].eq(name) {
            assert(texts(declared@)[i as int] == name@);
            return true;
        }
        i = i + 1;
    }
    false
}

/// What one element of a package array contributes.
fn resolve_package(package: &Doc, declared: &Vec<String>) -> (r: Option<String>)
    ensures
        match r {
            Some(s) => package_entry(*package, texts(declared@)) == Some(s@),
            None => package_entry(*package, texts(declared@)) is None,
        },
{
    match package {
        Doc::Table(entries) => {
            let name_key = "name".to_owned();
            let version_key = "version".to_owned();
            let name = get_string_field(entries_get(entries, &name_key)).to_owned();
            let version = get_string_field(entries_get(entries, &version_key));
            if contains_name(declared, &name) {
                let mut s = name;
                s.append(":");
                s.append(version);
                Some(s)
            } else {
                None
            }
        },
        _ => None,
    }
}

/// The `name:version` of each table in `packages` whose name is declared, in
/// the order of `packages`.
pub fn get_packages(packages: &Vec<Doc>, dependencies: &Vec<String>) -> (r: Vec<String>)
    ensures
        texts(r@) == resolved_packages(packages@, texts(dependencies@)),
{
    let n = packages.len();
    let mut r: Vec<String> = Vec::new();
    let mut i: usize = 0;
    while i < n
        invariant
            n == packages@.len(),
            i <= n,
            texts(r@) == resolved_packages(packages@.subrange(0, i as int), texts(dependencies@)),
        decreases n - i,
    {
        let ghost prefix = packages@.subrange(0, i + 1);
        assert(prefix.drop_last() =~= packages@.subrange(0, i as int));
        assert(prefix.last() == packages@[i as int]);
        match resolve_package(&packages[i], dependencies) {
            Some(s) => {
                r.push(s);
                assert(texts(r@) =~= resolved_packages(prefix, texts(dependencies@)));
            },
            None => {},
        }
        i = i + 1;
    }
    assert(packages@.subrange(0, n as int) =~= packages@);
    r
}

/// The names that `cargo_toml` declares under `dependencies`, in table order.
pub fn get_toml_dependencies(cargo_toml: &Doc) -> (r: Vec<String>)
    ensures
        texts(r@) == declared_names(*cargo_toml),
{
    let key = "dependencies".to_owned();
    match cargo_toml.get(&key) {
        Some(Doc::Table(entries)) => {
            let n = entries.len();
            let mut r: Vec<String> = Vec::new();
            let mut i: usize = 0;
            while i < n
                invariant
                    n == entries@.len(),
                    i <= n,
                    r@.len() == i,
                    forall|j: int| 0 <= j < i ==> r@[j]@ == entries@[j].0@,
                decreases n - i,
            {
                r.push(entries[i].0.clone());
                i = i + 1;
            }
            assert(texts(r@) =~= entries@.map_values(|e: (String, Doc)| e.0@));
            r
        },
        _ => Vec::new(),
    }
}

/// The resolved `name:version` of each declared dependency that `cargo_lock`
/// lists under `package`.
pub fn get_lock_dependencies(cargo_lock: &Doc, dependencies: &Vec<String>) -> (r: Vec<String>)
    ensures
        texts(r@) == locked_packages(*cargo_lock, texts(dependencies@)),
{
    let key = "package".to_owned();
    match cargo_lock.get(&key) {
        Some(Doc::Array(packages)) => get_packages(packages, dependencies),
        _ => Vec::new(),
    }
}

/// The dependencies that `cargo_toml` declares, each with the version that
/// `cargo_lock` records for it, as `name:version`, in the lock's order.
pub fn get_dependencies(cargo_toml: &Doc, cargo_lock: &Doc) -> (r: Vec<String>)
    ensures
        texts(r@) == reconcile(*cargo_toml, *cargo_lock),
{
    let dependencies = get_toml_dependencies(cargo_toml);
    get_lock_dependencies(cargo_lock, &dependencies)
}

/// A manifest whose `dependencies` entry is absent or not a table declares
/// no names.
pub proof fn lemma_no_dependencies_table(manifest: Doc)
    requires
        !(lookup(manifest, "dependencies"@) matches Some(Doc::Table(_))),
    ensures
        declared_names(manifest) == Seq::<Seq<char>>::empty(),
{
}

/// The manifest `{dependencies: deps}` declares exactly the keys of `deps`.
pub proof fn lemma_declared_names_are_keys(
    manifest: Doc,
    entries: Vec<(String, Doc)>,
    deps: Vec<(String, Doc)>,
)
    requires
        manifest == Doc::Table(entries),
        entries@.len() == 1,
        entries@[0].0@ == "dependencies"@,
        entries@[0].1 == Doc::Table(deps),
    ensures
        forall|k: Seq<char>|
            declared_names(manifest).contains(k) <==> (exists|i: int|
                0 <= i < deps@.len() && #[trigger] deps@[i].0@ == k),
{
    assert(lookup(manifest, "dependencies"@) == Some(Doc::Table(deps)));
    let names = declared_names(manifest);
    assert forall|k: Seq<char>| names.contains(k) <==> (exists|i: int|
        0 <= i < deps@.len() && #[trigger] deps@[i].0@ == k) by {
        if names.contains(k) {
            let j = choose|j: int| 0 <= j < names.len() && names[j] == k;
            assert(deps@[j].0@ == k);
        }
        if exists|i: int| 0 <= i < deps@.len() && #[trigger] deps@[i].0@ == k {
            let i = choose|i: int| 0 <= i < deps@.len() && #[trigger] deps@[i].0@ == k;
            assert(names[i] == k);
        }
    }
}

/// `entry` reads `name:version` for some `name` among `declared`.
pub open spec fn is_declared_entry(entry: Seq<char>, declared: Seq<Seq<char>>) -> bool {
    exists|name: Seq<char>, version: Seq<char>|
        declared.contains(name) && entry == #[trigger] (name + ":"@ + version)
}

/// Every text that a package array contributes is `name:version` for a
/// declared `name`.
proof fn lemma_resolved_packages_declared(packages: Seq<Doc>, declared: Seq<Seq<char>>)
    ensures
        forall|i: int|
            0 <= i < resolved_packages(packages, declared).len() ==> is_declared_entry(
                #[trigger] resolved_packages(packages, declared)[i],
                declared,
            ),
    decreases packages.len(),
{
    if packages.len() > 0 {
        lemma_resolved_packages_declared(packages.drop_last(), declared);
        let prev = resolved_packages(packages.drop_last(), declared);
        let all = resolved_packages(packages, declared);
        assert forall|i: int| 0 <= i < all.len() implies is_declared_entry(
            #[trigger] all[i],
            declared,
        ) by {
            if i < prev.len() {
                assert(all[i] == prev[i]);
            } else {
                match packages.last() {
                    Doc::Table(entries) => {
                        let name = package_name(entries@);
                        let version = package_version(entries@);
                        assert(declared.contains(name) && all[i] == name + ":"@ + version);
                    },
                    _ => {},
                }
            }
        }
    }
}

/// Every dependency that a lock resolves has the form `name:version` with
/// `name` among the declared names.
pub proof fn lemma_resolved_are_declared(lock: Doc, declared: Seq<Seq<char>>)
    ensures
        forall|i: int|
            0 <= i < locked_packages(lock, declared).len() ==> is_declared_entry(
                #[trigger] locked_packages(lock, declared)[i],
                declared,
            ),
{
    match lookup(lock, "package"@) {
        Some(Doc::Array(packages)) => lemma_resolved_packages_declared(packages@, declared),
        _ => {},
    }
}

/// Extracting a field, wrapping its text as a string value and extracting
/// again gives back the same text.
pub proof fn lemma_field_round_trip(field: Option<Doc>, rewrapped: String)
    requires
        rewrapped@ == field_text(field),
    ensures
        field_text(Some(Doc::Str(rewrapped))) == field_text(field),
{
}

/// A matched package record whose `name` or `version` is missing is kept,
/// with an empty text in that slot.
pub proof fn lemma_missing_fields_empty(entries: Vec<(String, Doc)>, declared: Seq<Seq<char>>)
    ensures
        entry_lookup(entries@, "name"@) is None ==> package_name(entries@) == Seq::<char>::empty(),
        entry_lookup(entries@, "version"@) is None ==> package_version(entries@) == Seq::<
            char,
        >::empty(),
        entry_lookup(entries@, "name"@) is None && declared.contains(Seq::<char>::empty())
            ==> package_entry(Doc::Table(entries), declared) == Some(
            ":"@ + package_version(entries@),
        ),
        entry_lookup(entries@, "version"@) is None && declared.contains(package_name(entries@))
            ==> package_entry(Doc::Table(entries), declared) == Some(
            package_name(entries@) + ":"@,
        ),
{
    assert(Seq::<char>::empty() + ":"@ =~= ":"@);
    assert(package_name(entries@) + ":"@ + Seq::<char>::empty() =~= package_name(entries@)
        + ":"@);
}

/// No package contributes anything where no name is declared.
proof fn lemma_nothing_declared(packages: Seq<Doc>)
    ensures
        resolved_packages(packages, Seq::empty()) == Seq::<Seq<char>>::empty(),
    decreases packages.len(),
{
    if packages.len() > 0 {
        lemma_nothing_declared(packages.drop_last());
    }
}

/// A manifest without a `dependencies` entry resolves to nothing, whatever
/// the lock holds.
pub proof fn lemma_no_dependencies_nothing_resolved(manifest: Doc, lock: Doc)
    requires
        lookup(manifest, "dependencies"@) is None,
    ensures
        reconcile(manifest, lock) == Seq::<Seq<char>>::empty(),
{
    match lookup(lock, "package"@) {
        Some(Doc::Array(packages)) => lemma_nothing_declared(packages@),
        _ => {},
    }
}

/// A lock whose `package` entry is absent or not an array resolves nothing,
/// whatever the manifest declares.
pub proof fn lemma_no_package_array_nothing_resolved(manifest: Doc, lock: Doc)
    requires
        !(lookup(lock, "package"@) matches Some(Doc::Array(_))),
    ensures
        reconcile(manifest, lock) == Seq::<Seq<char>>::empty(),
{
}

} // verus!
