//! Reading the top package's name from a manifest and its direct
//! dependencies from a lockfile.

use crate::document::parse_document;
use crate::document::toml_document;
use crate::document::toml_get;
use crate::document::tree_of;
use crate::document::trees_of;
use crate::document::Tree;
use crate::error::Failure;
use crate::error::SchemaError;
use crate::error::Source;
use crate::scan::first_where;
use crate::scan::lemma_first_where;
use crate::scan::lemma_first_where_unique;
use crate::text::dependency_identifier;
use crate::text::identifier_of;
use crate::text::lemma_identifier_needs_space;
use crate::text::same_text;
use crate::text::texts;
use vstd::prelude::*;
use vstd::string::StringExecFns;

verus! {

/// The name of the package that a manifest describes: the string under
/// `name` in the table under `package`.
pub open spec fn package_name_of(manifest: Tree) -> Result<Seq<char>, SchemaError> {
    match manifest.child("package"@) {
        Some(Tree::Table(package)) => match Tree::Table(package).child("name"@) {
            Some(Tree::Text(name)) => Ok(name),
            _ => Err(SchemaError::MissingName),
        },
        _ => Err(SchemaError::MissingPackage),
    }
}

/// The name of a lockfile record, where it has one that is a string.
pub open spec fn record_name(record: Tree) -> Option<Seq<char>> {
    match record.child("name"@) {
        Some(name) => name.text(),
        None => None,
    }
}

/// Where the search for the package named `top` ends: at a record of that
/// name, or at one without a name.
pub open spec fn ends_search(top: Seq<char>) -> spec_fn(Tree) -> bool {
    |record: Tree| record_name(record) is None || record_name(record) == Some(top)
}

/// The identifier of one entry of a `dependencies` array.
pub open spec fn entry_identifier(entry: Tree) -> Result<Seq<char>, SchemaError> {
    match entry.text() {
        None => Err(SchemaError::DependencyNotText),
        Some(chars) => match identifier_of(chars) {
            None => Err(SchemaError::MalformedDependency),
            Some(id) => Ok(id),
        },
    }
}

/// Entries that have no identifier.
pub open spec fn is_unreadable() -> spec_fn(Tree) -> bool {
    |entry: Tree| entry_identifier(entry) is Err
}

/// The identifiers of all entries of a `dependencies` array, in the order of
/// the entries; where some entry has none, the error of the first such entry.
pub open spec fn identifiers_of(entries: Seq<Tree>) -> Result<Seq<Seq<char>>, SchemaError> {
    let bad = first_where(entries, is_unreadable());
    if bad < entries.len() {
        Err(entry_identifier(entries[bad])->Err_0)
    } else {
        Ok(entries.map_values(|entry: Tree| entry_identifier(entry)->Ok_0))
    }
}

/// The dependency identifiers of the package named `top`: those of the
/// `dependencies` array of the first record of that name in the lockfile's
/// `package` array.
pub open spec fn dependencies_of(lock: Tree, top: Seq<char>) -> Result<
    Seq<Seq<char>>,
    SchemaError,
> {
    match lock.child("package"@) {
        Some(Tree::Array(records)) => {
            let at = first_where(records, ends_search(top));
            if at >= records.len() {
                Err(SchemaError::TopPackageNotFound)
            } else if record_name(records[at]) is None {
                Err(SchemaError::UnnamedPackage)
            } else {
                match records[at].child("dependencies"@) {
                    Some(Tree::Array(entries)) => identifiers_of(entries),
                    _ => Err(SchemaError::MissingDependencies),
                }
            }
        },
        _ => Err(SchemaError::MissingPackages),
    }
}

/// The name of the top package as the text of a manifest gives it.
pub open spec fn manifest_name(text: Seq<char>) -> Result<Seq<char>, Failure> {
    match toml_document(text) {
        None => Err(Failure::Malformed(Source::Manifest)),
        Some(manifest) => match package_name_of(manifest) {
            Ok(name) => Ok(name),
            Err(e) => Err(Failure::Schema(e)),
        },
    }
}

/// The dependency identifiers of the package named `top` as the text of a
/// lockfile gives them.
pub open spec fn lockfile_dependencies(text: Seq<char>, top: Seq<char>) -> Result<
    Seq<Seq<char>>,
    Failure,
> {
    match toml_document(text) {
        None => Err(Failure::Malformed(Source::Lockfile)),
        Some(lock) => match dependencies_of(lock, top) {
            Ok(ids) => Ok(ids),
            Err(e) => Err(Failure::Schema(e)),
        },
    }
}

/// The dependency identifiers that the texts of a manifest and of a lockfile
/// give together: those of the package that the manifest names.
pub open spec fn resolution(manifest_text: Seq<char>, lock_text: Seq<char>) -> Result<
    Seq<Seq<char>>,
    Failure,
> {
    match manifest_name(manifest_text) {
        Ok(top) => lockfile_dependencies(lock_text, top),
        Err(failure) => Err(failure),
    }
}

/// Reads the top package's name from a manifest.
pub fn parse_package_name(manifest: &toml::Value) -> (r: Result<&str, SchemaError>)
    ensures
        match r {
            Ok(name) => package_name_of(tree_of(*manifest)) == Ok::<Seq<char>, SchemaError>(name@),
            Err(e) => package_name_of(tree_of(*manifest)) == Err::<Seq<char>, SchemaError>(e),
        },
{
    match toml_get(manifest, "package") {
        Some(package) => {
            if !package.is_table() {
                return Err(SchemaError::MissingPackage);
            }
            match toml_get(package, "name") {
                Some(name) => match name.as_str() {
                    Some(chars) => Ok(chars),
                    None => Err(SchemaError::MissingName),
                },
                None => Err(SchemaError::MissingName),
            }
        },
        None => Err(SchemaError::MissingPackage),
    }
}

/// Reads the name of a lockfile record.
pub fn read_record_name(record: &toml::Value) -> (r: Option<&str>)
    ensures
        match r {
            Some(name) => record_name(tree_of(*record)) == Some(name@),
            None => record_name(tree_of(*record)) is None,
        },
{
    match toml_get(record, "name") {
        Some(name) => name.as_str(),
        None => None,
    }
}

/// Finds the first record named `top`, reading the names of the records in
/// order and failing at the first one that has none.
pub fn find_top_package<'a>(records: &'a Vec<toml::Value>, top: &str) -> (r: Result<
    &'a toml::Value,
    SchemaError,
>)
    ensures
        ({
            let at = first_where(trees_of(records@), ends_search(top@));
            match r {
                Ok(record) => {
                    &&& 0 <= at < records.len()
                    &&& *record == records[at]
                    &&& record_name(tree_of(*record)) == Some(top@)
                },
                Err(e) => if at >= records.len() {
                    e == SchemaError::TopPackageNotFound
                } else {
                    &&& e == SchemaError::UnnamedPackage
                    &&& record_name(tree_of(records[at])) is None
                },
            }
        }),
{
    let ghost trees = trees_of(records@);
    let ghost stop = ends_search(top@);
    let mut i: usize = 0;
    while i < records.len()
        invariant
            0 <= i <= records.len(),
            trees == trees_of(records@),
            stop == ends_search(top@),
            forall|k: int| 0 <= k < i ==> !stop(#[trigger] trees[k]),
        decreases records.len() - i,
    {
        let record = &records[i];
        assert(trees[i as int] == tree_of(*record));
        match read_record_name(record) {
            None => {
                proof {
                    lemma_first_where_unique(trees, stop, i as int);
                }
                return Err(SchemaError::UnnamedPackage);
            },
            Some(name) => {
                if same_text(name, top) {
                    proof {
                        lemma_first_where_unique(trees, stop, i as int);
                    }
                    return Ok(record);
                }
            },
        }
        i = i + 1;
    }
    proof {
        lemma_first_where_unique(trees, stop, i as int);
    }
    Err(SchemaError::TopPackageNotFound)
}

/// Reads the identifier of one entry of a `dependencies` array.
pub fn read_entry_identifier(entry: &toml::Value) -> (r: Result<String, SchemaError>)
    ensures
        match r {
            Ok(id) => entry_identifier(tree_of(*entry)) == Ok::<Seq<char>, SchemaError>(id@),
            Err(e) => entry_identifier(tree_of(*entry)) == Err::<Seq<char>, SchemaError>(e),
        },
{
    match entry.as_str() {
        None => Err(SchemaError::DependencyNotText),
        Some(chars) => match dependency_identifier(chars) {
            None => Err(SchemaError::MalformedDependency),
            Some(id) => Ok(id),
        },
    }
}

/// Reads the identifiers of all entries of a `dependencies` array, in order,
/// and fails at the first entry that has none.
pub fn collect_identifiers(entries: &Vec<toml::Value>) -> (r: Result<Vec<String>, SchemaError>)
    ensures
        match r {
            Ok(ids) => identifiers_of(trees_of(entries@)) == Ok::<Seq<Seq<char>>, SchemaError>(
                texts(ids@),
            ),
            Err(e) => identifiers_of(trees_of(entries@)) == Err::<Seq<Seq<char>>, SchemaError>(e),
        },
{
    let ghost trees = trees_of(entries@);
    let mut ids: Vec<String> = Vec::new();
    let mut i: usize = 0;
    while i < entries.len()
        invariant
            0 <= i <= entries.len(),
            trees == trees_of(entries@),
            ids.len() == i,
            forall|k: int| 0 <= k < i ==> !is_unreadable()(#[trigger] trees[k]),
            forall|k: int|
                0 <= k < i ==> entry_identifier(trees[k]) == Ok::<Seq<char>, SchemaError>(
                    #[trigger] ids[k]@,
                ),
        decreases entries.len() - i,
    {
        let entry = &entries[i];
        assert(trees[i as int] == tree_of(*entry));
        match read_entry_identifier(entry) {
            Err(e) => {
                proof {
                    lemma_first_where_unique(trees, is_unreadable(), i as int);
                }
                return Err(e);
            },
            Ok(id) => {
                ids.push(id);
            },
        }
        i = i + 1;
    }
    proof {
        lemma_first_where_unique(trees, is_unreadable(), i as int);
        assert(texts(ids@) =~= trees.map_values(|entry: Tree| entry_identifier(entry)->Ok_0));
    }
    Ok(ids)
}

/// Reads the dependency identifiers of the package named `top_pkg_name` from
/// a lockfile.
pub fn parse_deps(lock: &toml::Value, top_pkg_name: &str) -> (r: Result<Vec<String>, SchemaError>)
    ensures
        match r {
            Ok(ids) => dependencies_of(tree_of(*lock), top_pkg_name@) == Ok::<
                Seq<Seq<char>>,
                SchemaError,
            >(texts(ids@)),
            Err(e) => dependencies_of(tree_of(*lock), top_pkg_name@) == Err::<
                Seq<Seq<char>>,
                SchemaError,
            >(e),
        },
{
    let records = match toml_get(lock, "package") {
        Some(packages) => match packages.as_array() {
            Some(records) => records,
            None => {
                return Err(SchemaError::MissingPackages);
            },
        },
        None => {
            return Err(SchemaError::MissingPackages);
        },
    };
    let ghost at = first_where(trees_of(records@), ends_search(top_pkg_name@));
    proof {
        lemma_first_where(trees_of(records@), ends_search(top_pkg_name@));
        if at < records.len() {
            assert(trees_of(records@)[at] == tree_of(records[at]));
        }
    }
    let top = match find_top_package(records, top_pkg_name) {
        Ok(record) => record,
        Err(e) => {
            return Err(e);
        },
    };
    match toml_get(top, "dependencies") {
        Some(dependencies) => match dependencies.as_array() {
            Some(entries) => collect_identifiers(entries),
            None => Err(SchemaError::MissingDependencies),
        },
        None => Err(SchemaError::MissingDependencies),
    }
}

/// Parses the text of a manifest and reads the top package's name from it.
pub fn load_manifest(text: &str) -> (r: Result<String, Failure>)
    ensures
        match r {
            Ok(name) => manifest_name(text@) == Ok::<Seq<char>, Failure>(name@),
            Err(f) => manifest_name(text@) == Err::<Seq<char>, Failure>(f),
        },
{
    match parse_document(text) {
        Err(_) => Err(Failure::Malformed(Source::Manifest)),
        Ok(manifest) => match parse_package_name(&manifest) {
            Ok(name) => Ok(String::from_str(name)),
            Err(e) => Err(Failure::Schema(e)),
        },
    }
}

/// Parses the text of a lockfile and reads from it the dependency
/// identifiers of the package named `top_pkg_name`.
pub fn load_lockfile(text: &str, top_pkg_name: &str) -> (r: Result<Vec<String>, Failure>)
    ensures
        match r {
            Ok(ids) => lockfile_dependencies(text@, top_pkg_name@) == Ok::<
                Seq<Seq<char>>,
                Failure,
            >(texts(ids@)),
            Err(f) => lockfile_dependencies(text@, top_pkg_name@) == Err::<
                Seq<Seq<char>>,
                Failure,
            >(f),
        },
{
    match parse_document(text) {
        Err(_) => Err(Failure::Malformed(Source::Lockfile)),
        Ok(lock) => match parse_deps(&lock, top_pkg_name) {
            Ok(ids) => Ok(ids),
            Err(e) => Err(Failure::Schema(e)),
        },
    }
}

/// Whether the record at `at` is the first one named `top`, with every
/// record before it named otherwise.
pub open spec fn is_top_record(records: Seq<Tree>, top: Seq<char>, at: int) -> bool {
    &&& 0 <= at < records.len()
    &&& record_name(records[at]) == Some(top)
    &&& forall|k: int|
        0 <= k < at ==> record_name(#[trigger] records[k]) is Some && record_name(records[k])
            != Some(top)
}

/// The first record named as the top package decides: its `dependencies`
/// array gives the identifiers, and records after it are not looked at, not
/// even those of the same name.
pub proof fn lemma_first_match_wins(lock: Tree, top: Seq<char>, records: Seq<Tree>, at: int)
    requires
        lock.child("package"@) == Some(Tree::Array(records)),
        is_top_record(records, top, at),
    ensures
        dependencies_of(lock, top) == match records[at].child("dependencies"@) {
            Some(Tree::Array(entries)) => identifiers_of(entries),
            _ => Err(SchemaError::MissingDependencies),
        },
{
    lemma_first_where_unique(records, ends_search(top), at);
}

/// A lockfile without a record named as the top package gives an error,
/// never an empty list of dependencies. Where every record has a name, the
/// error says that the top package was not found.
pub proof fn lemma_absent_top_package_fails(lock: Tree, top: Seq<char>)
    requires
        lock.child("package"@) matches Some(Tree::Array(records)) ==> forall|i: int|
            0 <= i < records.len() ==> record_name(#[trigger] records[i]) != Some(top),
    ensures
        dependencies_of(lock, top) is Err,
        lock.child("package"@) matches Some(Tree::Array(records)) && (forall|i: int|
            0 <= i < records.len() ==> record_name(#[trigger] records[i]) is Some)
            ==> dependencies_of(lock, top) == Err::<Seq<Seq<char>>, SchemaError>(
            SchemaError::TopPackageNotFound,
        ),
{
    match lock.child("package"@) {
        Some(Tree::Array(records)) => {
            lemma_first_where(records, ends_search(top));
        },
        _ => {},
    }
}

/// A top package whose `dependencies` array is there but empty has no
/// dependencies, which is no error.
pub proof fn lemma_empty_dependencies(lock: Tree, top: Seq<char>, records: Seq<Tree>, at: int)
    requires
        lock.child("package"@) == Some(Tree::Array(records)),
        is_top_record(records, top, at),
        records[at].child("dependencies"@) == Some(Tree::Array(Seq::empty())),
    ensures
        dependencies_of(lock, top) == Ok::<Seq<Seq<char>>, SchemaError>(Seq::empty()),
{
    lemma_first_match_wins(lock, top, records, at);
    let entries = Seq::<Tree>::empty();
    assert(entries.map_values(|entry: Tree| entry_identifier(entry)->Ok_0) =~= Seq::<
        Seq<char>,
    >::empty());
}

/// The identifiers come entry by entry: as many as there are entries, each
/// at its entry's place, so nothing is reordered, merged or dropped. An
/// error is the error of some entry.
pub proof fn lemma_identifiers_keep_order(entries: Seq<Tree>)
    ensures
        match identifiers_of(entries) {
            Ok(ids) => {
                &&& ids.len() == entries.len()
                &&& forall|i: int|
                    0 <= i < entries.len() ==> entry_identifier(#[trigger] entries[i]) == Ok::<
                        Seq<char>,
                        SchemaError,
                    >(ids[i])
            },
            Err(e) => exists|i: int|
                0 <= i < entries.len() && entry_identifier(#[trigger] entries[i]) == Err::<
                    Seq<char>,
                    SchemaError,
                >(e),
        },
{
    lemma_first_where(entries, is_unreadable());
    let bad = first_where(entries, is_unreadable());
    if bad < entries.len() {
        assert(is_unreadable()(entries[bad]));
    } else {
        assert forall|i: int| 0 <= i < entries.len() implies entry_identifier(
            #[trigger] entries[i],
        ) is Ok by {
            assert(!is_unreadable()(entries[i]));
        }
    }
}

/// One entry that is a string without a space makes the whole array
/// unreadable.
pub proof fn lemma_entry_without_space_fails(entries: Seq<Tree>, at: int)
    requires
        0 <= at < entries.len(),
        entries[at].text() matches Some(chars) && !chars.contains(' '),
    ensures
        identifiers_of(entries) is Err,
{
    lemma_identifier_needs_space(entries[at].text()->Some_0);
    lemma_first_where(entries, is_unreadable());
    assert(is_unreadable()(entries[at]));
}

/// A lockfile whose top package has such an entry among its dependencies
/// gives an error.
pub proof fn lemma_dependency_without_space_fails(
    lock: Tree,
    top: Seq<char>,
    records: Seq<Tree>,
    at: int,
    entries: Seq<Tree>,
    entry: int,
)
    requires
        lock.child("package"@) == Some(Tree::Array(records)),
        is_top_record(records, top, at),
        records[at].child("dependencies"@) == Some(Tree::Array(entries)),
        0 <= entry < entries.len(),
        entries[entry].text() matches Some(chars) && !chars.contains(' '),
    ensures
        dependencies_of(lock, top) is Err,
{
    lemma_first_match_wins(lock, top, records, at);
    lemma_entry_without_space_fails(entries, entry);
}

} // verus!
