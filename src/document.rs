use vstd::prelude::*;
use vstd::string::StringExecFns;

use crate::transform::{dependencies_of, name_set, texts, transform_names};

verus! {

/// A JSON value of serde_json, carried through unread.
#[verifier::external_type_specification]
#[verifier::external_body]
pub struct ExJsonValue(serde_json::Value);

/// The value under one key of a document.
#[derive(Debug)]
pub enum DocValue {
    /// A value taken over from the base document.
    Json(serde_json::Value),
    /// A list of strings.
    List(Vec<String>),
    /// A single string.
    Text(String),
}

/// A document of top-level keys and values, in a fixed order; no key twice.
#[derive(Debug)]
pub struct Document {
    pub entries: Vec<(String, DocValue)>,
}

/// No key stands twice in `e`.
pub open spec fn keys_unique(e: Seq<(String, DocValue)>) -> bool {
    forall|i: int, j: int| 0 <= i < e.len() && 0 <= j < e.len() && i != j ==> e[i].0@ != e[j].0@
}

/// Whether `k` is a key of `e`.
pub open spec fn has_key(e: Seq<(String, DocValue)>, k: Seq<char>) -> bool {
    exists|i: int| 0 <= i < e.len() && e[i].0@ == k
}

/// The value under `k` in `e`, if any.
pub open spec fn lookup(e: Seq<(String, DocValue)>, k: Seq<char>) -> Option<DocValue> {
    if has_key(e, k) {
        Some(e[choose|i: int| 0 <= i < e.len() && e[i].0@ == k].1)
    } else {
        None
    }
}

/// `e` with `v` under `k`: in place where `k` is a key, else at the end.
pub open spec fn set_entry(e: Seq<(String, DocValue)>, k: String, v: DocValue) -> Seq<(String, DocValue)> {
    if has_key(e, k@) {
        e.update(choose|i: int| 0 <= i < e.len() && e[i].0@ == k@, (k, v))
    } else {
        e.push((k, v))
    }
}

/// The key of the dependency list in an output document.
pub open spec fn dependencies_key() -> Seq<char> {
    seq!['d', 'e', 'p', 'e', 'n', 'd', 'e', 'n', 'c', 'i', 'e', 's']
}

/// The key of the version string in an output document.
pub open spec fn version_key() -> Seq<char> {
    seq!['v', 'e', 'r', 's', 'i', 'o', 'n']
}

/// The entries of `base` merged with a dependency list and a version.
pub open spec fn merged(
    base: Seq<(String, DocValue)>,
    deps_key: String,
    deps: Vec<String>,
    ver_key: String,
    version: String,
) -> Seq<(String, DocValue)> {
    set_entry(set_entry(base, deps_key, DocValue::List(deps)), ver_key, DocValue::Text(version))
}

proof fn lemma_lookup_at(e: Seq<(String, DocValue)>, i: int)
    requires
        keys_unique(e),
        0 <= i < e.len(),
    ensures
        lookup(e, e[i].0@) == Some(e[i].1),
{
    let j = choose|j: int| 0 <= j < e.len() && e[j].0@ == e[i].0@;
    assert(j == i);
}

/// After `set_entry`, `k` holds `v`, every other key keeps its value, and
/// no key stands twice.
pub proof fn lemma_set_entry(e: Seq<(String, DocValue)>, k: String, v: DocValue)
    requires
        keys_unique(e),
    ensures
        keys_unique(set_entry(e, k, v)),
        lookup(set_entry(e, k, v), k@) == Some(v),
        forall|o: Seq<char>| o != k@ ==> lookup(#[trigger] set_entry(e, k, v), o) == lookup(e, o),
{
    let r = set_entry(e, k, v);
    if has_key(e, k@) {
        let i = choose|i: int| 0 <= i < e.len() && e[i].0@ == k@;
        lemma_lookup_at(r, i);
        assert forall|o: Seq<char>| o != k@ implies lookup(r, o) == lookup(e, o) by {
            if has_key(e, o) {
                let j = choose|j: int| 0 <= j < e.len() && e[j].0@ == o;
                lemma_lookup_at(e, j);
                lemma_lookup_at(r, j);
            } else {
                assert(!has_key(r, o));
            }
        }
    } else {
        lemma_lookup_at(r, e.len() as int);
        assert forall|o: Seq<char>| o != k@ implies lookup(r, o) == lookup(e, o) by {
            if has_key(e, o) {
                let j = choose|j: int| 0 <= j < e.len() && e[j].0@ == o;
                lemma_lookup_at(e, j);
                lemma_lookup_at(r, j);
            } else {
                assert(!has_key(r, o));
            }
        }
    }
}

impl Document {
    /// No key stands twice.
    pub open spec fn wf(&self) -> bool {
        keys_unique(self.entries@)
    }

    /// A document without keys.
    pub fn new() -> (r: Document)
        ensures
            r.wf(),
            r.entries@.len() == 0,
    {
        Document { entries: Vec::new() }
    }

    /// Puts `value` under `key`, overwriting in place a value that was there.
    pub fn set(&mut self, key: String, value: DocValue)
        requires
            old(self).wf(),
        ensures
            final(self).wf(),
            final(self).entries@ == set_entry(old(self).entries@, key, value),
    {
        proof { lemma_set_entry(self.entries@, key, value); }
        let mut i: usize = 0;
        while i < self.entries.len()
            invariant
                i <= self.entries.len(),
                self.entries@ == old(self).entries@,
                keys_unique(self.entries@),
                forall|j: int| 0 <= j < i ==> self.entries@[j].0@ != key@,
            decreases self.entries.len() - i,
        {
            if self.entries[i].0 == key {
                proof {
                    assert(self.entries@[i as int].0@ == key@);
                    assert(has_key(self.entries@, key@));
                    let c = choose|j: int| 0 <= j < self.entries@.len() && self.entries@[j].0@ == key@;
                    assert(c == i);
                }
                self.entries.set(i, (key, value));
                return;
            }
            i = i + 1;
        }
        self.entries.push((key, value));
    }
}

/// The output document: `base` with the dependency list under
/// `dependencies` and the version under `version`, each overwriting what
/// the base had there.
pub fn merge_document(base: Document, dependencies: Vec<String>, version: String) -> (r: Document)
    requires
        base.wf(),
    ensures
        r.wf(),
        lookup(r.entries@, dependencies_key()) == Some(DocValue::List(dependencies)),
        lookup(r.entries@, version_key()) == Some(DocValue::Text(version)),
        forall|o: Seq<char>|
            o != dependencies_key() && o != version_key() ==> lookup(r.entries@, o) == lookup(
                base.entries@,
                o,
            ),
        exists|dk: String, vk: String|
            dk@ == dependencies_key() && vk@ == version_key() && r.entries@ == merged(
                base.entries@,
                dk,
                dependencies,
                vk,
                version,
            ),
{
    let mut doc = base;
    let dk = String::from_str("dependencies");
    let vk = String::from_str("version");
    proof {
        reveal_strlit("dependencies");
        reveal_strlit("version");
        assert(dk@ =~= dependencies_key());
        assert(vk@ =~= version_key());
    }
    let ghost dk_ghost = dk;
    let ghost vk_ghost = vk;
    doc.set(dk, DocValue::List(dependencies));
    doc.set(vk, DocValue::Text(version));
    assert(doc.entries@ == merged(base.entries@, dk_ghost, dependencies, vk_ghost, version));
    proof { lemma_merge_overrides(base.entries@, dk_ghost, dependencies, vk_ghost, version); }
    doc
}

/// Merging puts the fresh dependency list and version under their keys,
/// whatever the base held there, leaves every other key as the base had it,
/// and keeps each key once.
pub proof fn lemma_merge_overrides(
    base: Seq<(String, DocValue)>,
    deps_key: String,
    deps: Vec<String>,
    ver_key: String,
    version: String,
)
    requires
        keys_unique(base),
        deps_key@ == dependencies_key(),
        ver_key@ == version_key(),
    ensures
        keys_unique(merged(base, deps_key, deps, ver_key, version)),
        lookup(merged(base, deps_key, deps, ver_key, version), version_key()) == Some(
            DocValue::Text(version),
        ),
        lookup(merged(base, deps_key, deps, ver_key, version), dependencies_key()) == Some(
            DocValue::List(deps),
        ),
        forall|o: Seq<char>|
            o != dependencies_key() && o != version_key() ==> lookup(
                #[trigger] merged(base, deps_key, deps, ver_key, version),
                o,
            ) == lookup(base, o),
{
    let first = set_entry(base, deps_key, DocValue::List(deps));
    lemma_set_entry(base, deps_key, DocValue::List(deps));
    lemma_set_entry(first, ver_key, DocValue::Text(version));
    assert(dependencies_key().len() != version_key().len());
}

/// The output document for `base`: the dependencies that `names` give
/// outside `ignore`, and `version`.
pub fn build_info(base: Document, names: &Vec<String>, ignore: &Vec<String>, version: String) -> (r:
    Document)
    requires
        base.wf(),
    ensures
        r.wf(),
        exists|deps: Vec<String>, dk: String, vk: String|
            texts(deps@) == dependencies_of(texts(names@), name_set(ignore@)) && dk@
                == dependencies_key() && vk@ == version_key() && r.entries@ == merged(
                base.entries@,
                dk,
                deps,
                vk,
                version,
            ) && lookup(r.entries@, dependencies_key()) == Some(DocValue::List(deps)),
        lookup(r.entries@, version_key()) == Some(DocValue::Text(version)),
        forall|o: Seq<char>|
            o != dependencies_key() && o != version_key() ==> lookup(r.entries@, o) == lookup(
                base.entries@,
                o,
            ),
{
    let dependencies = transform_names(names, ignore);
    merge_document(base, dependencies, version)
}

} // verus!
