use vstd::prelude::*;
use vstd::string::StringExecFns;

verus! {

/// The marker that makes a name an optional dependency: a question mark and a space.
pub open spec fn marker() -> Seq<char> {
    seq!['?', ' ']
}

/// The dependency constraint written for `name`.
pub open spec fn dependency_text(name: Seq<char>) -> Seq<char> {
    marker() + name
}

/// The texts of a sequence of strings.
pub open spec fn texts(v: Seq<String>) -> Seq<Seq<char>> {
    v.map_values(|s: String| s@)
}

/// The set of texts that a list of strings holds.
pub open spec fn name_set(v: Seq<String>) -> Set<Seq<char>> {
    Set::new(|n: Seq<char>| exists|i: int| 0 <= i < v.len() && v[i]@ == n)
}

/// The dependencies written for `names`: each name outside `ignore`, in
/// order and with its repetitions, behind the marker.
pub open spec fn dependencies_of(names: Seq<Seq<char>>, ignore: Set<Seq<char>>) -> Seq<Seq<char>>
    decreases names.len(),
{
    if names.len() == 0 {
        seq![]
    } else {
        let rest = dependencies_of(names.drop_last(), ignore);
        if ignore.contains(names.last()) {
            rest
        } else {
            rest.push(dependency_text(names.last()))
        }
    }
}

/// How many times `x` occurs in `s`.
pub open spec fn occurrences(s: Seq<Seq<char>>, x: Seq<char>) -> nat
    decreases s.len(),
{
    if s.len() == 0 {
        0
    } else {
        occurrences(s.drop_last(), x) + if s.last() == x {
            1nat
        } else {
            0nat
        }
    }
}

/// Whether `name` is one of the strings of `ignore` (exact, case-sensitive match).
pub fn is_ignored(name: &String, ignore: &Vec<String>) -> (r: bool)
    ensures
        r == name_set(ignore@).contains(name@),
{
    let mut i: usize = 0;
    while i < ignore.len()
        invariant
            i <= ignore.len(),
            forall|j: int| 0 <= j < i ==> ignore@[j]@ != name@,
        decreases ignore.len() - i,
    {
        if ignore[i] == *name {
            return true;
        }
        i = i + 1;
    }
    false
}

/// The dependency constraint for one name: the marker, then the name.
pub fn dependency_for(name: &String) -> (r: String)
    ensures
        r@ == dependency_text(name@),
{
    let mut r = String::from_str("? ");
    proof { reveal_strlit("? "); }
    r.append(name.as_str());
    r
}

/// Drops the names of `ignore` from `names` and marks the rest as dependencies.
pub fn transform_names(names: &Vec<String>, ignore: &Vec<String>) -> (r: Vec<String>)
    ensures
        texts(r@) == dependencies_of(texts(names@), name_set(ignore@)),
{
    let mut out: Vec<String> = Vec::new();
    let mut i: usize = 0;
    while i < names.len()
        invariant
            i <= names.len(),
            texts(out@) == dependencies_of(texts(names@.subrange(0, i as int)), name_set(ignore@)),
        decreases names.len() - i,
    {
        let ghost before = out@;
        proof {
            assert(texts(names@.subrange(0, i + 1)).drop_last() =~= texts(names@.subrange(0, i as int)));
            assert(texts(names@.subrange(0, i + 1)).last() == names@[i as int]@);
        }
        if !is_ignored(&names[i], ignore) {
            out.push(dependency_for(&names[i]));
            assert(texts(out@) =~= texts(before).push(dependency_text(names@[i as int]@)));
        }
        i = i + 1;
    }
    assert(names@.subrange(0, names@.len() as int) =~= names@);
    out
}

proof fn lemma_marked_injective(a: Seq<char>, b: Seq<char>)
    requires
        dependency_text(a) == dependency_text(b),
    ensures
        a == b,
{
    assert(a =~= dependency_text(a).subrange(2, dependency_text(a).len() as int));
    assert(b =~= dependency_text(b).subrange(2, dependency_text(b).len() as int));
}

/// A name of the ignore set never comes out as a dependency, whatever the
/// input names are.
pub proof fn lemma_ignored_never_emitted(names: Seq<Seq<char>>, ignore: Set<Seq<char>>, n: Seq<char>)
    requires
        ignore.contains(n),
    ensures
        !dependencies_of(names, ignore).contains(dependency_text(n)),
    decreases names.len(),
{
    if names.len() > 0 {
        lemma_ignored_never_emitted(names.drop_last(), ignore, n);
        let rest = dependencies_of(names.drop_last(), ignore);
        if !ignore.contains(names.last()) {
            if dependency_text(names.last()) == dependency_text(n) {
                lemma_marked_injective(names.last(), n);
            }
            assert forall|j: int| 0 <= j < rest.len() + 1 implies rest.push(
                dependency_text(names.last()),
            )[j] != dependency_text(n) by {
                if j < rest.len() {
                    assert(rest[j] != dependency_text(n));
                }
            }
        }
    }
}

/// A name outside the ignore set comes out marked exactly as many times as
/// it goes in.
pub proof fn lemma_kept_emitted_per_occurrence(
    names: Seq<Seq<char>>,
    ignore: Set<Seq<char>>,
    n: Seq<char>,
)
    requires
        !ignore.contains(n),
    ensures
        occurrences(dependencies_of(names, ignore), dependency_text(n)) == occurrences(names, n),
    decreases names.len(),
{
    if names.len() > 0 {
        lemma_kept_emitted_per_occurrence(names.drop_last(), ignore, n);
        let rest = dependencies_of(names.drop_last(), ignore);
        if ignore.contains(names.last()) {
            assert(names.last() != n);
        } else {
            assert(rest.push(dependency_text(names.last())).drop_last() =~= rest);
            if dependency_text(names.last()) == dependency_text(n) {
                lemma_marked_injective(names.last(), n);
            }
        }
    }
}

} // verus!
