//! Lists of named texts used as small maps from a name to a text: the first
//! entry that carries a name is the one that counts, and an insertion replaces
//! it in place or appends a new entry.

use vstd::prelude::*;
use crate::text::same_text;

verus! {

/// A name together with a text (a metric's value, or a pattern's source).
#[derive(Debug, Clone)]
pub struct NamedValue {
    pub name: String,
    pub value: String,
}

/// The abstract contents of a list of named texts.
pub open spec fn named_view(v: Seq<NamedValue>) -> Seq<(Seq<char>, Seq<char>)> {
    v.map_values(|e: NamedValue| (e.name@, e.value@))
}

/// The index of the first entry named `name`, or the length of `s` if none is.
pub open spec fn name_index(s: Seq<(Seq<char>, Seq<char>)>, name: Seq<char>) -> nat
    decreases s.len(),
{
    if s.len() == 0 || s[0].0 == name {
        0
    } else {
        1 + name_index(s.drop_first(), name)
    }
}

/// The text stored under `name`, if any.
pub open spec fn lookup(s: Seq<(Seq<char>, Seq<char>)>, name: Seq<char>) -> Option<Seq<char>> {
    let i = name_index(s, name) as int;
    if i < s.len() {
        Some(s[i].1)
    } else {
        None
    }
}

/// `s` with `value` stored under `name`: the first entry so named is replaced,
/// or a new entry is appended.
pub open spec fn insert_spec(s: Seq<(Seq<char>, Seq<char>)>, name: Seq<char>, value: Seq<char>) -> Seq<
    (Seq<char>, Seq<char>),
> {
    let i = name_index(s, name) as int;
    if i < s.len() {
        s.update(i, (name, value))
    } else {
        s.push((name, value))
    }
}

/// No two entries share a name.
pub open spec fn names_distinct(s: Seq<(Seq<char>, Seq<char>)>) -> bool {
    forall|i: int, j: int| 0 <= i < j < s.len() ==> #[trigger] s[i].0 != #[trigger] s[j].0
}

/// `name_index` is the first position holding `name`.
pub proof fn lemma_name_index(s: Seq<(Seq<char>, Seq<char>)>, name: Seq<char>, k: int)
    requires
        0 <= k <= s.len(),
        forall|j: int| 0 <= j < k ==> (#[trigger] s[j]).0 != name,
        k == s.len() || s[k].0 == name,
    ensures
        name_index(s, name) == k,
    decreases k,
{
    if k > 0 {
        assert(s[0].0 != name);
        assert forall|j: int| 0 <= j < k - 1 implies (#[trigger] s.drop_first()[j]).0 != name by {
            assert(s.drop_first()[j] == s[j + 1]);
        }
        lemma_name_index(s.drop_first(), name, k - 1);
    }
}

/// `name_index` never points past the end, and where it points below the
/// end the entry carries the name while no earlier one does.
pub proof fn lemma_name_index_shape(s: Seq<(Seq<char>, Seq<char>)>, name: Seq<char>)
    ensures
        name_index(s, name) <= s.len(),
        name_index(s, name) < s.len() ==> s[name_index(s, name) as int].0 == name,
        forall|j: int| 0 <= j < name_index(s, name) ==> (#[trigger] s[j]).0 != name,
    decreases s.len(),
{
    if s.len() > 0 && s[0].0 != name {
        lemma_name_index_shape(s.drop_first(), name);
        assert forall|j: int| 0 <= j < name_index(s, name) implies (#[trigger] s[j]).0 != name by {
            if j > 0 {
                assert(s[j] == s.drop_first()[j - 1]);
            }
        }
    }
}

/// Reading a name back after storing under it gives the stored text; other
/// names keep what they had.
pub proof fn lemma_lookup_insert(
    s: Seq<(Seq<char>, Seq<char>)>,
    name: Seq<char>,
    value: Seq<char>,
    other: Seq<char>,
)
    ensures
        lookup(insert_spec(s, name, value), name) == Some(value),
        other != name ==> lookup(insert_spec(s, name, value), other) == lookup(s, other),
{
    let t = insert_spec(s, name, value);
    lemma_name_index_shape(s, name);
    lemma_name_index_shape(s, other);
    let i = name_index(s, name) as int;
    let k = name_index(s, other) as int;
    assert forall|j: int| 0 <= j < i implies (#[trigger] t[j]).0 != name by {
        assert(t[j] == s[j]);
    }
    lemma_name_index(t, name, i);
    if other != name {
        if k < i {
            assert forall|j: int| 0 <= j < k implies (#[trigger] t[j]).0 != other by {
                assert(t[j] == s[j]);
            }
            lemma_name_index(t, other, k);
        } else {
            // every entry before and at `i` differs from `other`
            if i < s.len() {
                assert forall|j: int| 0 <= j < k implies (#[trigger] t[j]).0 != other by {
                    if j != i {
                        assert(t[j] == s[j]);
                    }
                }
                lemma_name_index(t, other, k);
            } else {
                assert forall|j: int| 0 <= j < s.len() implies (#[trigger] t[j]).0 != other by {
                    assert(t[j] == s[j]);
                }
                lemma_name_index(t, other, t.len() as int);
            }
        }
    }
}

/// Looking a name up in a list extended by one entry finds the earlier
/// entries first.
pub proof fn lemma_lookup_push(
    s: Seq<(Seq<char>, Seq<char>)>,
    x: (Seq<char>, Seq<char>),
    name: Seq<char>,
)
    ensures
        lookup(s.push(x), name) == (match lookup(s, name) {
            Some(v) => Some(v),
            None => if x.0 == name {
                Some(x.1)
            } else {
                None
            },
        }),
{
    let t = s.push(x);
    lemma_name_index_shape(s, name);
    let i = name_index(s, name) as int;
    assert forall|j: int| 0 <= j < i implies (#[trigger] t[j]).0 != name by {
        assert(t[j] == s[j]);
    }
    if i < s.len() {
        assert(t[i] == s[i]);
        lemma_name_index(t, name, i);
    } else if x.0 == name {
        lemma_name_index(t, name, i);
    } else {
        lemma_name_index(t, name, i + 1);
    }
}

/// Without its last entry a list of distinct names is still distinct, and
/// no longer holds the last entry's name.
pub proof fn lemma_distinct_drop_last(s: Seq<(Seq<char>, Seq<char>)>)
    requires
        names_distinct(s),
        s.len() > 0,
    ensures
        names_distinct(s.drop_last()),
        lookup(s.drop_last(), s.last().0) is None,
{
    let d = s.drop_last();
    assert forall|i: int, j: int| 0 <= i < j < d.len() implies #[trigger] d[i].0 != #[trigger] d[j].0 by {
        assert(d[i] == s[i] && d[j] == s[j]);
    }
    lemma_name_index_shape(d, s.last().0);
    let k = name_index(d, s.last().0) as int;
    if k < d.len() {
        assert(d[k] == s[k]);
        assert(s[k].0 != s[s.len() - 1].0);
    }
}

/// Appending an entry whose name lies outside a set that holds every name
/// of a distinct list keeps the list distinct, and the enlarged set holds
/// every name of the longer list.
pub proof fn lemma_push_new_name(
    s: Seq<(Seq<char>, Seq<char>)>,
    names: Set<Seq<char>>,
    x: (Seq<char>, Seq<char>),
)
    requires
        names_distinct(s),
        forall|j: int| 0 <= j < s.len() ==> names.contains(#[trigger] s[j].0),
        !names.contains(x.0),
    ensures
        names_distinct(s.push(x)),
        forall|j: int| 0 <= j < s.push(x).len() ==> names.insert(x.0).contains(#[trigger] s.push(x)[j].0),
{
    let t = s.push(x);
    assert forall|i: int, j: int| 0 <= i < j < t.len() implies #[trigger] t[i].0 != #[trigger] t[j].0 by {
        assert(t[i] == s[i]);
        if j < s.len() {
            assert(t[j] == s[j]);
        } else {
            assert(names.contains(s[i].0));
        }
    }
    assert forall|j: int| 0 <= j < t.len() implies names.insert(x.0).contains(#[trigger] t[j].0) by {
        if j < s.len() {
            assert(t[j] == s[j]);
        }
    }
}

/// In a list with distinct names, each entry's name looks up that entry's
/// text.
pub proof fn lemma_lookup_distinct(s: Seq<(Seq<char>, Seq<char>)>, k: int)
    requires
        names_distinct(s),
        0 <= k < s.len(),
    ensures
        lookup(s, s[k].0) == Some(s[k].1),
{
    let name = s[k].0;
    lemma_name_index_shape(s, name);
    let i = name_index(s, name) as int;
    if i < k {
        assert(s[i].0 == name);
    } else if i > k {
        assert(s[k].0 != name);
    }
}

/// Storing under a name keeps the names distinct.
pub proof fn lemma_insert_distinct(s: Seq<(Seq<char>, Seq<char>)>, name: Seq<char>, value: Seq<char>)
    requires
        names_distinct(s),
    ensures
        names_distinct(insert_spec(s, name, value)),
{
    lemma_name_index_shape(s, name);
    let t = insert_spec(s, name, value);
    let i = name_index(s, name) as int;
    assert forall|a: int, b: int| 0 <= a < b < t.len() implies #[trigger] t[a].0 != #[trigger] t[b].0 by {
        if i < s.len() {
            if a != i && b != i {
                assert(t[a] == s[a] && t[b] == s[b]);
            } else if a == i {
                assert(t[b] == s[b]);
            } else {
                assert(t[a] == s[a]);
            }
        } else {
            if b < s.len() {
                assert(t[a] == s[a] && t[b] == s[b]);
            } else {
                assert(t[a] == s[a]);
            }
        }
    }
}

/// The position of the first entry named `name`, or the length if none is.
pub fn find_name(v: &Vec<NamedValue>, name: &str) -> (r: usize)
    ensures
        r == name_index(named_view(v@), name@),
{
    let ghost s = named_view(v@);
    let mut i: usize = 0;
    while i < v.len()
        invariant
            s == named_view(v@),
            i <= v.len(),
            forall|j: int| 0 <= j < i ==> (#[trigger] s[j]).0 != name@,
        decreases v.len() - i,
    {
        if same_text(v[i].name.as_str(), name) {
            proof {
                lemma_name_index(s, name@, i as int);
            }
            return i;
        }
        i = i + 1;
    }
    proof {
        lemma_name_index(s, name@, i as int);
    }
    i
}

/// Stores `value` under `name` in `v`.
pub fn insert_named(v: &mut Vec<NamedValue>, name: &str, value: &str)
    ensures
        named_view(final(v)@) == insert_spec(named_view(old(v)@), name@, value@),
{
    let i = find_name(v, name);
    let e = NamedValue { name: String::from_str(name), value: String::from_str(value) };
    if i < v.len() {
        v.set(i, e);
    } else {
        v.push(e);
    }
    assert(named_view(v@) =~= insert_spec(named_view(old(v)@), name@, value@));
}

} // verus!
