//! The slot cache: a fixed, ordered set of named slots, each holding the
//! string it currently displays, and the status line that joins them.

use vstd::prelude::*;

use crate::text::{join, join_strings, views};

verus! {

/// What every slot displays until its first update.
pub open spec fn unset_value() -> Seq<char> {
    seq!['N', 'O', 'N', 'E']
}

/// The first occurrence of each name of `s`, in the order of `s`.
pub open spec fn first_occurrences(s: Seq<Seq<char>>) -> Seq<Seq<char>>
    decreases s.len(),
{
    if s.len() == 0 {
        s
    } else {
        let d = first_occurrences(s.drop_last());
        if d.contains(s.last()) {
            d
        } else {
            d.push(s.last())
        }
    }
}

/// `first_occurrences` holds each name of `s` exactly once.
pub proof fn lemma_first_occurrences(s: Seq<Seq<char>>)
    ensures
        first_occurrences(s).no_duplicates(),
        forall|x: Seq<char>| first_occurrences(s).contains(x) <==> s.contains(x),
    decreases s.len(),
{
    if s.len() > 0 {
        let p = s.drop_last();
        lemma_first_occurrences(p);
        assert forall|x: Seq<char>| s.contains(x) <==> (p.contains(x) || x == s.last()) by {
            if s.contains(x) {
                let k = choose|k: int| 0 <= k < s.len() && s[k] == x;
                if k < s.len() - 1 {
                    assert(p[k] == x);
                }
            }
            if p.contains(x) {
                let k = choose|k: int| 0 <= k < p.len() && p[k] == x;
                assert(s[k] == x);
            }
            if x == s.last() {
                assert(s[s.len() - 1] == x);
            }
        }
        let d = first_occurrences(p);
        if !d.contains(s.last()) {
            let e = d.push(s.last());
            assert forall|x: Seq<char>| e.contains(x) <==> (d.contains(x) || x == s.last()) by {
                if e.contains(x) {
                    let k = choose|k: int| 0 <= k < e.len() && e[k] == x;
                    if k < d.len() {
                        assert(d[k] == x);
                    }
                }
                if d.contains(x) {
                    let k = choose|k: int| 0 <= k < d.len() && d[k] == x;
                    assert(e[k] == x);
                }
                if x == s.last() {
                    assert(e[e.len() - 1] == x);
                }
            }
            assert forall|i: int, j: int| 0 <= i < e.len() && 0 <= j < e.len() && i != j
                implies e[i] != e[j] by {
                if i < d.len() && j < d.len() {
                    assert(d[i] != d[j]);
                } else if i < d.len() {
                    assert(d.contains(e[i]));
                } else if j < d.len() {
                    assert(d.contains(e[j]));
                }
            }
        }
    }
}

/// The abstract state of a cache.
pub struct CacheModel {
    /// Placed between each two neighbouring values of the status line.
    pub separator: Seq<char>,
    /// The slot names, in display order.
    pub names: Seq<Seq<char>>,
    /// The value of each slot, at the index of its name.
    pub values: Seq<Seq<char>>,
}

impl CacheModel {
    /// One value per slot, and no name declared twice.
    pub open spec fn wf(self) -> bool {
        &&& self.names.len() == self.values.len()
        &&& self.names.no_duplicates()
    }

    /// A fresh cache: the given names once each, every slot unset.
    pub open spec fn fresh(separator: Seq<char>, names: Seq<Seq<char>>) -> CacheModel {
        let slots = first_occurrences(names);
        CacheModel {
            separator,
            names: slots,
            values: Seq::new(slots.len(), |i: int| unset_value()),
        }
    }

    /// The cache after `name` is set to `value`; unchanged when no slot has that name.
    pub open spec fn updated(self, name: Seq<char>, value: Seq<char>) -> CacheModel {
        CacheModel {
            values: Seq::new(
                self.values.len(),
                |i: int|
                    if self.names[i] == name {
                        value
                    } else {
                        self.values[i]
                    },
            ),
            ..self
        }
    }

    /// The status line: the values in display order, joined by the separator.
    pub open spec fn status(self) -> Seq<char> {
        join(self.values, self.separator)
    }
}

/// The value that `updates` leave in the slot `name`, which held `init`
/// before them: that of the last update naming it, or `init` if none does.
pub open spec fn last_value(
    updates: Seq<(Seq<char>, Seq<char>)>,
    name: Seq<char>,
    init: Seq<char>,
) -> Seq<char>
    decreases updates.len(),
{
    if updates.len() == 0 {
        init
    } else if updates.last().0 == name {
        updates.last().1
    } else {
        last_value(updates.drop_last(), name, init)
    }
}

/// The cache after each `(name, value)` of `updates` is applied, in order.
pub open spec fn apply_updates(c: CacheModel, updates: Seq<(Seq<char>, Seq<char>)>) -> CacheModel
    decreases updates.len(),
{
    if updates.len() == 0 {
        c
    } else {
        apply_updates(c, updates.drop_last()).updated(updates.last().0, updates.last().1)
    }
}

/// After any sequence of updates to declared slots, the status line joins,
/// in declared order and with the separator, the last value given to each
/// slot (its earlier value where no update names it). How updates to
/// different slots interleave does not matter.
pub proof fn lemma_status_after_updates(c: CacheModel, updates: Seq<(Seq<char>, Seq<char>)>)
    requires
        c.wf(),
        forall|k: int| 0 <= k < updates.len() ==> c.names.contains(#[trigger] updates[k].0),
    ensures
        apply_updates(c, updates).status() == join(
            Seq::new(c.names.len(), |i: int| last_value(updates, c.names[i], c.values[i])),
            c.separator,
        ),
{
    lemma_values_after_updates(c, updates);
}

proof fn lemma_values_after_updates(c: CacheModel, updates: Seq<(Seq<char>, Seq<char>)>)
    requires
        c.wf(),
    ensures
        apply_updates(c, updates).separator == c.separator,
        apply_updates(c, updates).names == c.names,
        apply_updates(c, updates).values == Seq::new(
            c.names.len(),
            |i: int| last_value(updates, c.names[i], c.values[i]),
        ),
    decreases updates.len(),
{
    if updates.len() > 0 {
        lemma_values_after_updates(c, updates.drop_last());
        assert(apply_updates(c, updates).values =~= Seq::new(
            c.names.len(),
            |i: int| last_value(updates, c.names[i], c.values[i]),
        ));
    } else {
        assert(c.values =~= Seq::new(
            c.names.len(),
            |i: int| last_value(updates, c.names[i], c.values[i]),
        ));
    }
}

/// An update naming no declared slot leaves the cache, and so its status
/// line, as it was.
pub proof fn lemma_unknown_update_changes_nothing(c: CacheModel, name: Seq<char>, value: Seq<char>)
    requires
        c.wf(),
        !c.names.contains(name),
    ensures
        c.updated(name, value) == c,
        c.updated(name, value).status() == c.status(),
{
    assert forall|i: int| 0 <= i < c.names.len() implies c.names[i] != name by {
        if c.names[i] == name {
            assert(c.names.contains(name));
        }
    }
    assert(c.updated(name, value).values =~= c.values);
}

/// Updates to two different slots give the same cache in either order.
pub proof fn lemma_updates_to_different_slots_commute(
    c: CacheModel,
    n1: Seq<char>,
    v1: Seq<char>,
    n2: Seq<char>,
    v2: Seq<char>,
)
    requires
        c.wf(),
        n1 != n2,
    ensures
        c.updated(n1, v1).updated(n2, v2) == c.updated(n2, v2).updated(n1, v1),
{
    assert(c.updated(n1, v1).updated(n2, v2).values =~= c.updated(n2, v2).updated(n1, v1).values);
}

/// The slots of a status bar and what each displays.
pub struct Cache {
    separator: String,
    names: Vec<String>,
    values: Vec<String>,
}

impl View for Cache {
    type V = CacheModel;

    closed spec fn view(&self) -> CacheModel {
        CacheModel {
            separator: self.separator@,
            names: views(self.names@),
            values: views(self.values@),
        }
    }
}

/// The index of the first string of `names` equal to `name`.
fn position(names: &Vec<String>, name: &String) -> (r: Option<usize>)
    ensures
        match r {
            Some(i) => i < names.len() && names@[i as int]@ == name@ && forall|j: int|
                0 <= j < i ==> names@[j]@ != name@,
            None => !views(names@).contains(name@),
        },
{
    let mut i: usize = 0;
    while i < names.len()
        invariant
            i <= names.len(),
            forall|j: int| 0 <= j < i ==> names@[j]@ != name@,
        decreases names.len() - i,
    {
        if names[i] == *name {
            return Some(i);
        }
        i = i + 1;
    }
    proof {
        if views(names@).contains(name@) {
            let k = choose|k: int| 0 <= k < names.len() && views(names@)[k] == name@;
            assert(names@[k]@ == name@);
        }
    }
    None
}

impl Cache {
    /// One value per slot, and no name declared twice.
    pub open spec fn wf(&self) -> bool {
        self@.wf()
    }

    /// A cache with a slot for each of `names` (a repeated name gets one
    /// slot, at its first place), every slot unset, joined by `separator`.
    pub fn new(separator: String, names: Vec<String>) -> (r: Cache)
        ensures
            r.wf(),
            r@ == CacheModel::fresh(separator@, views(names@)),
    {
        let ghost all = views(names@);
        let mut slots: Vec<String> = Vec::new();
        let mut values: Vec<String> = Vec::new();
        let mut i: usize = 0;
        while i < names.len()
            invariant
                i <= names.len(),
                all == views(names@),
                views(slots@) == first_occurrences(all.take(i as int)),
                values.len() == slots.len(),
                forall|k: int| 0 <= k < values.len() ==> values@[k]@ == unset_value(),
            decreases names.len() - i,
        {
            proof {
                assert(all.take(i + 1).drop_last() =~= all.take(i as int));
                assert(all.take(i + 1).last() == names@[i as int]@);
            }
            if position(&slots, &names[i]).is_none() {
                let ghost before = views(slots@);
                slots.push(names[i].clone());
                let unset = "NONE".to_owned();
                proof {
                    reveal_strlit("NONE");
                    assert(views(slots@) =~= before.push(names@[i as int]@));
                }
                values.push(unset);
            } else {
                proof {
                    let d = views(slots@);
                    let k = choose|k: int|
                        0 <= k < slots.len() && #[trigger] slots@[k]@ == names@[i as int]@;
                    assert(d[k] == names@[i as int]@);
                }
            }
            i = i + 1;
        }
        proof {
            assert(all.take(names.len() as int) =~= all);
            lemma_first_occurrences(all);
            assert(views(values@) =~= Seq::new(
                views(slots@).len(),
                |k: int| unset_value(),
            ));
        }
        Cache { separator, names: slots, values }
    }

    /// Sets the slot named `key` to `value`, whatever it held before; a key
    /// that names no slot changes nothing.
    pub fn update(&mut self, key: String, value: String)
        requires
            old(self).wf(),
        ensures
            final(self).wf(),
            final(self)@ == old(self)@.updated(key@, value@),
    {
        let ghost before = self@;
        match position(&self.names, &key) {
            Some(i) => {
                self.values.set(i, value);
                assert(self@.names == before.names);
                proof {
                    assert(self@.values =~= before.updated(key@, value@).values) by {
                        assert forall|j: int| 0 <= j < before.names.len() implies (before.names[j]
                            == key@) == (j == i) by {
                            if j != i && before.names[j] == key@ {
                                assert(before.names[j] == before.names[i as int]);
                            }
                        }
                    }
                }
            },
            None => {
                proof {
                    assert(before.updated(key@, value@).values =~= before.values) by {
                        assert forall|j: int| 0 <= j < before.names.len() implies before.names[j]
                            != key@ by {
                            if before.names[j] == key@ {
                                assert(views(self.names@)[j] == key@);
                            }
                        }
                    }
                }
            },
        }
    }

    /// The status line: the slot values in display order, joined by the separator.
    pub fn status(&self) -> (r: String)
        ensures
            r@ == self@.status(),
    {
        join_strings(&self.values, self.separator.as_str())
    }
}

} // verus!
