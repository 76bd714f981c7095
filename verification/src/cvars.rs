//! The cvar overrides a server carries between level loads: every `+set`
//! on the command line and every rotation token, by name, replayed last
//! when a level's cvar table is built, so the last write to a name wins.

use vstd::prelude::*;
use crate::search::{first_index, lemma_first_index, lemma_first_index_agree};
use crate::text::str_eq;

verus! {

/// The overrides as name and value character sequences, in first-written
/// order.
pub open spec fn entries_view(v: Seq<(String, String)>) -> Seq<(Seq<char>, Seq<char>)> {
    Seq::new(v.len(), |i: int| (v[i].0@, v[i].1@))
}

/// Entries named `name`.
pub open spec fn name_pred(t: Seq<(Seq<char>, Seq<char>)>, name: Seq<char>) -> spec_fn(int) -> bool {
    |i: int| t[i].0 == name
}

/// The first entry named `name`.
pub open spec fn find_name(t: Seq<(Seq<char>, Seq<char>)>, name: Seq<char>) -> Option<int> {
    first_index(t.len() as int, name_pred(t, name), 0)
}

/// The value an override list gives `name`, if it names it.
pub open spec fn lookup(t: Seq<(Seq<char>, Seq<char>)>, name: Seq<char>) -> Option<Seq<char>> {
    match find_name(t, name) {
        Some(i) => Some(t[i].1),
        None => None,
    }
}

/// The list after a write: in place when the name is already there, else
/// appended.
pub open spec fn set_of(t: Seq<(Seq<char>, Seq<char>)>, name: Seq<char>, value: Seq<char>) -> Seq<
    (Seq<char>, Seq<char>),
> {
    match find_name(t, name) {
        Some(i) => t.update(i, (name, value)),
        None => t.push((name, value)),
    }
}

/// The cvar overrides.
pub struct CvarOverrides {
    entries: Vec<(String, String)>,
}

impl View for CvarOverrides {
    type V = Seq<(Seq<char>, Seq<char>)>;

    closed spec fn view(&self) -> Seq<(Seq<char>, Seq<char>)> {
        entries_view(self.entries@)
    }
}

impl CvarOverrides {
    /// No overrides.
    pub fn new() -> (r: CvarOverrides)
        ensures
            r@ == Seq::<(Seq<char>, Seq<char>)>::empty(),
    {
        let r = CvarOverrides { entries: Vec::new() };
        assert(r@ =~= Seq::<(Seq<char>, Seq<char>)>::empty());
        r
    }

    /// How many names are overridden.
    pub fn len(&self) -> (r: usize)
        ensures
            r == self@.len(),
    {
        self.entries.len()
    }

    fn find(&self, name: &str) -> (r: Option<usize>)
        ensures
            match r {
                Some(i) => find_name(self@, name@) == Some(i as int),
                None => find_name(self@, name@) is None,
            },
    {
        let ghost p = name_pred(self@, name@);
        let mut i: usize = 0;
        while i < self.entries.len()
            invariant
                i <= self@.len(),
                p == name_pred(self@, name@),
                forall|j: int| 0 <= j < i ==> !#[trigger] p(j),
            decreases self@.len() - i,
        {
            if str_eq(self.entries[i].0.as_str(), name) {
                proof {
                    assert(p(i as int));
                    lemma_first_index(self@.len() as int, p, 0);
                }
                return Some(i);
            }
            i = i + 1;
        }
        proof {
            lemma_first_index(self@.len() as int, p, 0);
        }
        None
    }

    /// `set_cvar`'s record of a write: the last write to a name wins, and a
    /// name written again does not grow the list.
    pub fn set(&mut self, name: &str, value: &str)
        ensures
            final(self)@ == set_of(old(self)@, name@, value@),
    {
        let ghost before = self@;
        match self.find(name) {
            Some(i) => {
                proof {
                    lemma_first_index(before.len() as int, name_pred(before, name@), 0);
                }
                self.entries.set(i, (name.to_string(), value.to_string()));
                assert(self@ =~= before.update(i as int, (name@, value@)));
            },
            None => {
                self.entries.push((name.to_string(), value.to_string()));
                assert(self@ =~= before.push((name@, value@)));
            },
        }
    }

    /// What the next level load stamps for `name`: its override if one
    /// names it, else the configuration's own value.
    pub fn pending(&self, name: &str, from_cfg: &str) -> (r: String)
        ensures
            r@ == match lookup(self@, name@) {
                Some(v) => v,
                None => from_cfg@,
            },
    {
        match self.find(name) {
            Some(i) => {
                proof {
                    lemma_first_index(self@.len() as int, name_pred(self@, name@), 0);
                }
                self.entries[i].1.clone()
            },
            None => from_cfg.to_string(),
        }
    }
}

/// A write is what the next read of that name gives back, every other
/// name reads as before, and the list grows only for a name it did not
/// hold.
pub proof fn law_the_last_write_to_a_name_wins(
    t: Seq<(Seq<char>, Seq<char>)>,
    name: Seq<char>,
    value: Seq<char>,
    other: Seq<char>,
)
    requires
        other != name,
    ensures
        lookup(set_of(t, name, value), name) == Some(value),
        lookup(set_of(t, name, value), other) == lookup(t, other),
        set_of(t, name, value).len() == t.len() + if lookup(t, name) is Some {
            0int
        } else {
            1int
        },
{
    let t1 = set_of(t, name, value);
    let pn = name_pred(t, name);
    let po = name_pred(t, other);
    let qn = name_pred(t1, name);
    let qo = name_pred(t1, other);
    lemma_first_index(t.len() as int, pn, 0);
    lemma_first_index(t1.len() as int, qn, 0);
    match find_name(t, name) {
        Some(i) => {
            assert(t1 == t.update(i, (name, value)));
            assert forall|j: int| 0 <= j < t.len() && j != i implies t1[j] == t[j] by {}
            assert forall|j: int| 0 <= j < i implies !#[trigger] qn(j) by {
                assert(t1[j] == t[j]);
                assert(!pn(j));
            }
            assert(qn(i));
            assert forall|j: int| 0 <= j < t.len() implies #[trigger] po(j) == qo(j) by {
                if j != i {
                    assert(t1[j] == t[j]);
                }
            }
            lemma_first_index_agree(t.len() as int, t1.len() as int, po, qo, 0);
            lemma_first_index(t.len() as int, po, 0);
            if let Some(k) = find_name(t, other) {
                assert(k != i);
                assert(t1[k] == t[k]);
            }
        },
        None => {
            let k = t.len() as int;
            assert(t1 == t.push((name, value)));
            assert forall|j: int| 0 <= j < k implies !#[trigger] qn(j) by {
                assert(t1[j] == t[j]);
                assert(!pn(j));
            }
            assert(qn(k));
            assert forall|j: int| 0 <= j < t.len() implies #[trigger] po(j) == qo(j) by {
                assert(t1[j] == t[j]);
            }
            assert(!qo(k));
            lemma_first_index_agree(t.len() as int, t1.len() as int, po, qo, 0);
            lemma_first_index(t.len() as int, po, 0);
            if let Some(m) = find_name(t, other) {
                assert(t1[m] == t[m]);
            }
        },
    }
}

} // verus!
