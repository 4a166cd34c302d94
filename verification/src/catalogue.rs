use vstd::prelude::*;
use crate::domain::{
    entry_wf, lex_lt, name_eq, name_lt, EntryName, EntryView, PasswordEntry,
    lemma_lex_lt_connected,
};
use crate::codec::unique_names;

verus! {

/// Whether some entry of `es` carries the name `n`.
pub open spec fn has_name(es: Seq<EntryView>, n: Seq<char>) -> bool {
    exists|i: int| 0 <= i < es.len() && es[i].name == n
}

/// The index of the entry named `n`; meaningful only under `has_name` and
/// `unique_names`.
pub open spec fn idx_of(es: Seq<EntryView>, n: Seq<char>) -> int {
    choose|i: int| 0 <= i < es.len() && es[i].name == n
}

/// The entry named `n`.
pub open spec fn entry_of(es: Seq<EntryView>, n: Seq<char>) -> EntryView {
    es[idx_of(es, n)]
}

/// A well-formed catalogue: no repeated name, every entry valid.
pub open spec fn cat_wf(es: Seq<EntryView>) -> bool {
    unique_names(es) && forall|i: int| 0 <= i < es.len() ==> entry_wf(#[trigger] es[i])
}

/// Where a new name belongs in a sorted name list.
fn find_pos(out: &Vec<EntryName>, nm: &EntryName) -> (j: usize)
    requires
        !out.deep_view().contains(nm@),
        forall|p: int, q: int| 0 <= p < q < out@.len() ==> lex_lt(
            #[trigger] out.deep_view()[p],
            #[trigger] out.deep_view()[q],
        ),
    ensures
        j <= out@.len(),
        forall|p: int| 0 <= p < j ==> lex_lt(#[trigger] out.deep_view()[p], nm@),
        j < out@.len() ==> lex_lt(nm@, out.deep_view()[j as int]),
{
    let mut j: usize = 0;
    while j < out.len()
        invariant
            j <= out@.len(),
            !out.deep_view().contains(nm@),
            forall|p: int| 0 <= p < j ==> lex_lt(#[trigger] out.deep_view()[p], nm@),
        decreases out@.len() - j,
    {
        if name_lt(nm, &out[j]) {
            return j;
        }
        proof {
            assert(out.deep_view()[j as int] == out@[j as int]@);
            if out@[j as int]@ == nm@ {
                assert(out.deep_view().contains(nm@));
                assert(false);
            }
            lemma_lex_lt_connected(out@[j as int]@, nm@);
        }
        j = j + 1;
    }
    j
}

fn clone_entries(v: &Vec<PasswordEntry>) -> (r: Vec<PasswordEntry>)
    ensures
        r.deep_view() == v.deep_view(),
{
    let mut r: Vec<PasswordEntry> = Vec::new();
    let mut i: usize = 0;
    while i < v.len()
        invariant
            i <= v.len(),
            r@.len() == i,
            forall|j: int| 0 <= j < i ==> r@[j]@ == v@[j]@,
        decreases v.len() - i,
    {
        r.push(v[i].clone());
        i = i + 1;
    }
    proof {
        assert(r.deep_view() =~= v.deep_view());
    }
    r
}

/// The decrypted set of credential entries: a mapping from unique names to
/// entries, held in memory only while the session is unlocked.
pub struct Catalogue {
    entries: Vec<PasswordEntry>,
}

impl View for Catalogue {
    type V = Seq<EntryView>;

    closed spec fn view(&self) -> Seq<EntryView> {
        self.entries.deep_view()
    }
}

impl Clone for Catalogue {
    fn clone(&self) -> (r: Self)
        ensures
            r@ == self@,
    {
        Catalogue { entries: clone_entries(&self.entries) }
    }
}

impl Catalogue {
    pub open spec fn wf(&self) -> bool {
        cat_wf(self@)
    }

    pub fn new() -> (r: Self)
        ensures
            r@ == Seq::<EntryView>::empty(),
            r.wf(),
    {
        let r = Catalogue { entries: Vec::new() };
        proof {
            assert(r@ =~= Seq::<EntryView>::empty());
        }
        r
    }

    /// Rebuilds a catalogue from decoded entries. The caller guarantees
    /// both well-formedness and unique names (the decoder checks them).
    pub fn from_entries(v: Vec<PasswordEntry>) -> (r: Catalogue)
        requires
            forall|k: int| 0 <= k < v@.len() ==> entry_wf(#[trigger] v.deep_view()[k]),
            unique_names(v.deep_view()),
        ensures
            r@ == v.deep_view(),
            r.wf(),
    {
        Catalogue { entries: v }
    }

    /// Hands out the entries for encoding.
    pub fn entries(&self) -> (r: &Vec<PasswordEntry>)
        ensures
            r.deep_view() == self@,
    {
        &self.entries
    }

    pub fn len(&self) -> (r: usize)
        ensures
            r == self@.len(),
    {
        self.entries.len()
    }

    pub fn contains(&self, name: &EntryName) -> (r: bool)
        ensures
            r == has_name(self@, name@),
    {
        let mut i: usize = 0;
        while i < self.entries.len()
            invariant
                i <= self@.len(),
                self@.len() == self.entries@.len(),
                forall|k: int| 0 <= k < i ==> (#[trigger] self@[k]).name != name@,
            decreases self@.len() - i,
        {
            if name_eq(&self.entries[i].name, name) {
                proof {
                    assert(self@[i as int].name == name@);
                }
                return true;
            }
            i = i + 1;
        }
        false
    }

    /// Looks the entry up by name; the unique match is returned.
    pub fn get(&self, name: &EntryName) -> (r: Option<&PasswordEntry>)
        requires
            self.wf(),
        ensures
            match r {
                Some(e) => has_name(self@, name@) && e@ == entry_of(self@, name@),
                None => !has_name(self@, name@),
            },
    {
        let mut i: usize = 0;
        while i < self.entries.len()
            invariant
                i <= self@.len(),
                self@.len() == self.entries@.len(),
                self.wf(),
                forall|k: int| 0 <= k < i ==> (#[trigger] self@[k]).name != name@,
            decreases self@.len() - i,
        {
            if name_eq(&self.entries[i].name, name) {
                proof {
                    assert(self@[i as int].name == name@);
                    let j = idx_of(self@, name@);
                    assert(0 <= j < self@.len() && self@[j].name == name@);
                    if j != i as int {
                        assert(false);
                    }
                }
                return Some(&self.entries[i]);
            }
            i = i + 1;
        }
        None
    }

    /// Adds an entry under a name that is not present yet.
    pub fn insert_new(&mut self, e: PasswordEntry)
        requires
            old(self).wf(),
            entry_wf(e.deep_view()),
            !has_name(old(self)@, e.deep_view().name),
        ensures
            final (self)@ == old(self)@.push(e.deep_view()),
            final (self).wf(),
    {
        let ghost ev = e.deep_view();
        self.entries.push(e);
        proof {
            assert(self@ =~= old(self)@.push(ev));
            assert forall|x: int, y: int| 0 <= x < y < self@.len() implies self@[x].name
                != self@[y].name by {
                if y < self@.len() - 1 {
                } else {
                    assert(!has_name(old(self)@, ev.name));
                    assert(old(self)@[x].name != ev.name);
                }
            }
        }
    }

    /// Inserts or replaces by name.
    pub fn upsert(&mut self, e: PasswordEntry)
        requires
            old(self).wf(),
            entry_wf(e.deep_view()),
        ensures
            has_name(old(self)@, e.deep_view().name) ==> final (self)@ == old(self)@.update(
                idx_of(old(self)@, e.deep_view().name),
                e.deep_view(),
            ),
            !has_name(old(self)@, e.deep_view().name) ==> final (self)@ == old(self)@.push(
                e.deep_view(),
            ),
            final (self).wf(),
    {
        let ghost ev = e.deep_view();
        let mut i: usize = 0;
        while i < self.entries.len()
            invariant
                i <= self@.len(),
                self@.len() == self.entries@.len(),
                self.wf(),
                self == old(self),
                entry_wf(ev),
                ev == e.deep_view(),
                forall|k: int| 0 <= k < i ==> (#[trigger] self@[k]).name != ev.name,
            decreases self@.len() - i,
    {
            if name_eq(&self.entries[i].name, &e.name) {
                proof {
                    assert(self@[i as int].name == ev.name);
                    let j = idx_of(self@, ev.name);
                    assert(0 <= j < self@.len() && self@[j].name == ev.name);
                    if j != i as int {
                        assert(false);
                    }
                }
                self.entries.set(i, e);
                proof {
                    assert(self@ =~= old(self)@.update(i as int, ev));
                    assert forall|x: int, y: int| 0 <= x < y < self@.len() implies self@[x].name
                        != self@[y].name by {
                        assert(old(self)@[x].name != old(self)@[y].name);
                        assert(old(self)@[i as int].name == ev.name);
                    }
                }
                return ;
            }
            i = i + 1;
        }
        self.entries.push(e);
        proof {
            assert(self@ =~= old(self)@.push(ev));
            assert forall|x: int, y: int| 0 <= x < y < self@.len() implies self@[x].name
                != self@[y].name by {
                if y < self@.len() - 1 {
                } else {
                    assert(old(self)@[x].name != ev.name);
                }
            }
        }
    }

    /// Removes the entry with the given name, reporting whether it existed.
    pub fn remove_name(&mut self, name: &EntryName) -> (r: bool)
        requires
            old(self).wf(),
        ensures
            r == has_name(old(self)@, name@),
            r ==> final (self)@ == old(self)@.remove(idx_of(old(self)@, name@)),
            !r ==> final (self)@ == old(self)@,
            final (self).wf(),
    {
        let mut i: usize = 0;
        while i < self.entries.len()
            invariant
                i <= self@.len(),
                self@.len() == self.entries@.len(),
                self.wf(),
                self == old(self),
                forall|k: int| 0 <= k < i ==> (#[trigger] self@[k]).name != name@,
            decreases self@.len() - i,
        {
            if name_eq(&self.entries[i].name, name) {
                proof {
                    assert(self@[i as int].name == name@);
                    let j = idx_of(self@, name@);
                    assert(0 <= j < self@.len() && self@[j].name == name@);
                    if j != i as int {
                        assert(false);
                    }
                }
                self.entries.remove(i);
                proof {
                    assert(self@ =~= old(self)@.remove(i as int));
                    assert forall|x: int, y: int| 0 <= x < y < self@.len() implies self@[x].name
                        != self@[y].name by {
                        let ox = if x < i as int { x } else { x + 1 };
                        let oy = if y < i as int { y } else { y + 1 };
                        assert(self@[x] == old(self)@[ox]);
                        assert(self@[y] == old(self)@[oy]);
                        assert(old(self)@[ox].name != old(self)@[oy].name);
                    }
                }
                return true;
            }
            i = i + 1;
        }
        false
    }

    /// The names alone, in strictly ascending lexicographic order: what
    /// `list` shows, and never a secret.
    pub fn names_sorted(&self) -> (r: Vec<EntryName>)
        requires
            self.wf(),
        ensures
            r@.len() == self@.len(),
            forall|p: int, q: int| 0 <= p < q < r@.len() ==> lex_lt(
                #[trigger] r.deep_view()[p],
                #[trigger] r.deep_view()[q],
            ),
            forall|n: Seq<char>| #[trigger] has_name(self@, n) <==> r.deep_view().contains(n),
    {
        let mut out: Vec<EntryName> = Vec::new();
        let mut i: usize = 0;
        while i < self.entries.len()
            invariant
                i <= self@.len(),
                self@.len() == self.entries@.len(),
                self.wf(),
                out@.len() == i,
                forall|p: int, q: int| 0 <= p < q < out@.len() ==> lex_lt(
                    #[trigger] out.deep_view()[p],
                    #[trigger] out.deep_view()[q],
                ),
                forall|n: Seq<char>| (exists|k: int| 0 <= k < i && (#[trigger] self@[k]).name == n)
                    <==> #[trigger] out.deep_view().contains(n),
            decreases self@.len() - i,
        {
            let nm = self.entries[i].name.clone();
            let ghost nv = nm@;
            proof {
                assert(self@[i as int].name == nv);
                // the name is new: names before position i are all different
                assert(!out.deep_view().contains(nv)) by {
                    if out.deep_view().contains(nv) {
                        let k = choose|k: int| 0 <= k < i && (#[trigger] self@[k]).name == nv;
                        assert(self@[k].name != self@[i as int].name);
                    }
                }
            }
            let j = find_pos(&out, &nm);
            let ghost out_before = out.deep_view();
            let ghost jj = j as int;
            out.insert(j, nm);
            i = i + 1;
            proof {
                assert(out.deep_view() =~= out_before.insert(jj, nv));
                let dv = out.deep_view();
                assert forall|p: int, q: int| 0 <= p < q < dv.len() implies lex_lt(
                    #[trigger] dv[p],
                    #[trigger] dv[q],
                ) by {
                    let op = if p < jj { p } else { p - 1 };
                    let oq = if q < jj { q } else { q - 1 };
                    if p == jj {
                        // nv stands before a kept element, which sat at or
                        // after the insertion point
                        assert(dv[q] == out_before[oq]);
                        if oq < jj {
                            assert(false);
                        }
                        assert(lex_lt(nv, out_before[jj]));
                        if oq > jj {
                            crate::domain::lemma_lex_lt_trans(nv, out_before[jj], out_before[oq]);
                        }
                    } else if q == jj {
                        assert(dv[p] == out_before[op]);
                    } else {
                        assert(dv[p] == out_before[op]);
                        assert(dv[q] == out_before[oq]);
                    }
                }
                assert forall|n: Seq<char>| (exists|k: int|
                    0 <= k < i && (#[trigger] self@[k]).name == n) <==> #[trigger] dv.contains(n) by {
                    if exists|k: int| 0 <= k < i && (#[trigger] self@[k]).name == n {
                        let k = choose|k: int| 0 <= k < i && (#[trigger] self@[k]).name == n;
                        if k == i - 1 {
                            assert(dv[jj] == n);
                        } else {
                            assert(out_before.contains(n));
                            let m = choose|m: int| 0 <= m < out_before.len() && out_before[m] == n;
                            if m < jj {
                                assert(dv[m] == n);
                            } else {
                                assert(dv[m + 1] == n);
                            }
                        }
                    }
                    if dv.contains(n) {
                        let m = choose|m: int| 0 <= m < dv.len() && dv[m] == n;
                        if m == jj {
                            assert(self@[i - 1].name == n);
                        } else {
                            let om = if m < jj { m } else { m - 1 };
                            assert(out_before[om] == n);
                            assert(out_before.contains(n));
                        }
                    }
                }
            }
        }
        out
    }
}

} // verus!
