use vstd::prelude::*;

use crate::entry::{base_name, DesktopEntry, EntryModel};
use crate::order::{is_stable_order, positions, stable_order};
use crate::text::{chars_of, last_index_of, same_chars, slice_of};

verus! {

/// A parsed record, in discovery order, with whether its command looked valid.
pub struct Candidate {
    pub entry: DesktopEntry,
    pub command_valid: bool,
}

pub struct CandidateModel {
    pub entry: EntryModel,
    pub valid: bool,
}

impl View for Candidate {
    type V = CandidateModel;

    open spec fn view(&self) -> CandidateModel {
        CandidateModel { entry: self.entry@, valid: self.command_valid }
    }
}

/// Two records are the same application when their files share a base name.
pub open spec fn identity(e: EntryModel) -> Seq<char> {
    base_name(e.path)
}

/// The launcher's own descriptor, never listed.
pub open spec fn own_identity() -> Seq<char> {
    "access-launcher.desktop"@
}

/// Whether candidate `i` is the one kept for its identity: the first with a
/// valid command, or, when none of them has one, the first of all.
pub open spec fn wins(c: Seq<CandidateModel>, i: int) -> bool {
    let id = identity(c[i].entry);
    &&& id != own_identity()
    &&& if c[i].valid {
        forall|j: int| 0 <= j < i && identity(c[j].entry) == id ==> !c[j].valid
    } else {
        &&& forall|j: int| 0 <= j < i ==> identity(c[j].entry) != id
        &&& forall|j: int| 0 <= j < c.len() && identity(c[j].entry) == id ==> !c[j].valid
    }
}

/// The positions below `n` of the candidates kept, in discovery order.
pub open spec fn winners_upto(c: Seq<CandidateModel>, n: int) -> Seq<int>
    decreases n,
{
    if n <= 0 {
        seq![]
    } else {
        let w = winners_upto(c, n - 1);
        if wins(c, n - 1) {
            w.push(n - 1)
        } else {
            w
        }
    }
}

/// The records kept, in discovery order.
pub open spec fn kept(c: Seq<CandidateModel>) -> Seq<EntryModel> {
    winners_upto(c, c.len() as int).map_values(|k: int| c[k].entry)
}

pub open spec fn names(e: Seq<EntryModel>) -> Seq<Seq<char>> {
    e.map_values(|x: EntryModel| x.name)
}

pub open spec fn candidate_views(c: Seq<Candidate>) -> Seq<CandidateModel> {
    c.map_values(|x: Candidate| x@)
}

pub open spec fn entry_views(e: Seq<DesktopEntry>) -> Seq<EntryModel> {
    e.map_values(|x: DesktopEntry| x@)
}

/// `r` is `e` sorted by display name ignoring ASCII case, equal names keeping
/// their order in `e`.
pub open spec fn sorted_by_name(e: Seq<EntryModel>, r: Seq<EntryModel>) -> bool {
    exists|p: Seq<int>|
        is_stable_order(names(e), p) && r.len() == p.len() && forall|i: int|
            0 <= i < r.len() ==> r[i] == e[p[i]]
}

pub fn base_name_chars(path: &Vec<char>) -> (r: Vec<char>)
    ensures
        r@ == base_name(path@),
{
    let start = match last_index_of(path, '/') {
        Some(i) => i + 1,
        None => 0,
    };
    slice_of(path, start, path.len())
}

/// The final list of records: one per identity (the first with a valid
/// command, else the first found), the launcher's own descriptor left out,
/// sorted by display name ignoring ASCII case and stable for equal names.
pub fn select_entries(candidates: &Vec<Candidate>) -> (r: Vec<DesktopEntry>)
    ensures
        sorted_by_name(kept(candidate_views(candidates@)), entry_views(r@)),
{
    let ghost c = candidate_views(candidates@);
    let n = candidates.len();
    let own = chars_of("access-launcher.desktop");
    let mut ids: Vec<Vec<char>> = Vec::new();
    let mut i: usize = 0;
    while i < n
        invariant
            n == candidates.len(),
            c == candidate_views(candidates@),
            i <= n,
            ids.len() == i,
            forall|k: int| 0 <= k < i ==> (#[trigger] ids@[k])@ == identity(c[k].entry),
        decreases n - i,
    {
        ids.push(base_name_chars(&chars_of(candidates[i].entry.path.as_str())));
        i = i + 1;
    }
    let mut pre: Vec<DesktopEntry> = Vec::new();
    let mut keys: Vec<Vec<char>> = Vec::new();
    let ghost mut w: Seq<int> = seq![];
    i = 0;
    while i < n
        invariant
            n == candidates.len(),
            c == candidate_views(candidates@),
            own@ == own_identity(),
            i <= n,
            ids.len() == n,
            forall|k: int| 0 <= k < n ==> (#[trigger] ids@[k])@ == identity(c[k].entry),
            w == winners_upto(c, i as int),
            entry_views(pre@) == w.map_values(|k: int| c[k].entry),
            keys@.map_values(|k: Vec<char>| k@) == names(entry_views(pre@)),
        decreases n - i,
    {
        let valid = candidates[i].command_valid;
        let mut earlier_same = false;
        let mut earlier_valid = false;
        let mut any_valid = false;
        let mut j: usize = 0;
        while j < n
            invariant
                n == candidates.len(),
                c == candidate_views(candidates@),
                i < n,
                j <= n,
                ids.len() == n,
                forall|k: int| 0 <= k < n ==> (#[trigger] ids@[k])@ == identity(c[k].entry),
                earlier_same == exists|k: int|
                    0 <= k < j && k < i && identity(c[k].entry) == identity(c[i as int].entry),
                earlier_valid == exists|k: int|
                    0 <= k < j && k < i && identity(c[k].entry) == identity(c[i as int].entry)
                        && c[k].valid,
                any_valid == exists|k: int|
                    0 <= k < j && identity(c[k].entry) == identity(c[i as int].entry)
                        && c[k].valid,
            decreases n - j,
        {
            if same_chars(&ids[j], &ids[i]) {
                if j < i {
                    earlier_same = true;
                    if candidates[j].command_valid {
                        earlier_valid = true;
                    }
                }
                if candidates[j].command_valid {
                    any_valid = true;
                }
            }
            j = j + 1;
        }
        let not_own = !same_chars(&ids[i], &own);
        let win = not_own && if valid {
            !earlier_valid
        } else {
            !earlier_same && !any_valid
        };
        assert(win == wins(c, i as int));
        if win {
            let ghost before = pre@;
            let ghost kbefore = keys@;
            let e = candidates[i].entry.duplicate();
            keys.push(chars_of(e.name.as_str()));
            pre.push(e);
            proof {
                w = w.push(i as int);
                assert(entry_views(pre@) =~= entry_views(before).push(c[i as int].entry));
                assert(keys@.map_values(|k: Vec<char>| k@) =~= kbefore.map_values(
                    |k: Vec<char>| k@,
                ).push(c[i as int].entry.name));
                assert(names(entry_views(pre@)) =~= names(entry_views(before)).push(
                    c[i as int].entry.name,
                ));
            }
        }
        assert(w.map_values(|k: int| c[k].entry) =~= winners_upto(c, i + 1).map_values(
            |k: int| c[k].entry,
        ));
        i = i + 1;
    }
    let order = stable_order(&keys);
    let ghost e = entry_views(pre@);
    let mut r: Vec<DesktopEntry> = Vec::new();
    let mut t: usize = 0;
    while t < order.len()
        invariant
            e == entry_views(pre@),
            is_stable_order(names(e), positions(order@)),
            t <= order.len(),
            r.len() == t,
            forall|k: int| 0 <= k < t ==> (#[trigger] r@[k])@ == e[order@[k] as int],
        decreases order.len() - t,
    {
        assert(positions(order@)[t as int] == order@[t as int] as int);
        r.push(pre[order[t]].duplicate());
        t = t + 1;
    }
    assert(e == kept(c));
    assert(forall|k: int| 0 <= k < r.len() ==> entry_views(r@)[k] == e[positions(order@)[k]]);
    r
}

} // verus!
