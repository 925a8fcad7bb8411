//! A full-screen fuzzy selector: a query line, the items that match it,
//! optionally ordered by one of several sort modes, and a selection.
//!
//! Which items match a query is the caller's business (it renders and
//! filters its own items); the selector keeps the query, the filtered
//! indices in order, the selection and the sort mode.

use vstd::prelude::*;

use crate::tui_app::{Key, KeyCode, Mods};

verus! {

broadcast use vstd::seq_lib::to_multiset_insert, vstd::seq_lib::to_multiset_build;

/// An order of the items by a key: ascending or descending, items without a
/// key last, equal keys in their previous order.
#[derive(Debug, Clone)]
pub struct SortMode {
    pub name: String,
    pub descending: bool,
}

/// Key `a` sorts strictly before key `b`.
pub open spec fn key_lt(a: Option<i64>, b: Option<i64>, desc: bool) -> bool {
    match (a, b) {
        (Some(x), Some(y)) => if desc {
            y < x
        } else {
            x < y
        },
        (Some(_), None) => true,
        _ => false,
    }
}

/// Entry `a` (key, previous position) sorts before entry `b`.
pub open spec fn entry_before(a: (Option<i64>, usize), b: (Option<i64>, usize), desc: bool) -> bool {
    key_lt(a.0, b.0, desc) || (a.0 == b.0 && a.1 < b.1)
}

/// Sorted without ties.
pub open spec fn sorted_entries(s: Seq<(Option<i64>, usize)>, desc: bool) -> bool {
    forall|i: int, j: int| 0 <= i < j < s.len() ==> entry_before(#[trigger] s[i], #[trigger] s[j], desc)
}

/// The entries of a list of indices: each index's key and its position.
pub open spec fn entries_of(idx: Seq<usize>, keys: Seq<Option<i64>>) -> Seq<(Option<i64>, usize)> {
    Seq::new(idx.len(), |p: int| (keys[idx[p] as int], p as usize))
}

fn key_lt_exec(a: Option<i64>, b: Option<i64>, desc: bool) -> (r: bool)
    ensures
        r == key_lt(a, b, desc),
{
    match (a, b) {
        (Some(x), Some(y)) => if desc {
            y < x
        } else {
            x < y
        },
        (Some(_), None) => true,
        _ => false,
    }
}

/// Sort entries (key, position) by key, positions breaking ties.
fn sort_entries(inp: &Vec<(Option<i64>, usize)>, desc: bool) -> (r: Vec<(Option<i64>, usize)>)
    requires
        forall|i: int, j: int| 0 <= i < j < inp@.len() ==> (#[trigger] inp@[i]).1 < (#[trigger] inp@[j]).1,
    ensures
        r@.to_multiset() == inp@.to_multiset(),
        sorted_entries(r@, desc),
{
    let mut out: Vec<(Option<i64>, usize)> = Vec::new();
    let mut i: usize = 0;
    assert(out@ =~= inp@.take(0));
    while i < inp.len()
        invariant
            i <= inp.len(),
            forall|a: int, b: int| 0 <= a < b < inp@.len() ==> (#[trigger] inp@[a]).1 < (#[trigger] inp@[b]).1,
            out@.to_multiset() == inp@.take(i as int).to_multiset(),
            sorted_entries(out@, desc),
            forall|k: int| 0 <= k < out@.len() ==> exists|a: int| 0 <= a < i && (#[trigger] out@[k]) == inp@[a],
        decreases inp.len() - i,
    {
        let x = inp[i];
        let mut p: usize = 0;
        while p < out.len() && !key_lt_exec(x.0, out[p].0, desc)
            invariant
                p <= out.len(),
                forall|k: int| 0 <= k < p ==> !key_lt(x.0, (#[trigger] out@[k]).0, desc),
            decreases out.len() - p,
        {
            p = p + 1;
        }
        proof {
            assert forall|k: int| 0 <= k < p implies entry_before(#[trigger] out@[k], x, desc) by {
                let a = choose|a: int| 0 <= a < i && out@[k] == inp@[a];
                assert(inp@[a].1 < inp@[i as int].1);
            }
            assert forall|k: int| p <= k < out@.len() implies entry_before(x, #[trigger] out@[k], desc) by {
                assert(key_lt(x.0, out@[p as int].0, desc));
                if k > p {
                    assert(entry_before(out@[p as int], out@[k], desc));
                }
            }
        }
        let ghost before = out@;
        out.insert(p, x);
        proof {
            assert(inp@.take(i + 1) =~= inp@.take(i as int).push(x));
            assert forall|a: int, b: int| 0 <= a < b < out@.len() implies entry_before(
                #[trigger] out@[a],
                #[trigger] out@[b],
                desc,
            ) by {
                if b < p {
                    assert(out@[a] == before[a] && out@[b] == before[b]);
                } else if b == p {
                    assert(out@[a] == before[a]);
                } else if a == p {
                    assert(out@[b] == before[b - 1]);
                } else if a < p {
                    assert(out@[a] == before[a] && out@[b] == before[b - 1]);
                } else {
                    assert(out@[a] == before[a - 1] && out@[b] == before[b - 1]);
                }
            }
            assert forall|k: int| 0 <= k < out@.len() implies exists|a: int|
                0 <= a < i + 1 && (#[trigger] out@[k]) == inp@[a] by {
                if k < p {
                    assert(out@[k] == before[k]);
                } else if k == p {
                    assert(out@[k] == inp@[i as int]);
                } else {
                    assert(out@[k] == before[k - 1]);
                }
            }
        }
        i = i + 1;
    }
    assert(inp@.take(inp.len() as int) =~= inp@);
    out
}

/// `idx` reordered by the keys of its items: `r[k] == idx[order[k].1]` for
/// an order of the entries that is sorted (key, then previous position).
pub open spec fn is_sorted_by_key(idx: Seq<usize>, keys: Seq<Option<i64>>, desc: bool, r: Seq<usize>) -> bool {
    exists|order: Seq<(Option<i64>, usize)>|
        {
            &&& order.to_multiset() == entries_of(idx, keys).to_multiset()
            &&& sorted_entries(order, desc)
            &&& order.len() == r.len()
            &&& forall|k: int|
                0 <= k < order.len() ==> (#[trigger] order[k]).1 < idx.len() && r[k] == idx[order[k].1 as int]
        }
}

/// Reorder `idx` by the keys of its items (`keys[i]` is item `i`'s key),
/// stably: items with equal keys keep their order.
pub fn sort_by_key(idx: &Vec<usize>, keys: &Vec<Option<i64>>, desc: bool) -> (r: Vec<usize>)
    requires
        forall|k: int| 0 <= k < idx@.len() ==> (#[trigger] idx@[k]) < keys@.len(),
    ensures
        is_sorted_by_key(idx@, keys@, desc, r@),
        r@.len() == idx@.len(),
        forall|k: int| 0 <= k < r@.len() ==> (#[trigger] r@[k]) < keys@.len(),
{
    let mut entries: Vec<(Option<i64>, usize)> = Vec::new();
    let mut p: usize = 0;
    while p < idx.len()
        invariant
            p <= idx.len(),
            forall|k: int| 0 <= k < idx@.len() ==> (#[trigger] idx@[k]) < keys@.len(),
            entries@ == entries_of(idx@, keys@).take(p as int),
        decreases idx.len() - p,
    {
        entries.push((keys[idx[p]], p));
        assert(entries@ =~= entries_of(idx@, keys@).take(p + 1));
        p = p + 1;
    }
    assert(entries@ =~= entries_of(idx@, keys@));
    let order = sort_entries(&entries, desc);
    let mut out: Vec<usize> = Vec::new();
    let mut k: usize = 0;
    while k < order.len()
        invariant
            k <= order.len(),
            order@.to_multiset() == entries@.to_multiset(),
            entries@ == entries_of(idx@, keys@),
            idx@.len() <= usize::MAX,
            out@.len() == k,
            forall|j: int| 0 <= j < k ==> (#[trigger] order@[j]).1 < idx@.len() && out@[j] == idx@[order@[j].1 as int],
            forall|j: int| 0 <= j < idx@.len() ==> (#[trigger] idx@[j]) < keys@.len(),
            forall|j: int| 0 <= j < k ==> (#[trigger] out@[j]) < keys@.len(),
        decreases order.len() - k,
    {
        proof {
            vstd::seq_lib::to_multiset_contains(order@, order@[k as int]);
            vstd::seq_lib::to_multiset_contains(entries@, order@[k as int]);
            assert(order@.contains(order@[k as int]));
            let w = choose|w: int| 0 <= w < entries@.len() && entries@[w] == order@[k as int];
            assert(entries_of(idx@, keys@)[w] == (keys@[idx@[w] as int], w as usize));
            assert(entries@[w].1 == w);
        }
        out.push(idx[order[k].1]);
        k = k + 1;
    }
    proof {
        vstd::seq_lib::to_multiset_len(order@);
        vstd::seq_lib::to_multiset_len(entries@);
    }
    out
}

// ───────────────────────────── the selector ─────────────────────────────

/// A fuzzy selector over `item_count` items.
#[derive(Debug, Clone)]
pub struct FuzzySelect {
    pub item_count: usize,
    pub sort_modes: Vec<SortMode>,
    pub prompt: String,
}

/// The state of a running selection.
#[derive(Debug, Clone)]
pub struct SelectState {
    pub query: String,
    /// The matching items, in display order.
    pub filtered: Vec<usize>,
    pub selected: usize,
    pub sort_idx: usize,
}

/// What the caller does after a key.
#[derive(Debug, Clone, Copy, PartialEq, Eq, Structural)]
pub enum SelectStep {
    /// Redraw and wait for the next key.
    Continue,
    /// The query changed: compute which items match it and call `refilter`.
    Refilter,
    /// The selection ended: the chosen item, or none.
    Done(Option<usize>),
}

/// The indices `0..n` for which `matches` holds (all of them when `all`).
pub open spec fn matching(n: nat, matches: Seq<bool>, all: bool) -> Seq<usize>
    decreases n,
{
    if n == 0 {
        seq![]
    } else {
        let prev = matching((n - 1) as nat, matches, all);
        if all || matches[n - 1] {
            prev.push((n - 1) as usize)
        } else {
            prev
        }
    }
}

/// A running selection is well formed: the selected row is shown (or
/// nothing is), every shown entry is an item, and the sort mode exists.
pub open spec fn select_valid(sel: FuzzySelect, st: SelectState) -> bool {
    &&& st.selected < st.filtered@.len() || st.filtered@.len() == 0
    &&& forall|k: int| 0 <= k < st.filtered@.len() ==> (#[trigger] st.filtered@[k]) < sel.item_count
    &&& st.sort_idx < sel.sort_modes@.len() || sel.sort_modes@.len() == 0
}

/// A state about to be refiltered: the first row selected, the sort mode
/// existing.
pub open spec fn refilter_ready(sel: FuzzySelect, st: SelectState) -> bool {
    st.selected == 0 && (st.sort_idx < sel.sort_modes@.len() || sel.sort_modes@.len() == 0)
}

/// One turn of the selection loop keeps the selection well formed: a key
/// leaves it well formed, or asks for a refilter from a state the refilter
/// makes well formed.
pub proof fn law_selection_stays_valid(
    sel: FuzzySelect,
    after_key: SelectState,
    after_refilter: SelectState,
    r: SelectStep,
)
    requires
        r != SelectStep::Refilter ==> select_valid(sel, after_key),
        r == SelectStep::Refilter ==> refilter_ready(sel, after_key),
        refilter_ready(sel, after_key) ==> select_valid(sel, after_refilter),
    ensures
        select_valid(sel, if r == SelectStep::Refilter { after_refilter } else { after_key }),
{
}

impl FuzzySelect {
    /// A selector over `item_count` items, no sort modes, prompt `>`.
    pub fn new(item_count: usize) -> (r: FuzzySelect)
        ensures
            r.item_count == item_count,
            r.sort_modes@.len() == 0,
            r.prompt@ == ">"@,
    {
        FuzzySelect { item_count, sort_modes: Vec::new(), prompt: crate::strs::owned(">") }
    }

    /// The same selector with these sort modes (Tab cycles through them).
    pub fn with_sort_modes(self, modes: Vec<SortMode>) -> (r: FuzzySelect)
        ensures
            r.sort_modes@ == modes@,
            r.item_count == self.item_count,
            r.prompt == self.prompt,
    {
        FuzzySelect { item_count: self.item_count, sort_modes: modes, prompt: self.prompt }
    }

    /// The same selector with this prompt.
    pub fn with_prompt(self, p: &str) -> (r: FuzzySelect)
        ensures
            r.prompt@ == p@,
            r.item_count == self.item_count,
            r.sort_modes == self.sort_modes,
    {
        FuzzySelect { item_count: self.item_count, sort_modes: self.sort_modes, prompt: crate::strs::owned(p) }
    }

    /// Keep the items of `matches` (every item while the query is empty), in
    /// item order, then sort them by the current mode if there is one.
    pub fn refilter(&self, st: &mut SelectState, matches: &Vec<bool>, keys: &Vec<Option<i64>>)
        requires
            matches@.len() == self.item_count,
            keys@.len() == self.item_count,
            old(st).sort_idx < self.sort_modes@.len() || self.sort_modes@.len() == 0,
        ensures
            final(st).query == old(st).query,
            final(st).selected == old(st).selected,
            final(st).sort_idx == old(st).sort_idx,
            self.sort_modes@.len() == 0 ==> final(st).filtered@ == matching(
                self.item_count as nat,
                matches@,
                old(st).query@.len() == 0,
            ),
            self.sort_modes@.len() > 0 ==> is_sorted_by_key(
                matching(self.item_count as nat, matches@, old(st).query@.len() == 0),
                keys@,
                self.sort_modes@[old(st).sort_idx as int].descending,
                final(st).filtered@,
            ),
            refilter_ready(*self, *old(st)) ==> select_valid(*self, *final(st)),
    {
        let all = st.query.as_str().is_empty();
        let mut f: Vec<usize> = Vec::new();
        let mut i: usize = 0;
        while i < self.item_count
            invariant
                i <= self.item_count,
                matches@.len() == self.item_count,
                f@ == matching(i as nat, matches@, all),
                forall|k: int| 0 <= k < f@.len() ==> (#[trigger] f@[k]) < i,
            decreases self.item_count - i,
        {
            if all || matches[i] {
                f.push(i);
            }
            i = i + 1;
        }
        if self.sort_modes.len() > 0 {
            let desc = self.sort_modes[st.sort_idx].descending;
            let sorted = sort_by_key(&f, keys, desc);
            proof {
                let order = choose|order: Seq<(Option<i64>, usize)>|
                    {
                        &&& order.to_multiset() == entries_of(f@, keys@).to_multiset()
                        &&& sorted_entries(order, desc)
                        &&& order.len() == sorted@.len()
                        &&& forall|k: int|
                            0 <= k < order.len() ==> (#[trigger] order[k]).1 < f@.len() && sorted@[k]
                                == f@[order[k].1 as int]
                    };
                assert forall|k: int| 0 <= k < sorted@.len() implies (#[trigger] sorted@[k])
                    < self.item_count by {
                    assert(order[k].1 < f@.len());
                }
            }
            st.filtered = sorted;
        } else {
            st.filtered = f;
        }
    }

    /// One key of a running selection: Ctrl-c and Esc cancel, Enter picks
    /// the selected item (none when nothing matches), typing and Backspace
    /// edit the query, Up/Down move cyclically, Tab switches to the next
    /// sort mode and resorts the shown items.
    pub fn on_key(&self, st: &mut SelectState, key: Key, keys: &Vec<Option<i64>>) -> (r: SelectStep)
        requires
            old(st).selected < old(st).filtered@.len() || old(st).filtered@.len() == 0,
            keys@.len() == self.item_count,
            forall|k: int| 0 <= k < old(st).filtered@.len() ==> (#[trigger] old(st).filtered@[k]) < self.item_count,
            old(st).sort_idx < self.sort_modes@.len() || self.sort_modes@.len() == 0,
        ensures
            (key.code == KeyCode::Char('c') && (key.mods == Mods::Control || key.mods == Mods::ControlPlus))
                || key.code == KeyCode::Esc ==> r == SelectStep::Done(None),
            key.code == KeyCode::Enter ==> r == SelectStep::Done(
                if old(st).filtered@.len() == 0 {
                    None
                } else {
                    Some(old(st).filtered@[old(st).selected as int])
                },
            ),
            final(st).sort_idx < self.sort_modes@.len() || self.sort_modes@.len() == 0,
            forall|k: int| 0 <= k < final(st).filtered@.len() ==> (#[trigger] final(st).filtered@[k]) < self.item_count,
            final(st).selected < final(st).filtered@.len() || final(st).filtered@.len() == 0 || r
                == SelectStep::Refilter,
            r != SelectStep::Refilter ==> select_valid(*self, *final(st)),
            r == SelectStep::Refilter ==> refilter_ready(*self, *final(st)),
            key.code == KeyCode::Down && old(st).filtered@.len() > 0 ==> final(st).selected == (old(
                st,
            ).selected + 1) % (old(st).filtered@.len() as int),
            key.code == KeyCode::Up && old(st).filtered@.len() > 0 ==> final(st).selected == if old(
                st,
            ).selected == 0 {
                (old(st).filtered@.len() - 1) as usize
            } else {
                (old(st).selected - 1) as usize
            },
            (key.code == KeyCode::Down || key.code == KeyCode::Up) ==> final(st).filtered == old(st).filtered
                && final(st).query == old(st).query && r == SelectStep::Continue,
            (key.code is Char && !(key.code == KeyCode::Char('c') && (key.mods == Mods::Control
                || key.mods == Mods::ControlPlus))) ==> {
                &&& final(st).query@ == old(st).query@.push(key.code->Char_0)
                &&& final(st).selected == 0
                &&& final(st).filtered == old(st).filtered
                &&& final(st).sort_idx == old(st).sort_idx
                &&& r == SelectStep::Refilter
            },
            key.code == KeyCode::Backspace ==> {
                &&& final(st).query@ == if old(st).query@.len() > 0 {
                    old(st).query@.drop_last()
                } else {
                    old(st).query@
                }
                &&& final(st).selected == 0
                &&& final(st).filtered == old(st).filtered
                &&& final(st).sort_idx == old(st).sort_idx
                &&& r == SelectStep::Refilter
            },
            key.code == KeyCode::Tab ==> {
                &&& r == SelectStep::Continue
                &&& final(st).query == old(st).query
                &&& self.sort_modes@.len() == 0 ==> *final(st) == *old(st)
                &&& self.sort_modes@.len() > 0 ==> {
                    &&& final(st).sort_idx == (old(st).sort_idx + 1) % (self.sort_modes@.len() as int)
                    &&& final(st).selected == 0
                    &&& is_sorted_by_key(
                        old(st).filtered@,
                        keys@,
                        self.sort_modes@[final(st).sort_idx as int].descending,
                        final(st).filtered@,
                    )
                }
            },
            !(key.code is Char || key.code == KeyCode::Esc || key.code == KeyCode::Enter || key.code
                == KeyCode::Backspace || key.code == KeyCode::Down || key.code == KeyCode::Up
                || key.code == KeyCode::Tab) ==> *final(st) == *old(st) && r == SelectStep::Continue,
    {
        let c = key.code;
        if c == KeyCode::Char('c') && (key.mods == Mods::Control || key.mods == Mods::ControlPlus) {
            return SelectStep::Done(None);
        }
        match c {
            KeyCode::Esc => SelectStep::Done(None),
            KeyCode::Enter => {
                if st.filtered.len() == 0 {
                    SelectStep::Done(None)
                } else {
                    SelectStep::Done(Some(st.filtered[st.selected]))
                }
            },
            KeyCode::Char(ch) => {
                crate::strs::push_char(&mut st.query, ch);
                st.selected = 0;
                SelectStep::Refilter
            },
            KeyCode::Backspace => {
                let v = crate::strs::chars_of(st.query.as_str());
                if v.len() > 0 {
                    st.query = crate::strs::string_of_range(&v, 0, v.len() - 1);
                }
                st.selected = 0;
                SelectStep::Refilter
            },
            KeyCode::Down => {
                if st.filtered.len() > 0 {
                    st.selected = (st.selected + 1) % st.filtered.len();
                }
                SelectStep::Continue
            },
            KeyCode::Up => {
                if st.filtered.len() > 0 {
                    st.selected = if st.selected == 0 {
                        st.filtered.len() - 1
                    } else {
                        st.selected - 1
                    };
                }
                SelectStep::Continue
            },
            KeyCode::Tab => {
                if self.sort_modes.len() > 0 {
                    st.sort_idx = (st.sort_idx + 1) % self.sort_modes.len();
                    let desc = self.sort_modes[st.sort_idx].descending;
                    st.filtered = sort_by_key(&st.filtered, keys, desc);
                    st.selected = 0;
                }
                SelectStep::Continue
            },
            _ => SelectStep::Continue,
        }
    }
}


impl FuzzySelect {
    /// The state a selection starts in: an empty query, every item shown
    /// (ordered by the first sort mode when there is one), the first one
    /// selected.
    pub fn start(&self, keys: &Vec<Option<i64>>) -> (st: SelectState)
        requires
            keys@.len() == self.item_count,
        ensures
            st.query@.len() == 0,
            st.selected == 0,
            st.sort_idx == 0,
            self.sort_modes@.len() == 0 ==> st.filtered@ == matching(
                self.item_count as nat,
                Seq::new(self.item_count as nat, |i: int| false),
                true,
            ),
            self.sort_modes@.len() > 0 ==> is_sorted_by_key(
                matching(self.item_count as nat, Seq::new(self.item_count as nat, |i: int| false), true),
                keys@,
                self.sort_modes@[0].descending,
                st.filtered@,
            ),
    {
        let mut st = SelectState { query: String::new(), filtered: Vec::new(), selected: 0, sort_idx: 0 };
        let mut none: Vec<bool> = Vec::new();
        let mut i: usize = 0;
        while i < self.item_count
            invariant
                i <= self.item_count,
                none@ == Seq::new(i as nat, |j: int| false),
            decreases self.item_count - i,
        {
            none.push(false);
            assert(none@ =~= Seq::new((i + 1) as nat, |j: int| false));
            i = i + 1;
        }
        self.refilter(&mut st, &none, keys);
        st
    }

    /// The status line: ` <shown>/<total>`, then `  Tab <mode>` when there
    /// are sort modes, then `  Enter select  Esc back`.
    pub fn status_line(&self, st: &SelectState) -> (r: String)
        requires
            st.sort_idx < self.sort_modes@.len() || self.sort_modes@.len() == 0,
        ensures
            r@ == " "@ + crate::num::dec_nat(st.filtered@.len()) + "/"@ + crate::num::dec_nat(
                self.item_count as nat,
            ) + (if self.sort_modes@.len() > 0 {
                "  Tab "@ + self.sort_modes@[st.sort_idx as int].name@
            } else {
                ""@
            }) + "  Enter select  Esc back"@,
    {
        proof {
            reveal_strlit("");
        }
        let mut r = crate::strs::owned(" ");
        crate::num::push_dec_u64(&mut r, st.filtered.len() as u64);
        crate::strs::push_str(&mut r, "/");
        crate::num::push_dec_u64(&mut r, self.item_count as u64);
        if self.sort_modes.len() > 0 {
            crate::strs::push_str(&mut r, "  Tab ");
            crate::strs::push_str(&mut r, self.sort_modes[st.sort_idx].name.as_str());
        } else {
            assert(r@ + ""@ =~= r@);
        }
        crate::strs::push_str(&mut r, "  Enter select  Esc back");
        r
    }

    /// The query line: ` / `, the query, and a cursor.
    pub fn filter_line(&self, st: &SelectState) -> (r: String)
        ensures
            r@ == " / "@ + st.query@ + "▏"@,
    {
        let mut r = crate::strs::owned(" / ");
        crate::strs::push_str(&mut r, st.query.as_str());
        crate::strs::push_str(&mut r, "▏");
        r
    }
}

} // verus!
