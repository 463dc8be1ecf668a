//! The state that is sent to the frontend: workspaces in order, the focused window,
//! audio, network, battery, the control-center signal and the theme.
use vstd::prelude::*;
use crate::modules::niri::NiriWorkspace;
use crate::modules::theme::ThemeConfig;
use crate::text::{decimal, u64_to_text};

verus! {

/// A workspace as the frontend shows it.
pub struct WorkspaceEntry {
    pub idx: u64,
    pub name: String,
    pub is_active: bool,
}

/// A workspace entry as plain values: index, name, whether active.
pub open spec fn entry_view(e: WorkspaceEntry) -> (u64, Seq<char>, bool) {
    (e.idx, e.name@, e.is_active)
}

/// The name that the frontend shows for `w`: its own name, else its index in decimal.
pub open spec fn workspace_label(w: NiriWorkspace) -> Seq<char> {
    match w.name {
        Some(n) => n@,
        None => decimal(w.idx as nat),
    }
}

/// The entry that the frontend gets for `w`, as plain values.
pub open spec fn workspace_view(w: NiriWorkspace) -> (u64, Seq<char>, bool) {
    (w.idx, workspace_label(w), w.is_active)
}

/// The predicate "has index `k`".
pub open spec fn has_idx(k: u64) -> spec_fn((u64, Seq<char>, bool)) -> bool {
    |t: (u64, Seq<char>, bool)| t.0 == k
}

/// `s` is in ascending order of index.
pub open spec fn sorted_by_idx(s: Seq<(u64, Seq<char>, bool)>) -> bool {
    forall|a: int, b: int| 0 <= a < b < s.len() ==> (#[trigger] s[a]).0 <= (#[trigger] s[b]).0
}

/// `out` is `inp` stably sorted by index: in ascending order of index, and for every
/// index the entries with that index in the order they had.
pub open spec fn stable_sorted_by_idx(
    out: Seq<(u64, Seq<char>, bool)>,
    inp: Seq<(u64, Seq<char>, bool)>,
) -> bool {
    &&& sorted_by_idx(out)
    &&& forall|k: u64| #[trigger] out.filter(has_idx(k)) == inp.filter(has_idx(k))
}

proof fn lemma_filter_split<A>(s: Seq<A>, p: int, pred: spec_fn(A) -> bool)
    requires
        0 <= p <= s.len(),
    ensures
        s.filter(pred) == s.take(p).filter(pred) + s.skip(p).filter(pred),
{
    assert(s == s.take(p) + s.skip(p));
    Seq::filter_distributes_over_add(s.take(p), s.skip(p), pred);
}

proof fn lemma_filter_none<A>(s: Seq<A>, pred: spec_fn(A) -> bool)
    requires
        forall|i: int| 0 <= i < s.len() ==> !pred(#[trigger] s[i]),
    ensures
        s.filter(pred) == Seq::<A>::empty(),
{
    assert(s.all(|x: A| !pred(x)));
    s.lemma_all_neg_filter_empty(pred);
}

proof fn lemma_filter_insert<A>(s: Seq<A>, p: int, x: A, pred: spec_fn(A) -> bool)
    requires
        0 <= p <= s.len(),
    ensures
        s.insert(p, x).filter(pred) == s.take(p).filter(pred) + (if pred(x) {
            seq![x]
        } else {
            Seq::empty()
        }) + s.skip(p).filter(pred),
{
    let t = s.take(p);
    assert(s.insert(p, x) == t.push(x) + s.skip(p));
    Seq::filter_distributes_over_add(t.push(x), s.skip(p), pred);
    t.lemma_filter_push(x, pred);
    if pred(x) {
        assert(t.filter(pred).push(x) == t.filter(pred) + seq![x]);
    } else {
        assert(t.filter(pred) == t.filter(pred) + Seq::<A>::empty());
    }
}

/// The entry for `w`.
fn entry_of(w: NiriWorkspace) -> (e: WorkspaceEntry)
    ensures
        entry_view(e) == workspace_view(w),
{
    let name = match w.name {
        Some(n) => n,
        None => u64_to_text(w.idx),
    };
    WorkspaceEntry { idx: w.idx, name, is_active: w.is_active }
}

/// The entries for `workspaces`, stably sorted by index, each named by its own name
/// or else by its index.
pub fn workspace_entries(workspaces: Vec<NiriWorkspace>) -> (r: Vec<WorkspaceEntry>)
    ensures
        stable_sorted_by_idx(
            r@.map_values(|e: WorkspaceEntry| entry_view(e)),
            workspaces@.map_values(|w: NiriWorkspace| workspace_view(w)),
        ),
{
    let ghost inp = workspaces@.map_values(|w: NiriWorkspace| workspace_view(w));
    let mut ws = workspaces;
    let mut res: Vec<WorkspaceEntry> = Vec::new();
    let ghost mut out = Seq::<(u64, Seq<char>, bool)>::empty();
    proof {
        assert(inp.skip(inp.len() as int) =~= Seq::<(u64, Seq<char>, bool)>::empty());
        assert(out =~= res@.map_values(|e: WorkspaceEntry| entry_view(e)));
    }
    while ws.len() > 0
        invariant
            ws@.len() <= inp.len(),
            forall|j: int| 0 <= j < ws@.len() ==> workspace_view(#[trigger] ws@[j]) == inp[j],
            out == res@.map_values(|e: WorkspaceEntry| entry_view(e)),
            sorted_by_idx(out),
            forall|k: u64| #[trigger] out.filter(has_idx(k)) == inp.skip(ws@.len() as int).filter(has_idx(k)),
        decreases ws.len(),
    {
        let ghost i = ws@.len() as int;
        let w = ws.pop().unwrap();
        let e = entry_of(w);
        let ghost ev = entry_view(e);
        assert(ev == inp[i - 1]);
        let mut p: usize = 0;
        while p < res.len() && res[p].idx < e.idx
            invariant
                p <= res.len(),
                out == res@.map_values(|e: WorkspaceEntry| entry_view(e)),
                forall|q: int| 0 <= q < p ==> (#[trigger] out[q]).0 < ev.0,
                ev == entry_view(e),
            decreases res.len() - p,
        {
            p += 1;
        }
        let ghost old_out = out;
        res.insert(p, e);
        proof {
            out = old_out.insert(p as int, ev);
            assert(out =~= res@.map_values(|e: WorkspaceEntry| entry_view(e)));
            old_out.insert_ensures(p as int, ev);
            assert forall|q: int| p <= q < old_out.len() implies ev.0 <= (#[trigger] old_out[q]).0 by {
                if p < old_out.len() {
                    assert(old_out[p as int].0 >= ev.0);
                    if p < q {
                        assert(old_out[p as int].0 <= old_out[q].0);
                    }
                }
            }
            assert forall|a: int, b: int| 0 <= a < b < out.len() implies (#[trigger] out[a]).0 <= (
            #[trigger] out[b]).0 by {
                if b < p {
                } else if b == p {
                } else if a < p {
                    assert(out[b] == old_out[b - 1]);
                } else if a == p {
                    assert(out[b] == old_out[b - 1]);
                } else {
                    assert(out[a] == old_out[a - 1]);
                    assert(out[b] == old_out[b - 1]);
                }
            }
            let rest = inp.skip(i);
            assert(inp.skip(i - 1) == seq![ev] + rest);
            assert forall|k: u64| #[trigger] out.filter(has_idx(k)) == inp.skip(i - 1).filter(
                has_idx(k),
            ) by {
                let pr = has_idx(k);
                lemma_filter_insert(old_out, p as int, ev, pr);
                lemma_filter_split(old_out, p as int, pr);
                rest.lemma_filter_prepend(ev, pr);
                assert(old_out.filter(pr) == rest.filter(pr));
                if k == ev.0 {
                    assert forall|q: int| 0 <= q < old_out.take(p as int).len() implies !pr(
                        #[trigger] old_out.take(p as int)[q],
                    ) by {
                        assert(old_out.take(p as int)[q] == old_out[q]);
                    }
                    lemma_filter_none(old_out.take(p as int), pr);
                    assert(out.filter(pr) =~= seq![ev] + old_out.skip(p as int).filter(pr));
                    assert(seq![ev] + old_out.skip(p as int).filter(pr) == seq![ev] + rest.filter(
                        pr,
                    ));
                } else {
                    assert(out.filter(pr) =~= old_out.take(p as int).filter(pr) + old_out.skip(
                        p as int,
                    ).filter(pr));
                    assert(inp.skip(i - 1).filter(pr) =~= rest.filter(pr));
                }
            }
        }
    }
    assert(inp.skip(0) == inp);
    res
}

/// The theme's base colours, as the frontend gets them.
pub struct ThemeColors {
    pub bg_color: String,
    pub fg_color: String,
    pub accent_color: String,
}

/// Everything the frontend is sent in one update.
pub struct ShellState {
    pub workspaces: Vec<WorkspaceEntry>,
    pub battery_percent: i8,
    pub active_window_title: Option<String>,
    pub audio_volume: i8,
    pub audio_muted: bool,
    pub network_name: String,
    pub toggle_cc_signal: u8,
    pub theme: ThemeColors,
    pub available_themes: Vec<String>,
}

/// The readings that one update is made of.
pub struct Readings {
    pub workspaces: Vec<NiriWorkspace>,
    pub active_window_title: Option<String>,
    pub audio_volume: i8,
    pub audio_muted: bool,
    pub network_name: String,
    pub theme: ThemeConfig,
    pub available_themes: Vec<String>,
    pub battery_percent: i8,
}

/// The update made of `readings` with control-center signal `cc_counter`: the
/// workspaces stably sorted by index and named, the theme's base colours, and every
/// other reading as it came.
pub fn build_shell_state(readings: Readings, cc_counter: u8) -> (s: ShellState)
    ensures
        stable_sorted_by_idx(
            s.workspaces@.map_values(|e: WorkspaceEntry| entry_view(e)),
            readings.workspaces@.map_values(|w: NiriWorkspace| workspace_view(w)),
        ),
        s.battery_percent == readings.battery_percent,
        s.active_window_title == readings.active_window_title,
        s.audio_volume == readings.audio_volume,
        s.audio_muted == readings.audio_muted,
        s.network_name == readings.network_name,
        s.toggle_cc_signal == cc_counter,
        s.theme.bg_color == readings.theme.bg_color,
        s.theme.fg_color == readings.theme.fg_color,
        s.theme.accent_color == readings.theme.accent_color,
        s.available_themes == readings.available_themes,
{
    let Readings {
        workspaces,
        active_window_title,
        audio_volume,
        audio_muted,
        network_name,
        theme,
        available_themes,
        battery_percent,
    } = readings;
    ShellState {
        workspaces: workspace_entries(workspaces),
        battery_percent,
        active_window_title,
        audio_volume,
        audio_muted,
        network_name,
        toggle_cc_signal: cc_counter,
        theme: ThemeColors {
            bg_color: theme.bg_color,
            fg_color: theme.fg_color,
            accent_color: theme.accent_color,
        },
        available_themes,
    }
}

} // verus!
