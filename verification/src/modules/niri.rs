//! What niri reports about workspaces and windows, and the focused window's title.
use vstd::prelude::*;
use crate::modules::theme::clone_text_option;

verus! {

/// A workspace as `niri msg -j workspaces` describes it.
#[derive(Debug)]
pub struct NiriWorkspace {
    pub id: u64,
    pub idx: u64,
    pub name: Option<String>,
    pub is_active: bool,
}

/// A window as `niri msg -j windows` describes it.
#[derive(Debug)]
pub struct NiriWindow {
    pub title: Option<String>,
    pub is_focused: bool,
}

/// The title of the first focused window of `windows`; `None` when no window is
/// focused or the first focused one has no title.
pub open spec fn focused_title(windows: Seq<NiriWindow>) -> Option<String>
    decreases windows.len(),
{
    if windows.len() == 0 {
        None
    } else if windows[0].is_focused {
        windows[0].title
    } else {
        focused_title(windows.drop_first())
    }
}

/// The title of the focused window, from the windows that niri reports.
pub fn fetch_active_window_title(windows: &Vec<NiriWindow>) -> (r: Option<String>)
    ensures
        r == focused_title(windows@),
{
    let mut i: usize = 0;
    assert(windows@.skip(0) == windows@);
    while i < windows.len()
        invariant
            i <= windows.len(),
            focused_title(windows@) == focused_title(windows@.skip(i as int)),
        decreases windows.len() - i,
    {
        assert(windows@.skip(i as int)[0] == windows@[i as int]);
        if windows[i].is_focused {
            return clone_text_option(&windows[i].title);
        }
        assert(windows@.skip(i as int).drop_first() == windows@.skip(i + 1));
        i += 1;
    }
    None
}

/// The first focused window decides: when `windows[i]` is focused and no window before
/// it is, the title is `windows[i]`'s, wherever `i` stands in the list (the last window
/// included).
pub proof fn law_first_focused_window_decides(windows: Seq<NiriWindow>, i: int)
    requires
        0 <= i < windows.len(),
        windows[i].is_focused,
        forall|j: int| 0 <= j < i ==> !(#[trigger] windows[j]).is_focused,
    ensures
        focused_title(windows) == windows[i].title,
    decreases i,
{
    if i > 0 {
        let rest = windows.drop_first();
        assert(!windows[0].is_focused);
        assert(rest[i - 1] == windows[i]);
        assert forall|j: int| 0 <= j < i - 1 implies !(#[trigger] rest[j]).is_focused by {
            assert(rest[j] == windows[j + 1]);
        }
        law_first_focused_window_decides(rest, i - 1);
    }
}

/// With no focused window there is no title.
pub proof fn law_no_focused_window_no_title(windows: Seq<NiriWindow>)
    requires
        forall|j: int| 0 <= j < windows.len() ==> !(#[trigger] windows[j]).is_focused,
    ensures
        focused_title(windows) is None,
    decreases windows.len(),
{
    if windows.len() > 0 {
        let rest = windows.drop_first();
        assert(!windows[0].is_focused);
        assert forall|j: int| 0 <= j < rest.len() implies !(#[trigger] rest[j]).is_focused by {
            assert(rest[j] == windows[j + 1]);
        }
        law_no_focused_window_no_title(rest);
    }
}

} // verus!
