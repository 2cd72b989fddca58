//! The state of a tiling window manager: the windows it manages, in the order they came,
//! and the active window; the layout places them on the screen, newest first.
use vstd::prelude::*;

use crate::geometry::Rectangle;
use crate::ids::WindowId;
use crate::layout::{Layout, PositionedWindow};

verus! {

/// What a window manager does on a key it grabbed.
#[derive(Debug, Clone, Copy, PartialEq, Eq, Structural)]
pub enum JustAction {
    KillActive,
    Term,
}

/// The first position of `w` in `windows`.
pub open spec fn first_index(windows: Seq<WindowId>, w: WindowId) -> Option<int>
    decreases windows.len(),
{
    if windows.len() == 0 {
        None
    } else if windows[0] == w {
        Some(0)
    } else {
        match first_index(windows.drop_first(), w) {
            Some(i) => Some(i + 1),
            None => None,
        }
    }
}

/// No window occurs twice.
pub open spec fn no_duplicates(windows: Seq<WindowId>) -> bool {
    forall|i: int, j: int| 0 <= i < j < windows.len() ==> windows[i] != windows[j]
}

/// The windows and the screen a window manager manages.
pub struct WindowManagerState {
    pub managed_windows: Vec<WindowId>,
    pub screen_width: u16,
    pub screen_height: u16,
    pub active_window: Option<WindowId>,
}

impl WindowManagerState {
    /// The managed windows, oldest first.
    pub open spec fn spec_managed(&self) -> Seq<WindowId> {
        self.managed_windows@
    }

    /// No window is managed twice.
    pub open spec fn wf(&self) -> bool {
        no_duplicates(self.spec_managed())
    }

    /// A window manager of a screen of `screen_width` by `screen_height` with no window.
    pub fn new(screen_width: u16, screen_height: u16) -> (r: Self)
        ensures
            r.wf(),
            r.spec_managed() == Seq::<WindowId>::empty(),
            r.screen_width == screen_width,
            r.screen_height == screen_height,
            r.active_window is None,
    {
        WindowManagerState { managed_windows: Vec::new(), screen_width, screen_height, active_window: None }
    }

    /// The managed windows, oldest first.
    pub fn managed_windows(&self) -> (r: &[WindowId])
        ensures
            r@ == self.spec_managed(),
    {
        self.managed_windows.as_slice()
    }

    /// Where `window` is among the managed windows.
    pub fn find_managed_window(&self, window: WindowId) -> (r: Option<usize>)
        ensures
            match first_index(self.spec_managed(), window) {
                Some(i) => r is Some && r->0 == i,
                None => r is None,
            },
    {
        let mut idx: usize = 0;
        let ghost s = self.managed_windows@;
        assert(s.skip(0) =~= s);
        while idx < self.managed_windows.len()
            invariant
                s == self.managed_windows@,
                idx <= s.len(),
                first_index(s, window) == (match first_index(s.skip(idx as int), window) {
                    Some(i) => Some(i + idx),
                    None => None,
                }),
            decreases s.len() - idx,
        {
            if self.managed_windows[idx].same(window) {
                assert(s.skip(idx as int)[0] == window);
                return Some(idx);
            }
            assert(s.skip(idx as int).drop_first() =~= s.skip(idx + 1));
            idx = idx + 1;
        }
        None
    }

    /// Whether `window` is managed.
    pub fn is_client(&self, window: WindowId) -> (r: bool)
        ensures
            r == self.spec_managed().contains(window),
    {
        proof {
            lemma_first_index(self.spec_managed(), window);
        }
        self.find_managed_window(window).is_some()
    }

    /// Starts managing `window`, unless it is managed already; returns whether it was added.
    pub fn manage_window(&mut self, window: WindowId) -> (r: bool)
        requires
            old(self).wf(),
        ensures
            final(self).wf(),
            r == !old(self).spec_managed().contains(window),
            final(self).spec_managed() == (if r {
                old(self).spec_managed().push(window)
            } else {
                old(self).spec_managed()
            }),
            final(self).screen_width == old(self).screen_width,
            final(self).screen_height == old(self).screen_height,
            final(self).active_window == old(self).active_window,
    {
        proof {
            lemma_first_index(self.spec_managed(), window);
        }
        if self.find_managed_window(window).is_some() {
            false
        } else {
            self.managed_windows.push(window);
            true
        }
    }

    /// Stops managing `window`; returns whether it was managed.
    pub fn unmanage_window(&mut self, window: WindowId) -> (r: bool)
        requires
            old(self).wf(),
        ensures
            final(self).wf(),
            r == old(self).spec_managed().contains(window),
            final(self).spec_managed() == old(self).spec_managed().filter(|w: WindowId| w != window),
            !final(self).spec_managed().contains(window),
            final(self).screen_width == old(self).screen_width,
            final(self).screen_height == old(self).screen_height,
            final(self).active_window == old(self).active_window,
    {
        let ghost s = self.managed_windows@;
        proof {
            lemma_first_index(s, window);
        }
        match self.find_managed_window(window) {
            Some(idx) => {
                proof {
                    let i = first_index(s, window)->0;
                    assert(idx as int == i);
                    assert(s[i] == window);
                }
                self.managed_windows.remove(idx);
                proof {
                    lemma_remove_unique(s, idx as int, window);
                }
                true
            },
            None => {
                proof {
                    lemma_filter_absent(s, window);
                }
                false
            },
        }
    }

    /// The managed windows, newest first: the order the layout places them in.
    pub fn arrangement_order(&self) -> (r: Vec<WindowId>)
        ensures
            r@ == self.spec_managed().reverse(),
    {
        let n = self.managed_windows.len();
        let mut out: Vec<WindowId> = Vec::new();
        let mut i: usize = n;
        while i > 0
            invariant
                i <= n,
                n == self.managed_windows@.len(),
                out@ == self.managed_windows@.subrange(i as int, n as int).reverse(),
            decreases i,
        {
            i = i - 1;
            out.push(self.managed_windows[i]);
            assert(out@ =~= self.managed_windows@.subrange(i as int, n as int).reverse());
        }
        assert(self.managed_windows@.subrange(0, n as int) =~= self.managed_windows@);
        out
    }

    /// Where the layout places the managed windows on the whole screen, newest first.
    pub fn arrange_windows<L: Layout>(&self, layout: &L) -> (r: Vec<PositionedWindow>)
        requires
            layout.fits(self.screen_area(), self.spec_managed().len() as int),
        ensures
            r@ == layout.layout(self.screen_area(), self.active_window, self.spec_managed().reverse()),
    {
        let windows = self.arrangement_order();
        let area = Rectangle { x: 0, y: 0, width: self.screen_width, height: self.screen_height };
        layout.position_windows(area, self.active_window, windows.as_slice())
    }

    /// The whole screen.
    pub open spec fn screen_area(&self) -> Rectangle {
        Rectangle { x: 0, y: 0, width: self.screen_width, height: self.screen_height }
    }

    /// The pointer entered `window`: it becomes active unless it is the root window; returns
    /// whether the windows are to be arranged again.
    pub fn pointer_entered(&mut self, window: WindowId, root: WindowId) -> (r: bool)
        ensures
            r == (window != root),
            final(self).active_window == (if r {
                Some(window)
            } else {
                old(self).active_window
            }),
            final(self).spec_managed() == old(self).spec_managed(),
            final(self).screen_width == old(self).screen_width,
            final(self).screen_height == old(self).screen_height,
    {
        if !window.same(root) {
            self.active_window = Some(window);
            true
        } else {
            false
        }
    }

    /// The active window is killed: it is no longer managed nor active. Returns the window
    /// to kill, if there is an active one.
    pub fn kill_active(&mut self) -> (r: Option<WindowId>)
        requires
            old(self).wf(),
        ensures
            final(self).wf(),
            r == old(self).active_window,
            final(self).active_window is None,
            final(self).spec_managed() == (match r {
                Some(w) => old(self).spec_managed().filter(|x: WindowId| x != w),
                None => old(self).spec_managed(),
            }),
            final(self).screen_width == old(self).screen_width,
            final(self).screen_height == old(self).screen_height,
    {
        match self.active_window {
            Some(active) => {
                self.unmanage_window(active);
                self.active_window = None;
                Some(active)
            },
            None => None,
        }
    }
}

/// `first_index` finds a window exactly when it is there, at a place that holds it, and
/// before any other place that does.
pub proof fn lemma_first_index(s: Seq<WindowId>, w: WindowId)
    ensures
        first_index(s, w) is Some <==> s.contains(w),
        first_index(s, w) matches Some(i) ==> 0 <= i < s.len() && s[i] == w && forall|j: int|
            0 <= j < i ==> s[j] != w,
    decreases s.len(),
{
    if s.len() > 0 {
        lemma_first_index(s.drop_first(), w);
        if s[0] != w {
            if s.contains(w) {
                let k = choose|k: int| 0 <= k < s.len() && s[k] == w;
                assert(s.drop_first()[k - 1] == w);
            }
            if s.drop_first().contains(w) {
                let k = choose|k: int| 0 <= k < s.drop_first().len() && s.drop_first()[k] == w;
                assert(s[k + 1] == w);
            }
            if let Some(i) = first_index(s.drop_first(), w) {
                assert forall|j: int| 0 <= j < i + 1 implies s[j] != w by {
                    if j > 0 {
                        assert(s[j] == s.drop_first()[j - 1]);
                    }
                }
            }
        } else {
            assert(s[0] == w);
        }
    }
}

/// Removing the only place that holds `w` keeps every other window, in order, and no
/// window twice.
proof fn lemma_remove_unique(s: Seq<WindowId>, idx: int, w: WindowId)
    requires
        no_duplicates(s),
        0 <= idx < s.len(),
        s[idx] == w,
    ensures
        s.remove(idx) == s.filter(|x: WindowId| x != w),
        no_duplicates(s.remove(idx)),
        !s.remove(idx).contains(w),
    decreases s.len(),
{
    let f = |x: WindowId| x != w;
    if idx == 0 {
        assert(s.remove(0) =~= s.drop_first());
        lemma_filter_absent(s.drop_first(), w);
        assert(s =~= seq![s[0]] + s.drop_first());
        Seq::filter_distributes_over_add(seq![s[0]], s.drop_first(), f);
        assert(seq![s[0]].filter(f) =~= Seq::<WindowId>::empty()) by {
            reveal_with_fuel(Seq::filter, 2);
        }
    } else {
        let rest = s.drop_first();
        assert(rest[idx - 1] == w);
        lemma_remove_unique(rest, idx - 1, w);
        assert(s.remove(idx) =~= seq![s[0]] + rest.remove(idx - 1));
        assert(s =~= seq![s[0]] + rest);
        Seq::filter_distributes_over_add(seq![s[0]], rest, f);
        assert(seq![s[0]].filter(f) =~= seq![s[0]]) by {
            reveal_with_fuel(Seq::filter, 2);
        }
        Seq::filter_distributes_over_add(seq![s[0]], rest.remove(idx - 1), f);
    }
    assert forall|i: int, j: int| 0 <= i < j < s.remove(idx).len() implies s.remove(idx)[i] != s.remove(idx)[j] by {
        let a = if i < idx { i } else { i + 1 };
        let b = if j < idx { j } else { j + 1 };
        assert(s.remove(idx)[i] == s[a]);
        assert(s.remove(idx)[j] == s[b]);
    }
    if s.remove(idx).contains(w) {
        let k = choose|k: int| 0 <= k < s.remove(idx).len() && s.remove(idx)[k] == w;
        let a = if k < idx { k } else { k + 1 };
        assert(s[a] == w);
    }
}

/// Filtering out a window that is not there changes nothing.
proof fn lemma_filter_absent(s: Seq<WindowId>, w: WindowId)
    requires
        !s.contains(w),
    ensures
        s.filter(|x: WindowId| x != w) == s,
    decreases s.len(),
{
    let f = |x: WindowId| x != w;
    if s.len() == 0 {
        assert(s.filter(f) =~= s);
    } else {
        let rest = s.drop_last();
        assert(!rest.contains(w)) by {
            if rest.contains(w) {
                let k = choose|k: int| 0 <= k < rest.len() && rest[k] == w;
                assert(s[k] == w);
            }
        }
        lemma_filter_absent(rest, w);
        assert(s.last() != w) by {
            assert(s[s.len() - 1] == s.last());
        }
        assert(s.filter(f) == rest.filter(f).push(s.last())) by {
            reveal(Seq::filter);
            assert(s.drop_last() =~= rest);
        }
        assert(s =~= rest.push(s.last()));
    }
}

/// A managed window is found after it is managed, and not after it is unmanaged.
pub proof fn lemma_manage_unmanage(before: Seq<WindowId>, w: WindowId)
    requires
        no_duplicates(before),
    ensures
        (if before.contains(w) { before } else { before.push(w) }).contains(w),
        !before.filter(|x: WindowId| x != w).contains(w),
{
    if !before.contains(w) {
        assert(before.push(w)[before.len() as int] == w);
    }
    let f = |x: WindowId| x != w;
    if before.filter(f).contains(w) {
        let k = choose|k: int| 0 <= k < before.filter(f).len() && before.filter(f)[k] == w;
        before.lemma_filter_pred(f, k);
    }
}

/// Managing a window that was not managed and then unmanaging it gives back the managed
/// windows as they were, in the same order.
pub proof fn lemma_unmanage_undoes_manage(before: Seq<WindowId>, w: WindowId)
    requires
        no_duplicates(before),
        !before.contains(w),
    ensures
        before.push(w).filter(|x: WindowId| x != w) == before,
{
    let f = |x: WindowId| x != w;
    assert(before.push(w) =~= before + seq![w]);
    Seq::filter_distributes_over_add(before, seq![w], f);
    assert(seq![w].filter(f) =~= Seq::<WindowId>::empty()) by {
        reveal_with_fuel(Seq::filter, 2);
    }
    lemma_filter_absent(before, w);
    assert(before.filter(f) + Seq::<WindowId>::empty() =~= before);
}

} // verus!
