//! Render state: the latest input mode, tab list, active index and derived
//! segments, with comparison-gated update entry points that report whether
//! the frame must be redrawn, and the pointer-to-tab resolution.

use vstd::prelude::*;

use crate::layout::{
    decimal_digits, segment_hits, segment_len, segment_start, spec_segment, lemma_hit_unique,
    lemma_segment_start_ordered, lemma_decimal_digits_len, TabSegment, TabSegmentView,
};
use crate::outcome::FrameBuffer;

verus! {

/// The multiplexer's current input mode, replaced wholesale on each mode
/// update and compared to suppress redundant redraws.
#[derive(Clone, Copy, Debug, PartialEq, Eq, Structural)]
pub enum InputMode {
    Normal,
    Locked,
    Resize,
    Pane,
    Tab,
    Scroll,
    RenameTab,
    RenamePane,
    Search,
    EnterSearch,
    Session,
    Move,
    Prompt,
    Tmux,
}

impl InputMode {
    /// The bracketed label shown for the mode in the rendered bar.
    pub open spec fn spec_label(self) -> Seq<char> {
        match self {
            InputMode::Normal => "NORMAL"@,
            InputMode::Locked => "LOCKED"@,
            InputMode::Resize => "RESIZE"@,
            InputMode::Pane => "PANE"@,
            InputMode::Tab => "TAB"@,
            InputMode::Scroll => "SCROLL"@,
            InputMode::RenameTab => "RENAME TAB"@,
            InputMode::RenamePane => "RENAME PANE"@,
            InputMode::Search => "SEARCH"@,
            InputMode::EnterSearch => "ENTER SEARCH"@,
            InputMode::Session => "SESSION"@,
            InputMode::Move => "MOVE"@,
            InputMode::Prompt => "PROMPT"@,
            InputMode::Tmux => "TMUX"@,
        }
    }

    /// The display name of the mode.
    pub fn label(&self) -> (r: &'static str)
        ensures
            r@ == self.spec_label(),
    {
        match self {
            InputMode::Normal => "NORMAL",
            InputMode::Locked => "LOCKED",
            InputMode::Resize => "RESIZE",
            InputMode::Pane => "PANE",
            InputMode::Tab => "TAB",
            InputMode::Scroll => "SCROLL",
            InputMode::RenameTab => "RENAME TAB",
            InputMode::RenamePane => "RENAME PANE",
            InputMode::Search => "SEARCH",
            InputMode::EnterSearch => "ENTER SEARCH",
            InputMode::Session => "SESSION",
            InputMode::Move => "MOVE",
            InputMode::Prompt => "PROMPT",
            InputMode::Tmux => "TMUX",
        }
    }
}

/// One open tab as reported by the host: its stable ordering position and
/// whether it is the active tab.
#[derive(Clone, Copy, Debug, PartialEq, Eq, Structural)]
pub struct TabInfo {
    pub position: usize,
    pub active: bool,
}

/// The mathematical view of the render state.
pub struct RenderView {
    pub mode: InputMode,
    pub tabs: Seq<TabInfo>,
    pub active_tab_idx: int,
    pub segments: Seq<TabSegmentView>,
}

impl RenderView {
    /// Well-formedness: one segment per tab, each labeled with the 1-based
    /// decimal rendering of its index, and the active index in range
    /// whenever there are tabs at all.
    pub open spec fn wf(self) -> bool {
        &&& self.segments.len() == self.tabs.len()
        &&& forall|i: int| 0 <= i < self.segments.len() ==> self.segments[i] == spec_segment(i)
        &&& self.tabs.len() > 0 ==> 0 <= self.active_tab_idx < self.tabs.len()
        &&& self.active_tab_idx >= 0
    }
}

/// The segment views derived for `n` tabs.
pub open spec fn spec_segments_for(n: int) -> Seq<TabSegmentView> {
    Seq::new(n as nat, |i: int| spec_segment(i))
}

/// The state transition of `update_mode`: replace the mode and report dirty
/// only when the mode actually changed.
pub open spec fn spec_update_mode(v: RenderView, mode: InputMode) -> (RenderView, FrameBuffer) {
    if v.mode == mode {
        (v, FrameBuffer::NoUpdates)
    } else {
        (RenderView { mode, ..v }, FrameBuffer::MarkDirty)
    }
}

/// The state transition of `update_tabs`: when the `(active index, tab
/// list)` pair is unchanged report clean; otherwise replace the list,
/// regenerate every segment and replace the active index.
pub open spec fn spec_update_tabs(v: RenderView, active_tab_idx: int, tabs: Seq<TabInfo>) -> (
    RenderView,
    FrameBuffer,
) {
    if v.active_tab_idx == active_tab_idx && v.tabs == tabs {
        (v, FrameBuffer::NoUpdates)
    } else {
        (
            RenderView {
                mode: v.mode,
                tabs,
                active_tab_idx,
                segments: spec_segments_for(tabs.len() as int),
            },
            FrameBuffer::MarkDirty,
        )
    }
}

/// The next tab index for a scroll: one past the active index, capped at
/// the tab count (so it may equal the count, one past the last valid tab;
/// the host-facing switch command tolerates that).
pub open spec fn spec_next_tab_idx(v: RenderView) -> int {
    if v.active_tab_idx + 1 < v.tabs.len() {
        v.active_tab_idx + 1
    } else {
        v.tabs.len() as int
    }
}

/// The previous tab index for a scroll, saturating at zero.
pub open spec fn spec_prev_tab_idx(v: RenderView) -> int {
    if v.active_tab_idx == 0 {
        0
    } else {
        v.active_tab_idx - 1
    }
}

/// The first segment whose span contains `col`, among the first `n`
/// segments.
pub open spec fn spec_hit_idx(n: int, col: int) -> Option<int>
    decreases n,
{
    if n <= 0 {
        None
    } else if spec_hit_idx(n - 1, col) is Some {
        spec_hit_idx(n - 1, col)
    } else if segment_hits(n - 1, col) {
        Some(n - 1)
    } else {
        None
    }
}

/// A hit index is a real hit, in range.
pub proof fn lemma_hit_idx_sound(n: int, col: int)
    ensures
        spec_hit_idx(n, col) matches Some(i) ==> 0 <= i < n && segment_hits(i, col),
    decreases n,
{
    if n > 0 {
        lemma_hit_idx_sound(n - 1, col);
    }
}

/// Any hit among the first `n` segments is found, and (spans being
/// disjoint) it is the one found.
pub proof fn lemma_hit_idx_complete(n: int, col: int, i: int)
    requires
        0 <= i < n,
        segment_hits(i, col),
    ensures
        spec_hit_idx(n, col) == Some(i),
    decreases n,
{
    lemma_hit_idx_sound(n - 1, col);
    if i < n - 1 {
        lemma_hit_idx_complete(n - 1, col, i);
    } else {
        let prior = spec_hit_idx(n - 1, col);
        if prior is Some {
            lemma_hit_unique(i, prior.unwrap(), col);
        }
    }
}

/// The index of the first tab flagged active, if any.
pub open spec fn spec_first_active(tabs: Seq<TabInfo>) -> Option<int>
    decreases tabs.len(),
{
    if tabs.len() == 0 {
        None
    } else if tabs[0].active {
        Some(0int)
    } else {
        match spec_first_active(tabs.drop_first()) {
            Some(i) => Some(i + 1),
            None => None,
        }
    }
}

/// An active tab with no active tab before it is the first active one.
pub proof fn lemma_first_active_found(tabs: Seq<TabInfo>, i: int)
    requires
        0 <= i < tabs.len(),
        tabs[i].active,
        forall|j: int| 0 <= j < i ==> !tabs[j].active,
    ensures
        spec_first_active(tabs) == Some(i),
    decreases i,
{
    if i > 0 {
        assert(forall|j: int|
            0 <= j < tabs.drop_first().len() ==> tabs.drop_first()[j] == tabs[j + 1]);
        lemma_first_active_found(tabs.drop_first(), i - 1);
    }
}

/// With no tab flagged active there is no first active one.
pub proof fn lemma_first_active_none(tabs: Seq<TabInfo>)
    requires
        forall|j: int| 0 <= j < tabs.len() ==> !tabs[j].active,
    ensures
        spec_first_active(tabs) is None,
    decreases tabs.len(),
{
    if tabs.len() > 0 {
        assert(forall|j: int|
            0 <= j < tabs.drop_first().len() ==> tabs.drop_first()[j] == tabs[j + 1]);
        lemma_first_active_none(tabs.drop_first());
    }
}

/// The click target: the hit segment's tab index, unless the hit is the
/// active tab (clicking the current tab is a no-op) or there is no hit.
pub open spec fn spec_target_tab(v: RenderView, col: int) -> Option<int> {
    match spec_hit_idx(v.segments.len() as int, col) {
        Some(i) => if i == v.active_tab_idx {
            None
        } else {
            Some(i)
        },
        None => None,
    }
}

/// Holds the latest mode, tab list and active index, and the segment list
/// derived from them.
#[derive(Debug)]
pub struct Renderer {
    pub mode: InputMode,
    pub tabs: Vec<TabInfo>,
    pub segments: Vec<TabSegment>,
    pub active_tab_idx: usize,
}

impl View for Renderer {
    type V = RenderView;

    open spec fn view(&self) -> RenderView {
        RenderView {
            mode: self.mode,
            tabs: self.tabs@,
            active_tab_idx: self.active_tab_idx as int,
            segments: Seq::new(self.segments@.len(), |i: int| self.segments@[i]@),
        }
    }
}

/// The read-only frame-composition view: everything the render collaborator
/// needs to compose one line of styled text.
pub struct Frame<'ui> {
    pub mode: &'ui InputMode,
    pub active_tab_idx: usize,
    pub segments: &'ui Vec<TabSegment>,
}

impl<'ui> Frame<'ui> {
    /// Bundles the three frame-composition inputs.
    pub fn new(
        mode: &'ui InputMode,
        active_tab_idx: usize,
        segments: &'ui Vec<TabSegment>,
    ) -> (r: Self)
        ensures
            r.mode == mode,
            r.active_tab_idx == active_tab_idx,
            r.segments == segments,
    {
        Frame { mode, active_tab_idx, segments }
    }
}

/// Compares two tab lists for full equality.
fn tabs_equal(a: &Vec<TabInfo>, b: &Vec<TabInfo>) -> (r: bool)
    ensures
        r == (a@ == b@),
{
    if a.len() != b.len() {
        return false;
    }
    let mut i: usize = 0;
    while i < a.len()
        invariant
            i <= a@.len(),
            a@.len() == b@.len(),
            forall|j: int| 0 <= j < i ==> a@[j] == b@[j],
        decreases a@.len() - i,
    {
        if a[i] != b[i] {
            return false;
        }
        i = i + 1;
    }
    proof {
        assert(a@ =~= b@);
    }
    true
}

/// Builds the segment list for `n` tabs.
fn build_segments(n: usize) -> (r: Vec<TabSegment>)
    ensures
        r@.len() == n,
        forall|i: int| 0 <= i < n ==> #[trigger] r@[i]@ == spec_segment(i),
{
    let mut segments: Vec<TabSegment> = Vec::new();
    let mut i: usize = 0;
    while i < n
        invariant
            i <= n,
            segments@.len() == i,
            forall|j: int| 0 <= j < i ==> #[trigger] segments@[j]@ == spec_segment(j),
        decreases n - i,
    {
        segments.push(TabSegment::new(i));
        i = i + 1;
    }
    segments
}

impl Renderer {
    /// Replaces the mode if it changed; reports dirty exactly then.
    pub fn update_mode(&mut self, mode: InputMode) -> (r: FrameBuffer)
        ensures
            (final(self)@, r) == spec_update_mode(old(self)@, mode),
            old(self)@.wf() ==> final(self)@.wf(),
    {
        if self.mode == mode {
            return FrameBuffer::NoUpdates;
        }
        self.mode = mode;
        FrameBuffer::MarkDirty
    }

    /// Replaces the tab list and active index and regenerates every segment,
    /// unless the `(active index, tab list)` pair is unchanged; reports
    /// dirty exactly when something was replaced.
    pub fn update_tabs(&mut self, active_tab_idx: usize, tabs: Vec<TabInfo>) -> (r: FrameBuffer)
        requires
            tabs@.len() > 0 ==> active_tab_idx < tabs@.len(),
        ensures
            (final(self)@, r) == spec_update_tabs(old(self)@, active_tab_idx as int, tabs@),
            final(self)@.wf() || !old(self)@.wf(),
    {
        if self.active_tab_idx == active_tab_idx && tabs_equal(&self.tabs, &tabs) {
            return FrameBuffer::NoUpdates;
        }
        self.tabs = tabs;
        self.segments = build_segments(self.tabs.len());
        self.active_tab_idx = active_tab_idx;
        proof {
            assert(self@.segments =~= spec_segments_for(self.tabs@.len() as int));
        }
        FrameBuffer::MarkDirty
    }

    /// The frame-composition view of the current state.
    pub fn next_frame(&self) -> (r: Frame<'_>)
        ensures
            r.mode == &self.mode,
            r.active_tab_idx == self.active_tab_idx,
            r.segments == &self.segments,
    {
        Frame::new(&self.mode, self.active_tab_idx, &self.segments)
    }

    /// The tab index one past the active one, capped at the tab count.
    pub fn get_next_tab_idx(&self) -> (r: usize)
        ensures
            r == spec_next_tab_idx(self@),
    {
        if self.active_tab_idx >= self.tabs.len() {
            self.tabs.len()
        } else {
            let next: usize = self.active_tab_idx + 1;
            if next < self.tabs.len() {
                next
            } else {
                self.tabs.len()
            }
        }
    }

    /// The tab index one before the active one, saturating at zero.
    pub fn get_prev_tab_idx(&self) -> (r: usize)
        ensures
            r == spec_prev_tab_idx(self@),
    {
        if self.active_tab_idx == 0 {
            0
        } else {
            self.active_tab_idx - 1
        }
    }

    /// Resolves a pointer column to the segment whose span contains it:
    /// walking left to right, each segment occupies its label's width and
    /// is followed by one separator column, which is not clickable.
    pub fn get_clicked_tab_segment(&self, mouse_click_col: usize) -> (r: Option<&TabSegment>)
        requires
            self@.wf(),
        ensures
            match r {
                Some(seg) => {
                    &&& 0 <= seg@.index < self@.segments.len()
                    &&& segment_hits(seg@.index, mouse_click_col as int)
                    &&& spec_hit_idx(self@.segments.len() as int, mouse_click_col as int)
                        == Some(seg@.index)
                },
                None => spec_hit_idx(self@.segments.len() as int, mouse_click_col as int) is None,
            },
    {
        let col: usize = mouse_click_col;
        let n: usize = self.segments.len();
        let mut cursor: usize = 0;
        let mut idx: usize = 0;
        while idx < n
            invariant
                self@.wf(),
                n == self@.segments.len(),
                col == mouse_click_col,
                idx <= n,
                cursor as int == segment_start(idx as int),
                cursor <= col,
                forall|k: int| 0 <= k < idx ==> !segment_hits(k, col as int),
            decreases n - idx,
        {
            let seg = &self.segments[idx];
            let l: usize = seg.len();
            proof {
                assert(seg@ == spec_segment(idx as int));
                assert(l as int == segment_len(idx as int));
            }
            let diff: usize = col - cursor;
            if diff < l {
                proof {
                    assert(segment_hits(idx as int, col as int));
                    lemma_hit_idx_complete(n as int, col as int, idx as int);
                }
                return Some(seg);
            }
            if diff == l {
                proof {
                    assert forall|k: int| 0 <= k < n implies !segment_hits(k, col as int) by {
                        if idx < k {
                            lemma_segment_start_ordered(idx as int, k);
                            lemma_decimal_digits_len((k + 1) as nat);
                        }
                    }
                    lemma_hit_idx_sound(n as int, col as int);
                }
                return None;
            }
            cursor = cursor + l + 1;
            idx = idx + 1;
        }
        proof {
            lemma_hit_idx_sound(n as int, col as int);
        }
        None
    }

    /// Resolves a pointer column to a switch target: the clicked tab's
    /// index, unless the click landed on the active tab (a no-op), a
    /// separator, or past the segments.
    pub fn get_target_tab(&self, mouse_click_col: usize) -> (r: Option<usize>)
        requires
            self@.wf(),
        ensures
            match r {
                Some(i) => Some(i as int) == spec_target_tab(self@, mouse_click_col as int),
                None => spec_target_tab(self@, mouse_click_col as int) is None,
            },
    {
        let clicked = self.get_clicked_tab_segment(mouse_click_col);
        match clicked {
            Some(seg) => {
                if seg.index != self.active_tab_idx {
                    Some(seg.index)
                } else {
                    None
                }
            },
            None => None,
        }
    }
}

impl Default for Renderer {
    /// The initial render state: normal mode, no tabs, no segments.
    fn default() -> (r: Self)
        ensures
            r@.mode == InputMode::Normal,
            r@.tabs.len() == 0,
            r@.segments.len() == 0,
            r@.active_tab_idx == 0,
            r@.wf(),
    {
        Renderer { mode: InputMode::Normal, tabs: Vec::new(), segments: Vec::new(), active_tab_idx: 0 }
    }
}

/// Law: `update_mode` is idempotent under repeated identical input; when
/// the mode actually changes the first call reports dirty and the second,
/// identical call reports clean and changes nothing.
pub proof fn lemma_update_mode_idempotent(v: RenderView, mode: InputMode)
    ensures
        ({
            let (v1, r1) = spec_update_mode(v, mode);
            let (v2, r2) = spec_update_mode(v1, mode);
            &&& v2 == v1
            &&& r2 == FrameBuffer::NoUpdates
            &&& (v.mode != mode ==> r1 == FrameBuffer::MarkDirty)
            &&& (v.mode == mode ==> r1 == FrameBuffer::NoUpdates)
        }),
{
}

/// Law: `update_tabs` with an unchanged `(active index, tab list)` pair
/// reports clean and changes nothing; any change to either reports dirty,
/// and afterwards there is exactly one segment per tab.
pub proof fn lemma_update_tabs_gated(v: RenderView, active_tab_idx: int, tabs: Seq<TabInfo>)
    ensures
        ({
            let (v1, r1) = spec_update_tabs(v, active_tab_idx, tabs);
            &&& (v.active_tab_idx == active_tab_idx && v.tabs == tabs ==> v1 == v && r1
                == FrameBuffer::NoUpdates)
            &&& (v.active_tab_idx != active_tab_idx || v.tabs != tabs ==> r1
                == FrameBuffer::MarkDirty && v1.segments.len() == v1.tabs.len())
        }),
{
}

} // verus!
