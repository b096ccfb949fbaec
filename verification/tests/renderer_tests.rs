use compact_bar::outcome::FrameBuffer;
use compact_bar::renderer::{InputMode, Renderer, TabInfo};

fn tabs_with_active(count: usize, active: usize) -> Vec<TabInfo> {
    let mut tabs: Vec<TabInfo> = Vec::new();
    for position in 0..count {
        tabs.push(TabInfo { position, active: position == active });
    }
    tabs
}

fn renderer_with_tabs(count: usize, active: usize) -> Renderer {
    let mut renderer = Renderer::default();
    let flag = renderer.update_tabs(active, tabs_with_active(count, active));
    assert_eq!(flag, FrameBuffer::MarkDirty);
    renderer
}

#[test]
fn update_mode_is_idempotent() {
    let mut renderer = Renderer::default();
    assert_eq!(renderer.update_mode(InputMode::Locked), FrameBuffer::MarkDirty);
    assert_eq!(renderer.update_mode(InputMode::Locked), FrameBuffer::NoUpdates);
    assert_eq!(renderer.update_mode(InputMode::Normal), FrameBuffer::MarkDirty);
}

#[test]
fn update_tabs_is_comparison_gated() {
    let mut renderer = Renderer::default();
    assert_eq!(
        renderer.update_tabs(1, tabs_with_active(3, 1)),
        FrameBuffer::MarkDirty
    );
    assert_eq!(renderer.segments.len(), renderer.tabs.len());

    // Unchanged pair: clean, no change.
    assert_eq!(
        renderer.update_tabs(1, tabs_with_active(3, 1)),
        FrameBuffer::NoUpdates
    );

    // Changed active index only: dirty.
    let mut moved = tabs_with_active(3, 1);
    moved[1].active = false;
    moved[2].active = true;
    assert_eq!(renderer.update_tabs(2, moved), FrameBuffer::MarkDirty);
    assert_eq!(renderer.segments.len(), renderer.tabs.len());

    // Changed list only (one more tab): dirty, segments regenerated.
    assert_eq!(
        renderer.update_tabs(2, tabs_with_active(4, 2)),
        FrameBuffer::MarkDirty
    );
    assert_eq!(renderer.segments.len(), 4);
    assert_eq!(renderer.tabs.len(), 4);
}

#[test]
fn empty_update_on_fresh_state_is_clean() {
    let mut renderer = Renderer::default();
    assert_eq!(renderer.update_tabs(0, Vec::new()), FrameBuffer::NoUpdates);
    assert_eq!(renderer.segments.len(), 0);
}

#[test]
fn hit_testing_partitions_columns() {
    // For tab counts 1 to 20, walk every column of the rendered strip and
    // check that the resolved segment agrees with the independently
    // computed span layout: label columns hit their own tab, separator and
    // trailing columns hit nothing.
    for count in 1..=20usize {
        let renderer = renderer_with_tabs(count, 0);

        // Expected span starts, from the label widths.
        let mut starts: Vec<usize> = Vec::new();
        let mut cursor: usize = 0;
        for i in 0..count {
            starts.push(cursor);
            cursor += (i + 1).to_string().len() + 1;
        }
        let total_width = cursor + 10;

        for col in 0..total_width {
            let hit = renderer.get_clicked_tab_segment(col);
            let mut expected: Option<usize> = None;
            for i in 0..count {
                let len = (i + 1).to_string().len();
                if col >= starts[i] && col < starts[i] + len {
                    assert!(expected.is_none(), "column {col} inside two spans");
                    expected = Some(i);
                }
            }
            match (hit, expected) {
                (Some(seg), Some(i)) => assert_eq!(seg.index, i),
                (None, None) => {}
                (got, want) => panic!(
                    "count {count} column {col}: got {:?}, want {:?}",
                    got.map(|s| s.index),
                    want
                ),
            }
        }
    }
}

#[test]
fn five_tabs_click_resolution() {
    // Five single-character labels "1".."5" with one separator column
    // after each: spans [0,1), [2,3), [4,5), [6,7), [8,9).
    let renderer = renderer_with_tabs(5, 2);
    let labels: Vec<String> = renderer.segments.iter().map(|s| s.label.clone()).collect();
    assert_eq!(labels, ["1", "2", "3", "4", "5"]);

    // Click on the first tab's segment switches to tab 0.
    assert_eq!(renderer.get_target_tab(0), Some(0));
    // Column 2 lies in the second tab's span.
    assert_eq!(renderer.get_target_tab(2), Some(1));
    // Column 4 is the active tab's own segment: no action.
    assert_eq!(renderer.get_target_tab(4), None);
    // Column 1 is a separator: not clickable.
    assert_eq!(renderer.get_target_tab(1), None);
    // Past the last segment: no target.
    assert_eq!(renderer.get_target_tab(9), None);
    assert_eq!(renderer.get_target_tab(1000), None);
}

#[test]
fn scroll_indices_at_first_tab() {
    let renderer = renderer_with_tabs(3, 0);
    assert_eq!(renderer.get_prev_tab_idx(), 0);
    assert_eq!(renderer.get_next_tab_idx(), 1);
}

#[test]
fn scroll_next_may_run_one_past_the_end() {
    let renderer = renderer_with_tabs(3, 2);
    assert_eq!(renderer.get_next_tab_idx(), 3);
    assert_eq!(renderer.get_prev_tab_idx(), 1);
}

#[test]
fn mode_labels() {
    assert_eq!(InputMode::Normal.label(), "NORMAL");
    assert_eq!(InputMode::RenameTab.label(), "RENAME TAB");
    assert_eq!(InputMode::EnterSearch.label(), "ENTER SEARCH");
    assert_eq!(InputMode::Tmux.label(), "TMUX");
}

#[test]
fn next_frame_exposes_current_state() {
    let mut renderer = renderer_with_tabs(2, 1);
    renderer.update_mode(InputMode::Pane);
    let frame = renderer.next_frame();
    assert_eq!(*frame.mode, InputMode::Pane);
    assert_eq!(frame.active_tab_idx, 1);
    assert_eq!(frame.segments.len(), 2);
    assert_eq!(frame.segments[0].label, "1");
    assert_eq!(frame.segments[1].label, "2");
}
