use compact_bar::outcome::{try_consume, EventLoopResult, FrameBuffer, UpdateError};

#[test]
fn as_bool_maps_dirty_to_true() {
    assert!(FrameBuffer::MarkDirty.as_bool());
    assert!(!FrameBuffer::NoUpdates.as_bool());
}

#[test]
fn from_bool_round_trips() {
    assert_eq!(FrameBuffer::from(true), FrameBuffer::MarkDirty);
    assert_eq!(FrameBuffer::from(false), FrameBuffer::NoUpdates);
    assert!(FrameBuffer::from(true).as_bool());
    assert!(!FrameBuffer::from(false).as_bool());
}

#[test]
fn default_is_no_updates() {
    assert_eq!(FrameBuffer::default(), FrameBuffer::NoUpdates);
}

#[test]
fn combine_is_or() {
    let clean = FrameBuffer::NoUpdates;
    let dirty = FrameBuffer::MarkDirty;
    assert_eq!(clean.combine(clean), clean);
    assert_eq!(clean.combine(dirty), dirty);
    assert_eq!(dirty.combine(clean), dirty);
    assert_eq!(dirty.combine(dirty), dirty);
}

#[test]
fn combine_result_passes_errors_through() {
    let err: EventLoopResult = Err(UpdateError { code: 3 });
    assert_eq!(FrameBuffer::MarkDirty.combine_result(err), err);
    assert_eq!(
        FrameBuffer::MarkDirty.combine_result(Ok(FrameBuffer::NoUpdates)),
        Ok(FrameBuffer::MarkDirty)
    );
}

#[test]
fn fold_of_empty_is_clean() {
    let results: Vec<EventLoopResult> = Vec::new();
    assert_eq!(try_consume(&results), Ok(FrameBuffer::NoUpdates));
}

#[test]
fn fold_without_errors_is_or_of_outcomes() {
    let all_clean: Vec<EventLoopResult> = vec![
        Ok(FrameBuffer::NoUpdates),
        Ok(FrameBuffer::NoUpdates),
        Ok(FrameBuffer::NoUpdates),
    ];
    assert_eq!(try_consume(&all_clean), Ok(FrameBuffer::NoUpdates));

    let one_dirty: Vec<EventLoopResult> = vec![
        Ok(FrameBuffer::NoUpdates),
        Ok(FrameBuffer::MarkDirty),
        Ok(FrameBuffer::NoUpdates),
    ];
    assert_eq!(try_consume(&one_dirty), Ok(FrameBuffer::MarkDirty));
}

#[test]
fn fold_returns_first_error() {
    let results: Vec<EventLoopResult> = vec![
        Ok(FrameBuffer::MarkDirty),
        Err(UpdateError { code: 7 }),
        Err(UpdateError { code: 8 }),
        Ok(FrameBuffer::NoUpdates),
    ];
    assert_eq!(try_consume(&results), Err(UpdateError { code: 7 }));
}

#[test]
fn elements_after_the_first_error_have_no_bearing() {
    let a: Vec<EventLoopResult> = vec![
        Ok(FrameBuffer::NoUpdates),
        Err(UpdateError { code: 1 }),
        Ok(FrameBuffer::MarkDirty),
    ];
    let b: Vec<EventLoopResult> = vec![
        Ok(FrameBuffer::NoUpdates),
        Err(UpdateError { code: 1 }),
        Err(UpdateError { code: 9 }),
    ];
    assert_eq!(try_consume(&a), try_consume(&b));
    assert_eq!(try_consume(&a), Err(UpdateError { code: 1 }));
}
