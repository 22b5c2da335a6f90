use libreland::copycapture::{
    complete_copy_frame, copy_capture_constraints_for, Completion, CopyCapture, CopyOutcome,
    FailureReason, Format, OutputSize, PendingCopyFrame, SessionChange, ShmFormat, Transform,
};
use libreland::geometry::{Point, Rect, Size};

#[test]
fn buffers_have_the_size_of_the_output() {
    let formats = vec![
        Format { code: 1, modifier: 10 },
        Format { code: 2, modifier: 20 },
        Format { code: 1, modifier: 11 },
    ];
    let size = Some(Size::new(640, 480));
    let c = copy_capture_constraints_for(size, Some(7), &formats, 1).unwrap();
    assert_eq!(c.size, Size::new(640, 480));
    assert_eq!(c.shm, vec![ShmFormat::Xrgb8888]);
    let dma = c.dma.unwrap();
    assert_eq!((dma.device, dma.code), (7, 1));
    assert_eq!(dma.modifiers, vec![10, 11]);
    let c = copy_capture_constraints_for(size, None, &formats, 1).unwrap();
    assert_eq!(c.shm, vec![ShmFormat::Xrgb8888]);
    assert!(c.dma.is_none());
    assert!(copy_capture_constraints_for(None, Some(7), &formats, 1).is_none());
}

#[test]
fn sessions_follow_their_outputs() {
    let mut c = CopyCapture::new();
    let small = Some(Size::new(640, 480));
    assert_eq!(c.new_session(Some("DP-1".to_owned()), small), 0);
    assert_eq!(c.new_session(Some("DP-2".to_owned()), small), 1);
    assert_eq!(c.new_session(None, None), 2);
    assert_eq!(c.new_session(Some("DP-1".to_owned()), None), 3);
    let now = vec![OutputSize { name: "DP-1".to_owned(), size: Size::new(640, 480) }];
    assert_eq!(
        c.refresh_copy_capture_constraints(&now),
        vec![
            SessionChange::Stopped { gone: 1 },
            SessionChange::Stopped { gone: 2 },
            SessionChange::Resized { key: 3, size: Size::new(640, 480) },
        ]
    );
    let keys: Vec<u64> = c.sessions.iter().map(|s| s.key).collect();
    assert_eq!(keys, vec![0, 3]);
    // Nothing is told twice.
    assert!(c.refresh_copy_capture_constraints(&now).is_empty());
    c.session_destroyed(0);
    let keys: Vec<u64> = c.sessions.iter().map(|s| s.key).collect();
    assert_eq!(keys, vec![3]);
    assert_eq!(c.new_session(None, None), 4);
}

#[test]
fn frames_wait_for_their_output() {
    let mut c = CopyCapture::new();
    let size = Some(Size::new(640, 480));
    assert_eq!(c.frame(None, 1, size, None, true, false), Some(FailureReason::Stopped));
    assert_eq!(
        c.frame(Some("DP-1"), 1, size, Some(false), true, false),
        Some(FailureReason::BufferConstraints)
    );
    assert_eq!(
        c.frame(Some("DP-1"), 1, size, Some(true), false, false),
        Some(FailureReason::Stopped)
    );
    assert!(c.frames.is_empty());
    assert_eq!(c.frame(Some("DP-1"), 1, size, Some(true), true, false), None);
    assert_eq!(c.frame(Some("DP-1"), 2, None, None, true, true), None);
    assert_eq!(c.frame(Some("DP-2"), 3, size, None, true, true), None);
    assert_eq!(c.frame(Some("DP-1"), 4, size, None, true, true), None);
    c.frame_aborted(4);
    let d = c.drain_copy_frames("DP-1", size);
    assert_eq!(d.due.len(), 1);
    assert_eq!(d.due[0].frame, 1);
    assert_eq!(d.failed, vec![2]);
    assert_eq!(d.reason, FailureReason::BufferConstraints);
    assert_eq!(c.frames.len(), 1);
    let d = c.drain_copy_frames("DP-2", None);
    assert!(d.due.is_empty());
    assert_eq!(d.failed, vec![3]);
    assert_eq!(d.reason, FailureReason::Stopped);
    assert!(c.frames.is_empty());
}

fn pending(buffer: Option<Size>) -> PendingCopyFrame {
    PendingCopyFrame { output: "DP-1".to_owned(), frame: 1, buffer, overlay_cursor: false }
}

#[test]
fn outcomes_have_their_reasons() {
    let frame = pending(Some(Size::new(640, 480)));
    assert_eq!(
        complete_copy_frame(&frame, CopyOutcome::Copied { written: false }),
        Completion::Failure { reason: FailureReason::BufferConstraints }
    );
    assert_eq!(
        complete_copy_frame(&frame, CopyOutcome::Failed),
        Completion::Failure { reason: FailureReason::Unknown }
    );
}

/// A frame that was filled counts as new all over.
#[test]
fn filled_frames_are_damaged_all_over() {
    let whole = Rect::new(Point::new(0, 0), Size::new(640, 480));
    for outcome in [CopyOutcome::Direct, CopyOutcome::Copied { written: true }] {
        assert_eq!(
            complete_copy_frame(&pending(Some(Size::new(640, 480))), outcome),
            Completion::Success { transform: Transform::Normal, damage: Some(vec![whole]) }
        );
        assert_eq!(
            complete_copy_frame(&pending(None), outcome),
            Completion::Success { transform: Transform::Normal, damage: None }
        );
    }
}
