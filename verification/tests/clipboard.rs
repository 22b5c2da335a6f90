use libreland::clipboard::{
    next_send, on_new_selection, start_send, InProgress, NewSelection, ReadEnd, ReadStep,
    SelectionTarget, Selections, SendStep, WriteOutcome, MAX_CACHE_BYTES,
};

const CLIP: SelectionTarget = SelectionTarget::Clipboard;
const PRIM: SelectionTarget = SelectionTarget::Primary;

fn types(names: &[&str]) -> Vec<String> {
    names.iter().map(|n| n.to_string()).collect()
}

#[test]
fn what_was_copied_is_pasted() {
    let mut s = Selections::new();
    let ts = types(&["text/plain", "text/html"]);
    assert_eq!(on_new_selection(&mut s, CLIP, Some(&ts)), NewSelection::Read { epoch: 1 });
    let mut p = InProgress::start(&s, CLIP, 1, ts).unwrap();
    assert!(p.expect(&mut s, 2));
    assert_eq!(p.received(3), ReadStep::Keep);
    assert!(matches!(
        p.finish_mime(&mut s, "text/plain".to_owned(), b"abc".to_vec()),
        ReadEnd::Waiting
    ));
    assert_eq!(s.cached_bytes(CLIP, "text/plain"), None);
    match p.finish_mime(&mut s, "text/html".to_owned(), vec![]) {
        ReadEnd::Stored { mimes } => assert_eq!(mimes, vec!["text/plain", "text/html"]),
        other => panic!("{other:?}"),
    }
    assert_eq!(s.cached_bytes(CLIP, "text/plain"), Some(b"abc".to_vec()));
    assert_eq!(s.cached_bytes(CLIP, "text/html"), Some(vec![]));
    assert_eq!(s.cached_bytes(CLIP, "image/png"), None);
    assert_eq!(s.cached_bytes(PRIM, "text/plain"), None);
    // A selection that is taken back is gone.
    assert_eq!(on_new_selection(&mut s, CLIP, None), NewSelection::Cleared);
    assert_eq!(s.cached_bytes(CLIP, "text/plain"), None);
    assert_eq!((s.epoch(CLIP), s.epoch(PRIM)), (2, 0));
}

#[test]
fn a_newer_selection_wins() {
    let mut s = Selections::new();
    let ts = types(&["a"]);
    on_new_selection(&mut s, PRIM, Some(&ts));
    let mut p = InProgress::start(&s, PRIM, 1, types(&["a"])).unwrap();
    p.expect(&mut s, 1);
    p.received(1);
    on_new_selection(&mut s, PRIM, Some(&ts));
    assert!(matches!(
        p.finish_mime(&mut s, "a".to_owned(), vec![1]),
        ReadEnd::Superseded
    ));
    assert_eq!(s.cached_bytes(PRIM, "a"), None);
    assert!(InProgress::start(&s, PRIM, 1, ts).is_none());
}

/// A read that was too much and comes too late leaves the newer contents alone.
#[test]
fn a_late_read_that_was_too_much_drops_nothing() {
    let mut s = Selections::new();
    let ts = types(&["a"]);
    on_new_selection(&mut s, CLIP, Some(&ts));
    let mut p = InProgress::start(&s, CLIP, 1, types(&["a"])).unwrap();
    p.expect(&mut s, 1);
    assert_eq!(p.received(MAX_CACHE_BYTES + 1), ReadStep::TooLarge);
    on_new_selection(&mut s, CLIP, Some(&ts));
    s.set_image(CLIP, "image/png".to_owned(), vec![9]);
    assert!(matches!(p.finish_mime(&mut s, "a".to_owned(), vec![]), ReadEnd::Superseded));
    assert_eq!(s.cached_bytes(CLIP, "image/png"), Some(vec![9]));
}

#[test]
fn nothing_and_too_much_are_dropped() {
    let mut s = Selections::new();
    s.set_image(CLIP, "image/png".to_owned(), vec![9]);
    assert_eq!(s.cached_bytes(CLIP, "image/png"), Some(vec![9]));
    let mut p = InProgress::start(&s, CLIP, 0, types(&["a"])).unwrap();
    p.expect(&mut s, 1);
    assert!(matches!(p.finish_mime(&mut s, "a".to_owned(), vec![]), ReadEnd::Dropped));
    assert_eq!(s.cached_bytes(CLIP, "image/png"), None);
    let mut p = InProgress::start(&s, CLIP, 0, types(&["a"])).unwrap();
    p.expect(&mut s, 1);
    assert_eq!(p.received(MAX_CACHE_BYTES), ReadStep::Keep);
    assert_eq!(p.received(1), ReadStep::TooLarge);
    assert!(matches!(p.finish_mime(&mut s, "a".to_owned(), vec![1]), ReadEnd::Dropped));
    assert_eq!(s.cached_bytes(CLIP, "a"), None);
    s.set_image(CLIP, "image/png".to_owned(), vec![9]);
    let mut p = InProgress::start(&s, CLIP, 0, types(&["a"])).unwrap();
    assert!(!p.expect(&mut s, 0));
    assert_eq!(s.cached_bytes(CLIP, "image/png"), None);
}

#[test]
fn contents_are_written_bit_by_bit() {
    assert_eq!(start_send(0), SendStep::Done);
    assert_eq!(start_send(10), SendStep::Write { from: 0 });
    assert_eq!(next_send(10, 0, WriteOutcome::Wrote(4)), SendStep::Write { from: 4 });
    assert_eq!(next_send(10, 4, WriteOutcome::Full), SendStep::Wait);
    assert_eq!(next_send(10, 4, WriteOutcome::Interrupted), SendStep::Write { from: 4 });
    assert_eq!(next_send(10, 4, WriteOutcome::Wrote(6)), SendStep::Done);
    assert_eq!(next_send(10, 4, WriteOutcome::Wrote(0)), SendStep::Done);
    assert_eq!(next_send(10, 4, WriteOutcome::Failed), SendStep::Done);
}
