use sup_decode::display_set::{DisplaySetBuilder, DisplaySetState};
use sup_decode::viewer::{navigate, Message};

#[test]
fn next_and_previous_frame() {
    assert_eq!(navigate(0, 3, Message::NextFrame), 1);
    assert_eq!(navigate(1, 3, Message::NextFrame), 2);
    assert_eq!(navigate(2, 3, Message::PrevFrame), 1);
    assert_eq!(navigate(1, 3, Message::PrevFrame), 0);
}

#[test]
fn navigation_stops_at_both_ends() {
    assert_eq!(navigate(2, 3, Message::NextFrame), 2);
    assert_eq!(navigate(0, 3, Message::PrevFrame), 0);
    assert_eq!(navigate(0, 1, Message::NextFrame), 0);
    assert_eq!(navigate(0, 0, Message::NextFrame), 0);
    assert_eq!(navigate(0, 0, Message::PrevFrame), 0);
}

#[test]
fn default_builder_is_empty() {
    let builder = DisplaySetBuilder::default();
    assert_eq!(builder.state(), DisplaySetState::Incomplete);
    assert!(builder.pts.is_none() && builder.pcs.is_none());
    assert!(builder.wds.is_empty());
    assert!(builder.pds.is_none() && builder.ods.is_none());
}
