use ice_engine::frame::Framer;
use ice_engine::host::demo::schedule;

#[test]
fn assembles_fixed_frames_across_chunks() {
    let mut framer = Framer::new(4);
    assert!(framer.push(&[1.0f32, 2.0]).is_empty());
    let frames = framer.push(&[3.0, 4.0, 5.0]);
    assert_eq!(frames, vec![vec![1.0, 2.0, 3.0, 4.0]]);
    let frames = framer.push(&[6.0, 7.0, 8.0, 9.0, 10.0]);
    assert_eq!(frames, vec![vec![5.0, 6.0, 7.0, 8.0]]);
}

#[test]
fn framer_returns_several_frames_from_one_chunk() {
    let mut framer = Framer::new(2);
    let frames = framer.push(&[1u8, 2, 3, 4, 5]);
    assert_eq!(frames, vec![vec![1, 2], vec![3, 4]]);
    assert_eq!(framer.push(&[6]), vec![vec![5, 6]]);
}

#[test]
fn demo_schedule_has_one_overlap() {
    assert_eq!(schedule(0), [false, false]);
    assert_eq!(schedule(50), [true, false]);
    assert_eq!(schedule(220), [false, true]);
    assert_eq!(schedule(510), [true, true]);
    assert_eq!(schedule(600), [false, true]);
    assert_eq!(schedule(849), [true, false]);
    assert_eq!(schedule(850), [false, false]);
}
