//! Deterministic synthetic conversation: which input channel speaks in each
//! frame. The host turns this schedule into tones and feeds them through the
//! same cores and metadata path as capture.
use vstd::prelude::*;

verus! {

/// Length of the demo: 1000 frames, 20 seconds.
pub const FRAMES: u32 = 1000;

/// Channels (A, B) speaking in frame `index`: A alone, a handoff to B, A
/// again, a 600 ms overlap in which B takes over, and A to close.
pub open spec fn demo_active(index: u32) -> (bool, bool) {
    if 50 <= index <= 199 {
        (true, false)
    } else if 220 <= index <= 369 {
        (false, true)
    } else if 400 <= index <= 499 {
        (true, false)
    } else if 500 <= index <= 529 {
        (true, true)
    } else if 530 <= index <= 679 {
        (false, true)
    } else if 720 <= index <= 849 {
        (true, false)
    } else {
        (false, false)
    }
}

/// Which channels speak in frame `index`, as `[A, B]`.
pub fn schedule(index: u32) -> (r: [bool; 2])
    ensures
        r[0] == demo_active(index).0,
        r[1] == demo_active(index).1,
{
    match index {
        50..=199 => [true, false],
        220..=369 => [false, true],
        400..=499 => [true, false],
        500..=529 => [true, true],
        530..=679 => [false, true],
        720..=849 => [true, false],
        _ => [false, false],
    }
}

/// The demo conversation, channel by channel (20 ms frames): A speaks in
/// frames 50..=199, 400..=529 and 720..=849; B in 220..=369 and 500..=679.
/// So they overlap exactly in frames 500..=529 (600 ms), where B joins A's
/// turn and stays on after A stops, and the demo is silent from frame 850.
pub proof fn lemma_demo_schedule(index: u32)
    ensures
        demo_active(index).0 == (50 <= index <= 199 || 400 <= index <= 529 || 720 <= index <= 849),
        demo_active(index).1 == (220 <= index <= 369 || 500 <= index <= 679),
        (demo_active(index).0 && demo_active(index).1) == (500 <= index <= 529),
        index >= 850 ==> demo_active(index) == (false, false),
{
}

} // verus!
