//! Motion design tokens.
use vstd::prelude::*;

verus! {

/// Transition durations, in milliseconds.
#[derive(Debug, Clone, Copy, PartialEq, Eq, Structural)]
pub struct MotionTokens {
    pub duration_short_1: u32,
    pub duration_short_2: u32,
    pub duration_short_3: u32,
    pub duration_short_4: u32,
    pub duration_medium_1: u32,
    pub duration_medium_2: u32,
    pub duration_medium_3: u32,
    pub duration_medium_4: u32,
    pub duration_long_1: u32,
    pub duration_long_2: u32,
}

/// The Material 3 motion durations: ten steps of 50 ms, from 50 ms for the
/// first short duration to 500 ms for the second long one.
pub open spec fn material_durations() -> Seq<u32> {
    Seq::new(10, |i: int| (50 * (i + 1)) as u32)
}

impl MotionTokens {
    /// The durations in order, shortest first.
    pub open spec fn durations(self) -> Seq<u32> {
        seq![
            self.duration_short_1,
            self.duration_short_2,
            self.duration_short_3,
            self.duration_short_4,
            self.duration_medium_1,
            self.duration_medium_2,
            self.duration_medium_3,
            self.duration_medium_4,
            self.duration_long_1,
            self.duration_long_2,
        ]
    }
}

impl Default for MotionTokens {
    /// The Material 3 durations: 50 ms to 500 ms in steps of 50 ms.
    fn default() -> (m: MotionTokens)
        ensures
            m == (MotionTokens {
                duration_short_1: 50,
                duration_short_2: 100,
                duration_short_3: 150,
                duration_short_4: 200,
                duration_medium_1: 250,
                duration_medium_2: 300,
                duration_medium_3: 350,
                duration_medium_4: 400,
                duration_long_1: 450,
                duration_long_2: 500,
            }),
            m.durations() == material_durations(),
    {
        let m = MotionTokens {
            duration_short_1: 50,
            duration_short_2: 100,
            duration_short_3: 150,
            duration_short_4: 200,
            duration_medium_1: 250,
            duration_medium_2: 300,
            duration_medium_3: 350,
            duration_medium_4: 400,
            duration_long_1: 450,
            duration_long_2: 500,
        };
        assert(m.durations() =~= material_durations());
        m
    }
}

/// The default durations grow by 50 ms from one step to the next, starting
/// at 50 ms.
pub proof fn law_durations_step_by_fifty()
    ensures
        material_durations().len() == 10,
        material_durations()[0] == 50,
        forall|i: int| 0 < i < 10 ==> #[trigger] material_durations()[i] == material_durations()[i - 1] + 50,
{
}

} // verus!
