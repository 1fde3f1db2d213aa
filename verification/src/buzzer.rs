//! The buzzer, which beeps the faster the longer the alarm rings.

use vstd::prelude::*;

verus! {

/// What the buzzer does next.
#[derive(Debug, Clone, Copy, PartialEq, Eq, Structural)]
pub enum BuzzerAction {
    /// On for so many milliseconds, then off for as many.
    Beep { ms: u64 },
    /// Off for so many milliseconds.
    Rest { ms: u64 },
}

/// How long a beep is, in milliseconds, after so many seconds of ringing.
pub open spec fn beep_ms(secs: u32) -> u64 {
    if secs < 60 {
        500
    } else if secs < 120 {
        300
    } else if secs < 180 {
        200
    } else {
        100
    }
}

/// What the buzzer does next.
pub fn buzzer_action(ringing: bool, secs: u32) -> (action: BuzzerAction)
    ensures
        action == (if ringing {
            BuzzerAction::Beep { ms: beep_ms(secs) }
        } else {
            BuzzerAction::Rest { ms: 100 }
        }),
        action is Beep <==> ringing,
{
    if ringing {
        let ms: u64 = if secs < 60 {
            500
        } else if secs < 120 {
            300
        } else if secs < 180 {
            200
        } else {
            100
        };
        BuzzerAction::Beep { ms }
    } else {
        BuzzerAction::Rest { ms: 100 }
    }
}

/// Beeps never get longer while the alarm rings.
pub proof fn law_beeps_quicken(earlier: u32, later: u32)
    requires
        earlier <= later,
    ensures
        0 < beep_ms(later) <= beep_ms(earlier),
{
}

/// A beep lasts half a second in the first minute of ringing, and then 300, 200 and
/// from the fourth minute on 100 milliseconds: it changes at full minutes only.
pub proof fn law_beep_lengths(secs: u32)
    ensures
        secs / 60 == 0 ==> beep_ms(secs) == 500,
        secs / 60 == 1 ==> beep_ms(secs) == 300,
        secs / 60 == 2 ==> beep_ms(secs) == 200,
        secs / 60 >= 3 ==> beep_ms(secs) == 100,
{
}

} // verus!
