//! Accent contexts (how strongly an accented beat stands out depends on
//! where it is played) and the drum sound that accents a drum click.

use vstd::prelude::*;
use crate::timing::types::ClickType;

verus! {

/// Context for accent generation.
#[derive(Debug, Clone, Copy, PartialEq, Eq, Structural)]
pub enum AccentContext {
    /// Regular metronome with click sound contrast
    Metronome,
    /// Drum pattern where same samples need volume differentiation
    DrumPattern,
    /// Practice session with moderate emphasis
    Practice,
    /// Performance with strong emphasis
    Performance,
}

/// The drum sound that accents a click: the snare for the kick, the kick
/// for every other drum sample; synthetic clicks get a synthetic accent
/// instead (`None`).
pub fn accent_contrast(click_type: ClickType) -> (r: Option<ClickType>)
    ensures
        r == match click_type {
            ClickType::AcousticKick => Some(ClickType::AcousticSnare),
            ClickType::AcousticSnare | ClickType::HiHatClosed | ClickType::HiHatOpen | ClickType::RimShot
            | ClickType::Stick => Some(ClickType::AcousticKick),
            _ => None::<ClickType>,
        },
        r matches Some(c) ==> !c.synthetic() && c != click_type,
        r is None <==> click_type.synthetic(),
{
    match click_type {
        ClickType::AcousticKick => Some(ClickType::AcousticSnare),
        ClickType::AcousticSnare | ClickType::HiHatClosed | ClickType::HiHatOpen | ClickType::RimShot
        | ClickType::Stick => Some(ClickType::AcousticKick),
        _ => None,
    }
}

} // verus!
