//! Default values of the application configuration, used where a saved
//! configuration leaves a setting out.

use vstd::prelude::*;
use crate::timing::{ClickType, TimeSignature};

verus! {

/// Configuration format version.
pub fn default_config_version() -> (r: String)
    ensures
        r@ == "1.0"@,
{
    String::from_str("1.0")
}

/// Common time.
pub fn default_time_signature() -> (r: TimeSignature)
    ensures
        r == (TimeSignature { beats_per_measure: 4, note_value: 4 }),
{
    TimeSignature::new(4, 4)
}

/// Wood block clicks.
pub fn default_click_type() -> (r: ClickType)
    ensures
        r == ClickType::WoodBlock,
{
    ClickType::WoodBlock
}

/// The first beat of each measure is accented.
pub fn default_accent_first_beat() -> (r: bool)
    ensures
        r,
{
    true
}

/// Patterns loop.
pub fn default_loop_patterns() -> (r: bool)
    ensures
        r,
{
    true
}

/// The default UI theme.
pub fn default_theme() -> (r: String)
    ensures
        r@ == "default"@,
{
    String::from_str("default")
}

/// The default beat color scheme.
pub fn default_color_scheme() -> (r: String)
    ensures
        r@ == "default"@,
{
    String::from_str("default")
}

} // verus!
