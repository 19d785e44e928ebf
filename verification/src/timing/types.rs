//! Time signatures and click sounds.

use vstd::prelude::*;
use vstd::string::*;

verus! {

/// The character of the decimal digit `d` (0-9).
pub open spec fn digit_char(d: int) -> char {
    if d == 0 {
        '0'
    } else if d == 1 {
        '1'
    } else if d == 2 {
        '2'
    } else if d == 3 {
        '3'
    } else if d == 4 {
        '4'
    } else if d == 5 {
        '5'
    } else if d == 6 {
        '6'
    } else if d == 7 {
        '7'
    } else if d == 8 {
        '8'
    } else {
        '9'
    }
}

/// Decimal representation of a natural number, without leading zeros.
pub open spec fn decimal_view(n: nat) -> Seq<char>
    decreases n,
{
    if n < 10 {
        seq![digit_char(n as int)]
    } else {
        decimal_view(n / 10).push(digit_char((n % 10) as int))
    }
}

/// The one-character string of the decimal digit `d`.
fn digit_str(d: u8) -> (r: &'static str)
    requires
        d < 10,
    ensures
        r@ == seq![digit_char(d as int)],
{
    proof {
        reveal_strlit("0");
        reveal_strlit("1");
        reveal_strlit("2");
        reveal_strlit("3");
        reveal_strlit("4");
        reveal_strlit("5");
        reveal_strlit("6");
        reveal_strlit("7");
        reveal_strlit("8");
        reveal_strlit("9");
    }
    if d == 0 {
        "0"
    } else if d == 1 {
        "1"
    } else if d == 2 {
        "2"
    } else if d == 3 {
        "3"
    } else if d == 4 {
        "4"
    } else if d == 5 {
        "5"
    } else if d == 6 {
        "6"
    } else if d == 7 {
        "7"
    } else if d == 8 {
        "8"
    } else {
        "9"
    }
}

/// Append the decimal representation of `n` to `s`.
fn push_decimal(s: &mut String, n: u8)
    ensures
        final(s)@ == old(s)@ + decimal_view(n as nat),
{
    if n >= 100 {
        s.append(digit_str(n / 100));
        s.append(digit_str((n / 10) % 10));
        s.append(digit_str(n % 10));
        proof {
            assert(decimal_view(n as nat) == decimal_view((n / 10) as nat).push(
                digit_char((n % 10) as int),
            ));
            assert(decimal_view((n / 10) as nat) == decimal_view((n / 100) as nat).push(
                digit_char(((n / 10) % 10) as int),
            ));
            assert((n / 10) / 10 == n / 100);
        }
    } else if n >= 10 {
        s.append(digit_str(n / 10));
        s.append(digit_str(n % 10));
        proof {
            assert(decimal_view(n as nat) == decimal_view((n / 10) as nat).push(
                digit_char((n % 10) as int),
            ));
        }
    } else {
        s.append(digit_str(n));
    }
    proof {
        assert(final(s)@ =~= old(s)@ + decimal_view(n as nat));
    }
}

/// Time signature such as 4/4, 3/4 or 6/8.
#[derive(Debug, Clone, Copy, PartialEq, Eq, Structural)]
pub struct TimeSignature {
    pub beats_per_measure: u8,
    /// 4 = quarter note, 8 = eighth note, etc.
    pub note_value: u8,
}

/// The signatures offered to users, with their display names.
pub open spec fn common_signature_list() -> Seq<(Seq<char>, TimeSignature)> {
    seq![
        ("4/4"@, TimeSignature { beats_per_measure: 4, note_value: 4 }),
        ("3/4"@, TimeSignature { beats_per_measure: 3, note_value: 4 }),
        ("2/4"@, TimeSignature { beats_per_measure: 2, note_value: 4 }),
        ("6/8"@, TimeSignature { beats_per_measure: 6, note_value: 8 }),
        ("9/8"@, TimeSignature { beats_per_measure: 9, note_value: 8 }),
        ("12/8"@, TimeSignature { beats_per_measure: 12, note_value: 8 }),
        ("5/4"@, TimeSignature { beats_per_measure: 5, note_value: 4 }),
        ("7/8"@, TimeSignature { beats_per_measure: 7, note_value: 8 }),
    ]
}

impl TimeSignature {
    /// Display text such as "4/4".
    pub open spec fn display_view(self) -> Seq<char> {
        decimal_view(self.beats_per_measure as nat) + "/"@ + decimal_view(self.note_value as nat)
    }

    /// Create a new time signature.
    pub fn new(beats: u8, note_value: u8) -> (r: Self)
        ensures
            r == (TimeSignature { beats_per_measure: beats, note_value }),
    {
        Self { beats_per_measure: beats, note_value }
    }

    /// Common time signatures with their display names.
    pub fn common_signatures() -> (r: Vec<(&'static str, TimeSignature)>)
        ensures
            r@.len() == common_signature_list().len(),
            forall|i: int|
                0 <= i < r@.len() ==> (#[trigger] r@[i]).0@ == common_signature_list()[i].0
                    && r@[i].1 == common_signature_list()[i].1,
    {
        let r = vec![
            ("4/4", TimeSignature::new(4, 4)),
            ("3/4", TimeSignature::new(3, 4)),
            ("2/4", TimeSignature::new(2, 4)),
            ("6/8", TimeSignature::new(6, 8)),
            ("9/8", TimeSignature::new(9, 8)),
            ("12/8", TimeSignature::new(12, 8)),
            ("5/4", TimeSignature::new(5, 4)),
            ("7/8", TimeSignature::new(7, 8)),
        ];
        r
    }

    /// Display string for this time signature, e.g. "4/4".
    pub fn display(&self) -> (r: String)
        ensures
            r@ == self.display_view(),
    {
        let mut text = String::new();
        push_decimal(&mut text, self.beats_per_measure);
        text.append("/");
        push_decimal(&mut text, self.note_value);
        proof {
            assert(text@ =~= self.display_view());
        }
        text
    }
}

/// Every common signature is listed under its own display text.
pub proof fn law_common_signature_names()
    ensures
        forall|i: int|
            0 <= i < common_signature_list().len() ==> (#[trigger] common_signature_list()[i]).0
                == common_signature_list()[i].1.display_view(),
{
    reveal_strlit("4/4");
    reveal_strlit("3/4");
    reveal_strlit("2/4");
    reveal_strlit("6/8");
    reveal_strlit("9/8");
    reveal_strlit("12/8");
    reveal_strlit("5/4");
    reveal_strlit("7/8");
    reveal_strlit("/");
    reveal_with_fuel(decimal_view, 3);
    assert forall|i: int|
        0 <= i < common_signature_list().len() implies (#[trigger] common_signature_list()[i]).0
        == common_signature_list()[i].1.display_view() by {
        let l = common_signature_list();
        assert(decimal_view(12) =~= seq!['1', '2']);
        if i == 0 {
            assert(l[i].0 =~= l[i].1.display_view());
        } else if i == 1 {
            assert(l[i].0 =~= l[i].1.display_view());
        } else if i == 2 {
            assert(l[i].0 =~= l[i].1.display_view());
        } else if i == 3 {
            assert(l[i].0 =~= l[i].1.display_view());
        } else if i == 4 {
            assert(l[i].0 =~= l[i].1.display_view());
        } else if i == 5 {
            assert(l[i].0 =~= l[i].1.display_view());
        } else if i == 6 {
            assert(l[i].0 =~= l[i].1.display_view());
        } else {
            assert(l[i].0 =~= l[i].1.display_view());
        }
    }
}

/// Metronome click and drum sample sounds.
#[derive(Debug, Clone, Copy, PartialEq, Eq, Structural, Hash)]
pub enum ClickType {
    /// Sharp percussive click
    WoodBlock,
    /// Clean sine wave beep
    DigitalBeep,
    /// Metallic ring
    Cowbell,
    /// Electronic click
    ElectroClick,
    /// Acoustic kick drum
    AcousticKick,
    /// Acoustic snare drum
    AcousticSnare,
    /// Closed hi-hat
    HiHatClosed,
    /// Open hi-hat
    HiHatOpen,
    /// Snare rim shot
    RimShot,
    /// Drumstick click
    Stick,
}

/// The synthetic click sounds, in menu order.
pub open spec fn synthetic_list() -> Seq<ClickType> {
    seq![ClickType::WoodBlock, ClickType::DigitalBeep, ClickType::Cowbell, ClickType::ElectroClick]
}

/// The real drum sample sounds, in menu order.
pub open spec fn drum_list() -> Seq<ClickType> {
    seq![
        ClickType::AcousticKick,
        ClickType::AcousticSnare,
        ClickType::HiHatClosed,
        ClickType::HiHatOpen,
        ClickType::RimShot,
        ClickType::Stick,
    ]
}

impl ClickType {
    /// Whether the sound is synthesized rather than a recorded sample.
    pub open spec fn synthetic(self) -> bool {
        match self {
            ClickType::WoodBlock | ClickType::DigitalBeep | ClickType::Cowbell
            | ClickType::ElectroClick => true,
            _ => false,
        }
    }

    /// Display name of the sound.
    pub open spec fn name_view(self) -> Seq<char> {
        match self {
            ClickType::WoodBlock => "Wood Block"@,
            ClickType::DigitalBeep => "Digital Beep"@,
            ClickType::Cowbell => "Cowbell"@,
            ClickType::ElectroClick => "Electro Click"@,
            ClickType::AcousticKick => "Acoustic Kick"@,
            ClickType::AcousticSnare => "Acoustic Snare"@,
            ClickType::HiHatClosed => "Hi-Hat Closed"@,
            ClickType::HiHatOpen => "Hi-Hat Open"@,
            ClickType::RimShot => "Rim Shot"@,
            ClickType::Stick => "Drum Stick"@,
        }
    }

    /// All click types: the synthetic sounds followed by the drum samples.
    pub fn all() -> (r: Vec<ClickType>)
        ensures
            r@ == synthetic_list() + drum_list(),
    {
        let r = vec![
            ClickType::WoodBlock,
            ClickType::DigitalBeep,
            ClickType::Cowbell,
            ClickType::ElectroClick,
            ClickType::AcousticKick,
            ClickType::AcousticSnare,
            ClickType::HiHatClosed,
            ClickType::HiHatOpen,
            ClickType::RimShot,
            ClickType::Stick,
        ];
        assert(r@ =~= synthetic_list() + drum_list());
        r
    }

    /// Display name of this click type.
    pub fn name(self) -> (r: &'static str)
        ensures
            r@ == self.name_view(),
    {
        match self {
            ClickType::WoodBlock => "Wood Block",
            ClickType::DigitalBeep => "Digital Beep",
            ClickType::Cowbell => "Cowbell",
            ClickType::ElectroClick => "Electro Click",
            ClickType::AcousticKick => "Acoustic Kick",
            ClickType::AcousticSnare => "Acoustic Snare",
            ClickType::HiHatClosed => "Hi-Hat Closed",
            ClickType::HiHatOpen => "Hi-Hat Open",
            ClickType::RimShot => "Rim Shot",
            ClickType::Stick => "Drum Stick",
        }
    }

    /// Whether this is a synthetic sound (vs. a real sample).
    pub fn is_synthetic(self) -> (r: bool)
        ensures
            r == self.synthetic(),
    {
        match self {
            ClickType::WoodBlock | ClickType::DigitalBeep | ClickType::Cowbell
            | ClickType::ElectroClick => true,
            _ => false,
        }
    }

    /// Synthetic sounds only.
    pub fn synthetic_sounds() -> (r: Vec<ClickType>)
        ensures
            r@ == synthetic_list(),
    {
        let r = vec![
            ClickType::WoodBlock,
            ClickType::DigitalBeep,
            ClickType::Cowbell,
            ClickType::ElectroClick,
        ];
        assert(r@ =~= synthetic_list());
        r
    }

    /// Real drum samples only.
    pub fn drum_samples() -> (r: Vec<ClickType>)
        ensures
            r@ == drum_list(),
    {
        let r = vec![
            ClickType::AcousticKick,
            ClickType::AcousticSnare,
            ClickType::HiHatClosed,
            ClickType::HiHatOpen,
            ClickType::RimShot,
            ClickType::Stick,
        ];
        assert(r@ =~= drum_list());
        r
    }
}

/// The synthetic list holds exactly the synthetic sounds, the drum list exactly
/// the others, and together they list every click type once.
pub proof fn law_click_type_partition(c: ClickType)
    ensures
        synthetic_list().contains(c) <==> c.synthetic(),
        drum_list().contains(c) <==> !c.synthetic(),
        (synthetic_list() + drum_list()).contains(c),
        (synthetic_list() + drum_list()).no_duplicates(),
{
    let all = synthetic_list() + drum_list();
    match c {
        ClickType::WoodBlock => assert(all[0] == c && synthetic_list()[0] == c),
        ClickType::DigitalBeep => assert(all[1] == c && synthetic_list()[1] == c),
        ClickType::Cowbell => assert(all[2] == c && synthetic_list()[2] == c),
        ClickType::ElectroClick => assert(all[3] == c && synthetic_list()[3] == c),
        ClickType::AcousticKick => assert(all[4] == c && drum_list()[0] == c),
        ClickType::AcousticSnare => assert(all[5] == c && drum_list()[1] == c),
        ClickType::HiHatClosed => assert(all[6] == c && drum_list()[2] == c),
        ClickType::HiHatOpen => assert(all[7] == c && drum_list()[3] == c),
        ClickType::RimShot => assert(all[8] == c && drum_list()[4] == c),
        ClickType::Stick => assert(all[9] == c && drum_list()[5] == c),
    }
}

} // verus!
