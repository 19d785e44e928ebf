//! The text forms of the JSON pattern catalog: time signatures written
//! `beats/note`, drum sample names, and the genre read from a pattern's name.

use vstd::prelude::*;
use vstd::string::*;
use crate::patterns::library::{chars_of, lowercase, occurs, occurs_in, to_lowercase};
use crate::patterns::types::PatternGenre;
use crate::timing::types::{ClickType, TimeSignature};

verus! {

/// Errors in pattern catalog data.
#[derive(Debug, Clone)]
pub enum PatternIoError {
    /// A time signature that is not `beats/note`
    InvalidTimeSignature(String),
    /// A sample name the catalog does not know
    UnknownSampleType(String),
    /// Pattern data that cannot be used
    InvalidPattern(String),
}

/// `c` is an ASCII decimal digit.
pub open spec fn is_digit(c: char) -> bool {
    48 <= c as u32 <= 57
}

/// The value of a decimal digit.
pub open spec fn digit_value(c: char) -> int {
    c as u32 - 48
}

/// Every character of `s` is a decimal digit.
pub open spec fn all_digits(s: Seq<char>) -> bool {
    forall|i: int| 0 <= i < s.len() ==> is_digit(#[trigger] s[i])
}

/// The number a run of decimal digits writes, most significant first.
pub open spec fn digits_value(s: Seq<char>) -> nat
    decreases s.len(),
{
    if s.len() == 0 {
        0
    } else {
        (digits_value(s.drop_last()) * 10 + digit_value(s.last())) as nat
    }
}

/// What reading `s` as a `u8` gives: an optional `+`, then one or more
/// decimal digits writing a number of at most 255.
pub open spec fn parsed_u8(s: Seq<char>) -> Option<u8> {
    let d = if s.len() > 0 && s[0] == '+' {
        s.subrange(1, s.len() as int)
    } else {
        s
    };
    if d.len() > 0 && all_digits(d) && digits_value(d) <= 255 {
        Some(digits_value(d) as u8)
    } else {
        None
    }
}

/// How often `c` occurs in `s`.
pub open spec fn count_char(s: Seq<char>, c: char) -> nat
    decreases s.len(),
{
    if s.len() == 0 {
        0
    } else {
        count_char(s.drop_last(), c) + if s.last() == c {
            1nat
        } else {
            0nat
        }
    }
}

/// The position of the first `c` in `s` (the length of `s` when there is none).
pub open spec fn first_index(s: Seq<char>, c: char) -> int
    decreases s.len(),
{
    if s.len() == 0 {
        0
    } else {
        let f = first_index(s.drop_last(), c);
        if f < s.len() - 1 {
            f
        } else if s.last() == c {
            s.len() - 1
        } else {
            s.len() as int
        }
    }
}

/// What reading a time signature `beats/note` gives: exactly one `/`, with a
/// `u8` on each side.
pub open spec fn parsed_time_signature(s: Seq<char>) -> Option<TimeSignature> {
    if count_char(s, '/') == 1 {
        let k = first_index(s, '/');
        match (parsed_u8(s.subrange(0, k)), parsed_u8(s.subrange(k + 1, s.len() as int))) {
            (Some(beats), Some(note_value)) => Some(TimeSignature { beats_per_measure: beats, note_value }),
            _ => None,
        }
    } else {
        None
    }
}

/// The character of a decimal digit.
pub open spec fn digit_char(d: nat) -> char {
    if d == 0 {
        '0'
    } else if d == 1 {
        '1'
    } else if d == 2 {
        '2'
    } else if d == 3 {
        '3'
    } else if d == 4 {
        '4'
    } else if d == 5 {
        '5'
    } else if d == 6 {
        '6'
    } else if d == 7 {
        '7'
    } else if d == 8 {
        '8'
    } else {
        '9'
    }
}

/// The decimal form of `n`, without leading zeros.
pub open spec fn decimal_text(n: nat) -> Seq<char>
    decreases n,
{
    if n < 10 {
        seq![digit_char(n)]
    } else {
        decimal_text(n / 10).push(digit_char(n % 10))
    }
}

/// A time signature written `beats/note`.
pub open spec fn time_signature_text_view(ts: TimeSignature) -> Seq<char> {
    decimal_text(ts.beats_per_measure as nat) + seq!['/'] + decimal_text(ts.note_value as nat)
}

/// Digits written after all-digit text add to its value.
proof fn lemma_digits_value_grows(s: Seq<char>, k: int)
    requires
        all_digits(s),
        0 <= k <= s.len(),
    ensures
        digits_value(s.subrange(0, k)) <= digits_value(s),
    decreases s.len(),
{
    if k < s.len() {
        let t = s.drop_last();
        assert(all_digits(t)) by {
            assert forall|i: int| 0 <= i < t.len() implies is_digit(#[trigger] t[i]) by {
                assert(t[i] == s[i]);
            }
        }
        lemma_digits_value_grows(t, k);
        assert(t.subrange(0, k) =~= s.subrange(0, k));
        assert(is_digit(s[s.len() - 1]));
    } else {
        assert(s.subrange(0, k) =~= s);
    }
}

/// Read `s[start..end]` as a `u8`.
fn parse_u8_text(s: &Vec<char>, start: usize, end: usize) -> (r: Option<u8>)
    requires
        start <= end <= s@.len(),
    ensures
        r == parsed_u8(s@.subrange(start as int, end as int)),
{
    let ghost text = s@.subrange(start as int, end as int);
    let mut i = start;
    if i < end && s[i] == '+' {
        i = i + 1;
    }
    let ghost d = if text.len() > 0 && text[0] == '+' {
        text.subrange(1, text.len() as int)
    } else {
        text
    };
    assert(d =~= s@.subrange(i as int, end as int));
    if i == end {
        return None;
    }
    let first = i;
    let mut value: u32 = 0;
    while i < end
        invariant
            first <= i <= end <= s@.len(),
            first < end,
            text == s@.subrange(start as int, end as int),
            d == (if text.len() > 0 && text[0] == '+' {
                text.subrange(1, text.len() as int)
            } else {
                text
            }),
            d =~= s@.subrange(first as int, end as int),
            all_digits(s@.subrange(first as int, i as int)),
            value == digits_value(s@.subrange(first as int, i as int)),
            value <= 255,
        decreases end - i,
    {
        let c = s[i];
        let code = c as u32;
        if !(48 <= code && code <= 57) {
            proof {
                assert(d[i - first] == c);
                assert(!is_digit(d[i - first]));
            }
            return None;
        }
        let ghost prefix = s@.subrange(first as int, i + 1);
        proof {
            assert(prefix.drop_last() =~= s@.subrange(first as int, i as int));
            assert(prefix.last() == c);
            assert(all_digits(prefix)) by {
                assert forall|k: int| 0 <= k < prefix.len() implies is_digit(#[trigger] prefix[k]) by {
                    if k < prefix.len() - 1 {
                        assert(prefix[k] == s@.subrange(first as int, i as int)[k]);
                    }
                }
            }
        }
        value = value * 10 + (code - 48);
        if value > 255 {
            proof {
                if all_digits(d) {
                    lemma_digits_value_grows(d, i + 1 - first);
                    assert(d.subrange(0, i + 1 - first) =~= prefix);
                }
            }
            return None;
        }
        i = i + 1;
    }
    Some(value as u8)
}

/// Read a time signature written `beats/note`: exactly one `/`, with a `u8`
/// on each side (an optional `+`, then decimal digits); anything else is an
/// invalid time signature.
pub fn parse_time_signature(text: &str) -> (r: Result<TimeSignature, PatternIoError>)
    ensures
        match parsed_time_signature(text@) {
            Some(ts) => r == Ok::<TimeSignature, PatternIoError>(ts),
            None => r matches Err(PatternIoError::InvalidTimeSignature(t)) && t@ == text@,
        },
{
    let chars = chars_of(text);
    let mut count: usize = 0;
    let mut first: usize = 0;
    let mut i: usize = 0;
    while i < chars.len()
        invariant
            chars@ == text@,
            i <= chars@.len(),
            count == count_char(chars@.take(i as int), '/'),
            first == first_index(chars@.take(i as int), '/'),
            count <= i,
        decreases chars.len() - i,
    {
        proof {
            assert(chars@.take(i + 1).drop_last() =~= chars@.take(i as int));
            assert(chars@.take(i + 1).last() == chars@[i as int]);
        }
        if chars[i] == '/' {
            if count == 0 {
                first = i;
            }
            count = count + 1;
        } else if count == 0 {
            first = i + 1;
        }
        proof {
            lemma_first_index_bounds(chars@.take(i as int), '/');
            lemma_first_index_bounds(chars@.take(i + 1), '/');
        }
        i = i + 1;
    }
    proof {
        assert(chars@.take(chars@.len() as int) =~= chars@);
    }
    if count != 1 {
        return Err(PatternIoError::InvalidTimeSignature(text.to_owned()));
    }
    proof {
        lemma_first_index_bounds(chars@, '/');
    }
    let beats = parse_u8_text(&chars, 0, first);
    let note_value = parse_u8_text(&chars, first + 1, chars.len());
    match (beats, note_value) {
        (Some(b), Some(n)) => Ok(TimeSignature::new(b, n)),
        _ => Err(PatternIoError::InvalidTimeSignature(text.to_owned())),
    }
}

/// The first position holds `c`, and no earlier one does; with a count of
/// at least one, the position is within the text.
proof fn lemma_first_index_bounds(s: Seq<char>, c: char)
    ensures
        0 <= first_index(s, c) <= s.len(),
        first_index(s, c) < s.len() ==> s[first_index(s, c)] == c,
        forall|k: int| 0 <= k < first_index(s, c) ==> s[k] != c,
        count_char(s, c) == 0 <==> first_index(s, c) == s.len(),
    decreases s.len(),
{
    if s.len() > 0 {
        let t = s.drop_last();
        lemma_first_index_bounds(t, c);
        assert forall|k: int| 0 <= k < first_index(s, c) implies s[k] != c by {
            if k < t.len() {
                assert(s[k] == t[k]);
            }
        }
        if first_index(t, c) < t.len() {
            assert(s[first_index(t, c)] == t[first_index(t, c)]);
        }
    }
}

/// The character of the decimal digit `d`.
fn digit_char_of(d: u8) -> (r: char)
    requires
        d < 10,
    ensures
        r == digit_char(d as nat),
{
    if d == 0 {
        '0'
    } else if d == 1 {
        '1'
    } else if d == 2 {
        '2'
    } else if d == 3 {
        '3'
    } else if d == 4 {
        '4'
    } else if d == 5 {
        '5'
    } else if d == 6 {
        '6'
    } else if d == 7 {
        '7'
    } else if d == 8 {
        '8'
    } else {
        '9'
    }
}

/// `String::push`: append a character.
#[verifier::external_body]
pub(crate) fn push_char(s: &mut String, c: char)
    ensures
        final(s)@ == old(s)@.push(c),
{
    s.push(c);
}

/// Append the decimal form of `n`.
fn push_decimal(out: &mut String, n: u8)
    ensures
        final(out)@ == old(out)@ + decimal_text(n as nat),
{
    let ghost m = n as nat;
    if n >= 100 {
        push_char(out, digit_char_of(n / 100));
        push_char(out, digit_char_of((n / 10) % 10));
        push_char(out, digit_char_of(n % 10));
        proof {
            assert(m / 10 / 10 == m / 100);
            assert(decimal_text(m / 10 / 10) == seq![digit_char(m / 100)]);
            assert(decimal_text(m / 10) == decimal_text(m / 10 / 10).push(digit_char((m / 10) % 10)));
            assert(decimal_text(m) == decimal_text(m / 10).push(digit_char(m % 10)));
        }
    } else if n >= 10 {
        push_char(out, digit_char_of(n / 10));
        push_char(out, digit_char_of(n % 10));
        proof {
            assert(decimal_text(m / 10) == seq![digit_char(m / 10)]);
            assert(decimal_text(m) == decimal_text(m / 10).push(digit_char(m % 10)));
        }
    } else {
        push_char(out, digit_char_of(n));
        assert(decimal_text(m) == seq![digit_char(m)]);
    }
    assert(out@ =~= old(out)@ + decimal_text(m));
}

/// A time signature written `beats/note`.
pub fn time_signature_text(ts: TimeSignature) -> (r: String)
    ensures
        r@ == time_signature_text_view(ts),
{
    let mut out = String::new();
    push_decimal(&mut out, ts.beats_per_measure);
    push_char(&mut out, '/');
    push_decimal(&mut out, ts.note_value);
    assert(out@ =~= time_signature_text_view(ts));
    out
}

/// The decimal form of a number is a nonempty run of digits writing it.
proof fn lemma_decimal_text(n: nat)
    ensures
        decimal_text(n).len() > 0,
        all_digits(decimal_text(n)),
        digits_value(decimal_text(n)) == n,
        count_char(decimal_text(n), '/') == 0,
    decreases n,
{
    let t = decimal_text(n);
    assert('/' as u32 == 47);
    if n < 10 {
        assert(t == seq![digit_char(n)]);
        assert(t.drop_last() =~= Seq::<char>::empty());
        assert(t.last() == digit_char(n));
        assert(digits_value(t.drop_last()) == 0);
        assert(count_char(t.drop_last(), '/') == 0);
        assert(is_digit(digit_char(n)) && digit_value(digit_char(n)) == n);
        assert(digit_char(n) != '/');
        assert(digits_value(t) == n);
    } else {
        lemma_decimal_text(n / 10);
        let d = n % 10;
        assert(is_digit(digit_char(d)) && digit_value(digit_char(d)) == d);
        assert(digit_char(d) != '/');
        assert(t.drop_last() =~= decimal_text(n / 10));
        assert(t.last() == digit_char(d));
        assert(n == (n / 10) * 10 + d);
        assert(digits_value(t) == digits_value(decimal_text(n / 10)) * 10 + digit_value(digit_char(d)));
        assert forall|i: int| 0 <= i < t.len() implies is_digit(#[trigger] t[i]) by {
            if i < t.len() - 1 {
                assert(t[i] == decimal_text(n / 10)[i]);
            }
        }
    }
}

/// Occurrences in joined texts add up.
proof fn lemma_count_concat(x: Seq<char>, y: Seq<char>, c: char)
    ensures
        count_char(x + y, c) == count_char(x, c) + count_char(y, c),
    decreases y.len(),
{
    if y.len() == 0 {
        assert(x + y =~= x);
    } else {
        lemma_count_concat(x, y.drop_last(), c);
        assert((x + y).drop_last() =~= x + y.drop_last());
    }
}

/// Reading a number's decimal form gives the number back.
proof fn lemma_parse_decimal(n: u8)
    ensures
        parsed_u8(decimal_text(n as nat)) == Some(n),
{
    let t = decimal_text(n as nat);
    lemma_decimal_text(n as nat);
    assert(is_digit(t[0]));
}

/// Writing a time signature as `beats/note` and reading it back gives the
/// same time signature.
pub proof fn law_time_signature_round_trip(ts: TimeSignature)
    ensures
        parsed_time_signature(time_signature_text_view(ts)) == Some(ts),
{
    let a = decimal_text(ts.beats_per_measure as nat);
    let b = decimal_text(ts.note_value as nat);
    let s = time_signature_text_view(ts);
    lemma_decimal_text(ts.beats_per_measure as nat);
    lemma_decimal_text(ts.note_value as nat);
    lemma_count_concat(a, seq!['/'], '/');
    lemma_count_concat(a + seq!['/'], b, '/');
    assert(seq!['/'].drop_last() =~= Seq::<char>::empty());
    assert(seq!['/'].last() == '/');
    assert(count_char(Seq::<char>::empty(), '/') == 0);
    assert(count_char(seq!['/'], '/') == 1);
    lemma_first_index_bounds(a, '/');
    lemma_first_index_bounds(s, '/');
    let k = first_index(s, '/');
    assert(s[a.len() as int] == '/');
    if k < a.len() {
        assert(s[k] == a[k]);
    }
    assert(k == a.len());
    assert(s.subrange(0, k) =~= a);
    assert(s.subrange(k + 1, s.len() as int) =~= b);
    lemma_parse_decimal(ts.beats_per_measure);
    lemma_parse_decimal(ts.note_value);
}

/// The catalog's name for a sound.
pub open spec fn sample_name_view(c: ClickType) -> Seq<char> {
    match c {
        ClickType::AcousticKick => "kick"@,
        ClickType::AcousticSnare => "snare"@,
        ClickType::HiHatClosed => "hihat_closed"@,
        ClickType::HiHatOpen => "hihat_open"@,
        ClickType::RimShot => "rimshot"@,
        ClickType::Stick => "stick"@,
        ClickType::WoodBlock => "woodblock"@,
        ClickType::DigitalBeep => "beep"@,
        ClickType::Cowbell => "cowbell"@,
        ClickType::ElectroClick => "click"@,
    }
}

/// The drum sound a catalog sample name stands for, if the catalog knows it.
pub open spec fn click_for_sample_name(name: Seq<char>) -> Option<ClickType> {
    if name == "kick"@ {
        Some(ClickType::AcousticKick)
    } else if name == "snare"@ {
        Some(ClickType::AcousticSnare)
    } else if name == "hihat_closed"@ {
        Some(ClickType::HiHatClosed)
    } else if name == "hihat_open"@ {
        Some(ClickType::HiHatOpen)
    } else if name == "rimshot"@ {
        Some(ClickType::RimShot)
    } else if name == "stick"@ {
        Some(ClickType::Stick)
    } else {
        None
    }
}

/// Read a catalog sample name: `kick`, `snare`, `hihat_closed`,
/// `hihat_open`, `rimshot` or `stick`; any other name is an unknown sample
/// type.
pub fn parse_sample_name(name: &str) -> (r: Result<ClickType, PatternIoError>)
    ensures
        match click_for_sample_name(name@) {
            Some(c) => r == Ok::<ClickType, PatternIoError>(c),
            None => r matches Err(PatternIoError::UnknownSampleType(t)) && t@ == name@,
        },
{
    let n = name.to_owned();
    if n == String::from_str("kick") {
        Ok(ClickType::AcousticKick)
    } else if n == String::from_str("snare") {
        Ok(ClickType::AcousticSnare)
    } else if n == String::from_str("hihat_closed") {
        Ok(ClickType::HiHatClosed)
    } else if n == String::from_str("hihat_open") {
        Ok(ClickType::HiHatOpen)
    } else if n == String::from_str("rimshot") {
        Ok(ClickType::RimShot)
    } else if n == String::from_str("stick") {
        Ok(ClickType::Stick)
    } else {
        Err(PatternIoError::UnknownSampleType(n))
    }
}

/// The catalog's name for a sound.
pub fn click_type_to_sample_name(click_type: ClickType) -> (r: String)
    ensures
        r@ == sample_name_view(click_type),
{
    match click_type {
        ClickType::AcousticKick => String::from_str("kick"),
        ClickType::AcousticSnare => String::from_str("snare"),
        ClickType::HiHatClosed => String::from_str("hihat_closed"),
        ClickType::HiHatOpen => String::from_str("hihat_open"),
        ClickType::RimShot => String::from_str("rimshot"),
        ClickType::Stick => String::from_str("stick"),
        ClickType::WoodBlock => String::from_str("woodblock"),
        ClickType::DigitalBeep => String::from_str("beep"),
        ClickType::Cowbell => String::from_str("cowbell"),
        ClickType::ElectroClick => String::from_str("click"),
    }
}

/// Writing a drum sound's catalog name and reading it back gives the same
/// sound.
pub proof fn law_sample_name_round_trip(c: ClickType)
    requires
        !c.synthetic(),
    ensures
        click_for_sample_name(sample_name_view(c)) == Some(c),
{
    reveal_strlit("kick");
    reveal_strlit("snare");
    reveal_strlit("hihat_closed");
    reveal_strlit("hihat_open");
    reveal_strlit("rimshot");
    reveal_strlit("stick");
    // names of one length differ in their second letter
    assert("snare"@[1] != "stick"@[1]);
    assert("kick"@.len() != "snare"@.len() && "kick"@.len() != "hihat_closed"@.len() && "kick"@.len()
        != "hihat_open"@.len() && "kick"@.len() != "rimshot"@.len() && "kick"@.len() != "stick"@.len());
    assert("snare"@.len() != "hihat_closed"@.len() && "snare"@.len() != "hihat_open"@.len()
        && "snare"@.len() != "rimshot"@.len());
    assert("hihat_closed"@.len() != "hihat_open"@.len() && "hihat_closed"@.len() != "rimshot"@.len()
        && "hihat_closed"@.len() != "stick"@.len());
    assert("hihat_open"@.len() != "rimshot"@.len() && "hihat_open"@.len() != "stick"@.len());
    assert("rimshot"@.len() != "stick"@.len());
}

/// The genre a lowercased pattern name suggests: the first of rock, jazz
/// (or swing), latin (or samba, bossa), funk, pop (or ballad), electronic (or
/// house) and waltz (classical) that it mentions; custom otherwise.
pub open spec fn genre_from_name(lower: Seq<char>) -> PatternGenre {
    if occurs_in("rock"@, lower) {
        PatternGenre::Rock
    } else if occurs_in("jazz"@, lower) || occurs_in("swing"@, lower) {
        PatternGenre::Jazz
    } else if occurs_in("latin"@, lower) || occurs_in("samba"@, lower) || occurs_in("bossa"@, lower) {
        PatternGenre::Latin
    } else if occurs_in("funk"@, lower) {
        PatternGenre::Funk
    } else if occurs_in("pop"@, lower) || occurs_in("ballad"@, lower) {
        PatternGenre::Pop
    } else if occurs_in("electronic"@, lower) || occurs_in("house"@, lower) {
        PatternGenre::Electronic
    } else if occurs_in("waltz"@, lower) {
        PatternGenre::Classical
    } else {
        PatternGenre::Custom
    }
}

/// Whether `word` occurs in `text`.
fn mentions(text: &Vec<char>, word: &str) -> (r: bool)
    ensures
        r == occurs_in(word@, text@),
{
    occurs(&chars_of(word), text)
}

/// The genre a pattern's name suggests, ignoring case.
pub fn infer_genre(name: &str) -> (r: PatternGenre)
    ensures
        r == genre_from_name(lowercase(name@)),
{
    let lower = chars_of(to_lowercase(name).as_str());
    if mentions(&lower, "rock") {
        PatternGenre::Rock
    } else if mentions(&lower, "jazz") || mentions(&lower, "swing") {
        PatternGenre::Jazz
    } else if mentions(&lower, "latin") || mentions(&lower, "samba") || mentions(&lower, "bossa") {
        PatternGenre::Latin
    } else if mentions(&lower, "funk") {
        PatternGenre::Funk
    } else if mentions(&lower, "pop") || mentions(&lower, "ballad") {
        PatternGenre::Pop
    } else if mentions(&lower, "electronic") || mentions(&lower, "house") {
        PatternGenre::Electronic
    } else if mentions(&lower, "waltz") {
        PatternGenre::Classical
    } else {
        PatternGenre::Custom
    }
}

/// The genre read from a lower-case name follows the keywords it mentions,
/// the earlier genre winning: rock ("rock"), jazz ("jazz", "swing"), latin
/// ("latin", "samba", "bossa"), funk ("funk"), pop ("pop", "ballad"),
/// electronic ("electronic", "house"), classical ("waltz"). A name mentioning
/// a genre's keyword and none of an earlier genre's gets that genre; each
/// genre is only read from one of its keywords; blues, world and experimental
/// are never read; a name without any keyword is custom.
pub proof fn law_genre_keywords(lower: Seq<char>)
    ensures
        ({
            let g = genre_from_name(lower);
            let rock = occurs_in("rock"@, lower);
            let jazz = occurs_in("jazz"@, lower) || occurs_in("swing"@, lower);
            let latin = occurs_in("latin"@, lower) || occurs_in("samba"@, lower) || occurs_in("bossa"@, lower);
            let funk = occurs_in("funk"@, lower);
            let pop = occurs_in("pop"@, lower) || occurs_in("ballad"@, lower);
            let electronic = occurs_in("electronic"@, lower) || occurs_in("house"@, lower);
            let classical = occurs_in("waltz"@, lower);
            &&& rock ==> g == PatternGenre::Rock
            &&& !rock && jazz ==> g == PatternGenre::Jazz
            &&& !rock && !jazz && latin ==> g == PatternGenre::Latin
            &&& !rock && !jazz && !latin && funk ==> g == PatternGenre::Funk
            &&& !rock && !jazz && !latin && !funk && pop ==> g == PatternGenre::Pop
            &&& !rock && !jazz && !latin && !funk && !pop && electronic ==> g == PatternGenre::Electronic
            &&& !rock && !jazz && !latin && !funk && !pop && !electronic && classical ==> g
                == PatternGenre::Classical
            &&& g == PatternGenre::Rock ==> rock
            &&& g == PatternGenre::Jazz ==> jazz
            &&& g == PatternGenre::Latin ==> latin
            &&& g == PatternGenre::Funk ==> funk
            &&& g == PatternGenre::Pop ==> pop
            &&& g == PatternGenre::Electronic ==> electronic
            &&& g == PatternGenre::Classical ==> classical
            &&& g != PatternGenre::Blues && g != PatternGenre::World && g != PatternGenre::Experimental
            &&& (g == PatternGenre::Custom <==> !(rock || jazz || latin || funk || pop || electronic
                || classical))
        }),
{
}

} // verus!
