//! The game's four save slots: the names of their directories and the
//! names they are shown under.

use vstd::prelude::*;
use vstd::string::*;
use vstd::utf8::*;
use crate::error::PatternError;
use crate::text::{
    decimal, decimal_spec, digit_spec, lemma_name_le_first_difference, name_le, same_text,
};

verus! {

/// The number of slots that the game has.
pub const SLOT_COUNT: usize = 4;

/// The directory names of the slots: `saveslot`, a digit from 0 to 3, and,
/// for the copy that the game keeps from before a point of no return, a
/// suffix, all at the end of the name.
pub const SLOT_PATTERN: &'static str = "saveslot([0-3])(_BeforeNoReturnPoint)?$";

/// Which slot a directory holds, and whether it is the copy from before a
/// point of no return.
#[derive(Clone, Copy, Debug, PartialEq, Eq, Structural)]
pub struct SlotTag {
    pub index: u8,
    pub nrp_backup: bool,
}

#[verifier::external_type_specification]
#[verifier::external_body]
pub struct ExRegexError(regex::Error);

/// What the capture groups of the first match of `pattern` in `text` hold,
/// group 0 first, a group that took no part as `None`: `None` where
/// `pattern` does not compile, `Some(None)` where nothing matches.
pub uninterp spec fn regex_groups(pattern: Seq<char>, text: Seq<char>) -> Option<
    Option<Seq<Option<Seq<char>>>>,
>;

/// The views of a list of capture groups.
pub open spec fn groups_view(groups: Seq<Option<String>>) -> Seq<Option<Seq<char>>> {
    groups.map_values(
        |g: Option<String>|
            match g {
                Some(t) => Some(t@),
                None => None,
            },
    )
}

/// `regex::Regex::new`, then `Regex::captures` and the text of each group
/// through `Captures::iter`. Trusted: the call fails exactly where
/// `regex_groups` is `None`, and otherwise hands back what `regex_groups`
/// names.
#[verifier::external_body]
fn capture_groups(pattern: &str, text: &str) -> (r: Result<
    Option<Vec<Option<String>>>,
    regex::Error,
>)
    ensures
        r is Err <==> regex_groups(pattern@, text@) is None,
        r matches Ok(None) ==> regex_groups(pattern@, text@) == Some(
            None::<Seq<Option<Seq<char>>>>,
        ),
        r matches Ok(Some(groups)) ==> regex_groups(pattern@, text@) == Some(
            Some(groups_view(groups@)),
        ),
{
    let re = regex::Regex::new(pattern)?;
    Ok(re.captures(text).map(|c| c.iter().map(|g| g.map(|m| m.as_str().to_string())).collect()))
}

/// The slot index that the text of the digit group stands for.
pub open spec fn slot_digit(text: Seq<char>) -> Option<u8> {
    if text == seq!['0'] {
        Some(0u8)
    } else if text == seq!['1'] {
        Some(1u8)
    } else if text == seq!['2'] {
        Some(2u8)
    } else if text == seq!['3'] {
        Some(3u8)
    } else {
        None
    }
}

/// The slot that the capture groups of a match stand for: group 1 holds
/// the digit, group 2 is there for the copy from before a point of no
/// return.
pub open spec fn tag_of_groups(groups: Seq<Option<Seq<char>>>) -> Option<SlotTag> {
    if groups.len() >= 2 && groups[1] is Some && slot_digit(groups[1]->Some_0) is Some {
        Some(
            SlotTag {
                index: slot_digit(groups[1]->Some_0)->Some_0,
                nrp_backup: groups.len() >= 3 && groups[2] is Some,
            },
        )
    } else {
        None
    }
}

/// The slot that a name stands for under a pattern: `None` where the
/// pattern is refused, `Some(None)` where the name does not match or the
/// match does not name a slot.
pub open spec fn tag_by_pattern_spec(pattern: Seq<char>, name: Seq<char>) -> Option<
    Option<SlotTag>,
> {
    match regex_groups(pattern, name) {
        None => None,
        Some(None) => Some(None),
        Some(Some(groups)) => Some(tag_of_groups(groups)),
    }
}

/// The slot that a directory name stands for: `None` where the slot
/// pattern is refused, `Some(None)` where the name is not that of a slot.
pub open spec fn slot_tag_spec(name: Seq<char>) -> Option<Option<SlotTag>> {
    tag_by_pattern_spec(SLOT_PATTERN@, name)
}

/// The name a slot is shown under: `Slot` and its number from 1, with a
/// note for the copy from before a point of no return.
pub open spec fn slot_name_spec(tag: SlotTag) -> Seq<char> {
    "Slot "@ + decimal_spec((tag.index + 1) as nat) + if tag.nrp_backup {
        " (Before NRP)"@
    } else {
        Seq::<char>::empty()
    }
}

/// The name of the directory that the game keeps a slot in.
pub open spec fn slot_dir_spec(index: u8) -> Seq<char> {
    "saveslot"@ + decimal_spec(index as nat)
}

/// Reads the slot off the capture groups of a match of the slot pattern.
pub fn slot_of_groups(groups: &Vec<Option<String>>) -> (tag: Option<SlotTag>)
    ensures
        tag == tag_of_groups(groups_view(groups@)),
        tag matches Some(t) ==> t.index < SLOT_COUNT,
{
    proof {
        reveal_strlit("0");
        reveal_strlit("1");
        reveal_strlit("2");
        reveal_strlit("3");
        assert("0"@ =~= seq!['0']);
        assert("1"@ =~= seq!['1']);
        assert("2"@ =~= seq!['2']);
        assert("3"@ =~= seq!['3']);
    }
    if groups.len() < 2 {
        return None;
    }
    let index: u8 = match &groups[1] {
        None => {
            return None;
        },
        Some(digit) => {
            if same_text(digit.as_str(), "0") {
                0
            } else if same_text(digit.as_str(), "1") {
                1
            } else if same_text(digit.as_str(), "2") {
                2
            } else if same_text(digit.as_str(), "3") {
                3
            } else {
                return None;
            }
        },
    };
    let nrp_backup = groups.len() >= 3 && groups[2].is_some();
    Some(SlotTag { index, nrp_backup })
}

/// Which slot, if any, a name stands for under a pattern whose first
/// group takes the digit and whose second group takes the suffix.
pub fn tag_by_pattern(pattern: &str, name: &str) -> (r: Result<Option<SlotTag>, PatternError>)
    ensures
        match r {
            Ok(tag) => tag_by_pattern_spec(pattern@, name@) == Some(tag),
            Err(_) => tag_by_pattern_spec(pattern@, name@) is None,
        },
        r matches Ok(Some(t)) ==> t.index < SLOT_COUNT,
{
    match capture_groups(pattern, name) {
        Err(_) => Err(PatternError),
        Ok(None) => Ok(None),
        Ok(Some(groups)) => Ok(slot_of_groups(&groups)),
    }
}

/// Which slot, if any, a directory of the given name holds.
pub fn slot_of_name(name: &str) -> (r: Result<Option<SlotTag>, PatternError>)
    ensures
        match r {
            Ok(tag) => slot_tag_spec(name@) == Some(tag),
            Err(_) => slot_tag_spec(name@) is None,
        },
        r matches Ok(Some(t)) ==> t.index < SLOT_COUNT,
{
    tag_by_pattern(SLOT_PATTERN, name)
}

/// The name a slot is shown under.
pub fn slot_name(tag: SlotTag) -> (name: String)
    ensures
        name@ == slot_name_spec(tag),
{
    let mut name = String::from_str("Slot ");
    let number = decimal(tag.index as usize + 1);
    name.append(number.as_str());
    if tag.nrp_backup {
        name.append(" (Before NRP)");
    }
    name
}

/// The name of the directory that the game keeps a slot in.
pub fn slot_dir(index: u8) -> (name: String)
    ensures
        name@ == slot_dir_spec(index),
{
    let mut name = String::from_str("saveslot");
    let number = decimal(index as usize);
    name.append(number.as_str());
    name
}

/// The characters of a slot's name.
pub proof fn lemma_slot_name_chars(tag: SlotTag)
    requires
        tag.index < SLOT_COUNT,
    ensures
        !tag.nrp_backup ==> slot_name_spec(tag) == seq![
            'S',
            'l',
            'o',
            't',
            ' ',
            digit_spec((tag.index + 1) as nat),
        ],
        tag.nrp_backup ==> slot_name_spec(tag) == seq![
            'S',
            'l',
            'o',
            't',
            ' ',
            digit_spec((tag.index + 1) as nat),
            ' ',
            '(',
            'B',
            'e',
            'f',
            'o',
            'r',
            'e',
            ' ',
            'N',
            'R',
            'P',
            ')',
        ],
        is_ascii_chars(slot_name_spec(tag)),
{
    reveal_strlit("Slot ");
    reveal_strlit(" (Before NRP)");
}

/// Slots of different numbers, or a slot and its copy from before a point
/// of no return, have different names.
pub proof fn lemma_slot_names_differ(a: SlotTag, b: SlotTag)
    requires
        a.index < SLOT_COUNT,
        b.index < SLOT_COUNT,
        slot_name_spec(a) == slot_name_spec(b),
    ensures
        a == b,
{
    lemma_slot_name_chars(a);
    lemma_slot_name_chars(b);
}

/// The names of the slots are in the order of their numbers, whichever of
/// a slot and its copy from before a point of no return stands for each.
pub proof fn lemma_slot_names_ascend(a: SlotTag, b: SlotTag)
    requires
        a.index < b.index,
        b.index < SLOT_COUNT,
    ensures
        name_le(slot_name_spec(a), slot_name_spec(b)),
{
    lemma_slot_name_chars(a);
    lemma_slot_name_chars(b);
    lemma_name_le_first_difference(slot_name_spec(a), slot_name_spec(b), 5);
}

} // verus!
