//! The decoded metadata of a save, and the JSON object it is read from.

use vstd::prelude::*;
use crate::decryption::{decrypt, decrypt_spec};
use crate::error::MetadataError;
use crate::text::same_text;

verus! {

#[verifier::external_type_specification]
#[verifier::external_body]
pub struct ExJsonError(sonic_rs::Error);

/// One member of a JSON object: its key, and its value read three ways.
/// `unsigned` holds the value where it is a non-negative integer,
/// `double_bits` the bit pattern of the value as a double where it is any
/// number, `text` the value where it is a string.
#[derive(Clone, Debug, PartialEq, Eq)]
pub struct Member {
    pub key: String,
    pub unsigned: Option<u64>,
    pub double_bits: Option<u64>,
    pub text: Option<String>,
}

/// The mathematical content of a `Member`.
pub struct MemberView {
    pub key: Seq<char>,
    pub unsigned: Option<u64>,
    pub double_bits: Option<u64>,
    pub text: Option<Seq<char>>,
}

impl View for Member {
    type V = MemberView;

    open spec fn view(&self) -> MemberView {
        MemberView {
            key: self.key@,
            unsigned: self.unsigned,
            double_bits: self.double_bits,
            text: match self.text {
                Some(t) => Some(t@),
                None => None,
            },
        }
    }
}

/// The metadata that the game keeps beside a save.
#[derive(Debug, PartialEq, Eq)]
pub struct SaveInfo {
    pub level: u8,
    /// Seconds played: the bit pattern of an IEEE 754 double.
    pub playtime: u64,
    pub gold: u32,
    pub gamemode: u8,
    pub atsceneguid: String,
}

/// The mathematical content of a `SaveInfo`.
pub struct SaveInfoView {
    pub level: u8,
    pub playtime: u64,
    pub gold: u32,
    pub gamemode: u8,
    pub atsceneguid: Seq<char>,
}

impl View for SaveInfo {
    type V = SaveInfoView;

    open spec fn view(&self) -> SaveInfoView {
        SaveInfoView {
            level: self.level,
            playtime: self.playtime,
            gold: self.gold,
            gamemode: self.gamemode,
            atsceneguid: self.atsceneguid@,
        }
    }
}

impl Clone for SaveInfo {
    fn clone(&self) -> (copy: Self)
        ensures
            copy == *self,
    {
        SaveInfo {
            level: self.level,
            playtime: self.playtime,
            gold: self.gold,
            gamemode: self.gamemode,
            atsceneguid: self.atsceneguid.clone(),
        }
    }
}

/// How deep arrays and objects may stand in one another in a text that is
/// read as JSON. The game's metadata goes two deep. The limit keeps the
/// parser, which takes some tens of kilobytes of stack for each level
/// where it is built without optimisation, within a megabyte.
pub const NESTING_LIMIT: usize = 32;

/// Where a walk over a text stands: how many brackets are open, how many
/// were open at most, and whether the walk is inside a string and behind a
/// backslash there.
pub struct Walk {
    pub depth: nat,
    pub deepest: nat,
    pub in_string: bool,
    pub escaped: bool,
}

/// The walk one byte further. Outside a string `[` and `{` open a
/// bracket and `]` and `}` close one; a quote begins a string, which goes
/// on to the next quote that no backslash stands before.
pub open spec fn walk_step(walk: Walk, byte: u8) -> Walk {
    if walk.in_string {
        if walk.escaped {
            Walk { escaped: false, ..walk }
        } else if byte == 0x5c {
            Walk { escaped: true, ..walk }
        } else if byte == 0x22 {
            Walk { in_string: false, ..walk }
        } else {
            walk
        }
    } else if byte == 0x22 {
        Walk { in_string: true, ..walk }
    } else if byte == 0x5b || byte == 0x7b {
        Walk {
            depth: walk.depth + 1,
            deepest: if walk.depth + 1 > walk.deepest {
                walk.depth + 1
            } else {
                walk.deepest
            },
            ..walk
        }
    } else if byte == 0x5d || byte == 0x7d {
        Walk { depth: if walk.depth > 0 {
            (walk.depth - 1) as nat
        } else {
            0
        }, ..walk }
    } else {
        walk
    }
}

/// The walk over a whole text.
pub open spec fn walk_spec(text: Seq<u8>) -> Walk
    decreases text.len(),
{
    if text.len() == 0 {
        Walk { depth: 0, deepest: 0, in_string: false, escaped: false }
    } else {
        walk_step(walk_spec(text.drop_last()), text.last())
    }
}

/// How deep the brackets of a text stand in one another, brackets inside
/// strings not counted.
pub open spec fn nesting_spec(text: Seq<u8>) -> nat {
    walk_spec(text).deepest
}

/// How deep the brackets of a text stand in one another.
pub fn nesting(text: &[u8]) -> (deepest: usize)
    ensures
        deepest == nesting_spec(text@),
{
    let mut depth: usize = 0;
    let mut deepest: usize = 0;
    let mut in_string = false;
    let mut escaped = false;
    let mut i: usize = 0;
    while i < text.len()
        invariant
            i <= text@.len(),
            depth <= i,
            deepest <= i,
            walk_spec(text@.take(i as int)) == (Walk {
                depth: depth as nat,
                deepest: deepest as nat,
                in_string,
                escaped,
            }),
        decreases text@.len() - i,
    {
        proof {
            assert(text@.take(i + 1).drop_last() =~= text@.take(i as int));
        }
        let byte = text[i];
        if in_string {
            if escaped {
                escaped = false;
            } else if byte == 0x5c {
                escaped = true;
            } else if byte == 0x22 {
                in_string = false;
            }
        } else if byte == 0x22 {
            in_string = true;
        } else if byte == 0x5b || byte == 0x7b {
            depth += 1;
            if depth > deepest {
                deepest = depth;
            }
        } else if byte == 0x5d || byte == 0x7d {
            if depth > 0 {
                depth -= 1;
            }
        }
        i += 1;
    }
    proof {
        assert(text@.take(i as int) =~= text@);
    }
    deepest
}

/// The members of the JSON object that `text` holds, in the order of the
/// text: `None` where `text` is not JSON, `Some(None)` where it is JSON but
/// not an object.
pub uninterp spec fn json_members(text: Seq<u8>) -> Option<Option<Seq<MemberView>>>;

/// The views of a list of members.
pub open spec fn members_view(members: Seq<Member>) -> Seq<MemberView> {
    members.map_values(|m: Member| m@)
}

/// `sonic_rs::from_slice` to a `sonic_rs::Value`, then the members of the
/// value through `as_object`, each read by `as_u64`, `as_f64` and `as_str`.
/// Trusted: the call fails exactly where `json_members` is `None`, and
/// otherwise hands back what `json_members` names. The parser calls
/// itself once for each array or object that stands in another, at a `[`
/// or `{` outside a string, without a limit of its own, and a text that
/// is nested deep enough overflows the stack; `requires` leaves out the
/// texts whose brackets stand deeper than `NESTING_LIMIT`.
#[verifier::external_body]
fn parse_members(text: &[u8]) -> (r: Result<Option<Vec<Member>>, sonic_rs::Error>)
    requires
        nesting_spec(text@) <= NESTING_LIMIT,
    ensures
        r is Err <==> json_members(text@) is None,
        r matches Ok(None) ==> json_members(text@) == Some(None::<Seq<MemberView>>),
        r matches Ok(Some(members)) ==> json_members(text@) == Some(Some(members_view(members@))),
{
    let document: sonic_rs::Value = sonic_rs::from_slice(text)?;
    Ok(sonic_rs::JsonContainerTrait::as_object(&document).map(|object| {
        object.iter().map(|(key, value)| Member {
            key: key.to_string(),
            unsigned: sonic_rs::JsonValueTrait::as_u64(value),
            double_bits: sonic_rs::JsonValueTrait::as_f64(value).map(|x| x.to_bits()),
            text: sonic_rs::JsonValueTrait::as_str(value).map(|s| s.to_string()),
        }).collect()
    }))
}

/// How many of the members have the key.
pub open spec fn key_count(members: Seq<MemberView>, key: Seq<char>) -> nat
    decreases members.len(),
{
    if members.len() == 0 {
        0
    } else {
        key_count(members.drop_last(), key) + if members.last().key == key {
            1nat
        } else {
            0nat
        }
    }
}

/// The last of the members that have the key.
pub open spec fn key_last(members: Seq<MemberView>, key: Seq<char>) -> Option<MemberView>
    decreases members.len(),
{
    if members.len() == 0 {
        None
    } else if members.last().key == key {
        Some(members.last())
    } else {
        key_last(members.drop_last(), key)
    }
}

/// The member with the key, where exactly one member has it.
pub open spec fn sole_member(members: Seq<MemberView>, key: Seq<char>) -> Option<MemberView> {
    if key_count(members, key) == 1 {
        key_last(members, key)
    } else {
        None
    }
}

/// A field that holds an integer from 0 to 255.
pub open spec fn byte_field(members: Seq<MemberView>, key: Seq<char>) -> Option<u8> {
    match sole_member(members, key) {
        Some(m) => match m.unsigned {
            Some(u) => if u <= 255 {
                Some(u as u8)
            } else {
                None
            },
            None => None,
        },
        None => None,
    }
}

/// A field that holds an integer from 0 to 4294967295.
pub open spec fn word_field(members: Seq<MemberView>, key: Seq<char>) -> Option<u32> {
    match sole_member(members, key) {
        Some(m) => match m.unsigned {
            Some(u) => if u <= 0xffff_ffff {
                Some(u as u32)
            } else {
                None
            },
            None => None,
        },
        None => None,
    }
}

/// A field that holds a number, as the bits of a double.
pub open spec fn double_field(members: Seq<MemberView>, key: Seq<char>) -> Option<u64> {
    match sole_member(members, key) {
        Some(m) => m.double_bits,
        None => None,
    }
}

/// A field that holds a string.
pub open spec fn text_field(members: Seq<MemberView>, key: Seq<char>) -> Option<Seq<char>> {
    match sole_member(members, key) {
        Some(m) => m.text,
        None => None,
    }
}

/// The metadata that the members of an object give: each of the five
/// fields must occur exactly once and hold a value of its type; members
/// with other keys do not count.
pub open spec fn info_of_members(members: Seq<MemberView>) -> Result<SaveInfoView, MetadataError> {
    let level = byte_field(members, "level"@);
    let playtime = double_field(members, "playTime"@);
    let gold = word_field(members, "gold"@);
    let gamemode = byte_field(members, "gameMode"@);
    let scene = text_field(members, "atSceneGuid"@);
    if level is Some && playtime is Some && gold is Some && gamemode is Some && scene is Some {
        Ok(
            SaveInfoView {
                level: level->Some_0,
                playtime: playtime->Some_0,
                gold: gold->Some_0,
                gamemode: gamemode->Some_0,
                atsceneguid: scene->Some_0,
            },
        )
    } else {
        Err(MetadataError::Field)
    }
}

/// The metadata that decrypted bytes give. Bytes whose brackets stand
/// deeper than `NESTING_LIMIT` are not read as JSON.
pub open spec fn payload_spec(plain: Seq<u8>) -> Result<SaveInfoView, MetadataError> {
    if nesting_spec(plain) > NESTING_LIMIT {
        Err(MetadataError::Payload)
    } else {
        match json_members(plain) {
            Some(Some(members)) => info_of_members(members),
            _ => Err(MetadataError::Payload),
        }
    }
}

/// The metadata that the text of a metadata file gives.
pub open spec fn decode_spec(data: Seq<u8>) -> Result<SaveInfoView, MetadataError> {
    match decrypt_spec(data) {
        Ok(plain) => payload_spec(plain),
        Err(e) => Err(e),
    }
}

/// The view of a decoding result.
pub open spec fn info_result_view(r: Result<SaveInfo, MetadataError>) -> Result<
    SaveInfoView,
    MetadataError,
> {
    match r {
        Ok(info) => Ok(info@),
        Err(e) => Err(e),
    }
}

/// The position of the one member with the key.
fn find_sole(members: &Vec<Member>, key: &str) -> (found: Option<usize>)
    ensures
        match found {
            Some(i) => i < members@.len() && sole_member(members_view(members@), key@) == Some(
                members@[i as int]@,
            ),
            None => sole_member(members_view(members@), key@) is None,
        },
{
    let ghost all = members_view(members@);
    let mut count: usize = 0;
    let mut last: usize = 0;
    let mut i: usize = 0;
    while i < members.len()
        invariant
            all == members_view(members@),
            i <= members@.len(),
            count == key_count(all.take(i as int), key@),
            count <= i,
            count == 0 ==> key_last(all.take(i as int), key@) is None,
            count > 0 ==> last < i && key_last(all.take(i as int), key@) == Some(all[last as int]),
        decreases members@.len() - i,
    {
        proof {
            assert(all.take(i + 1).drop_last() =~= all.take(i as int));
        }
        if same_text(members[i].key.as_str(), key) {
            count += 1;
            last = i;
        }
        i += 1;
    }
    proof {
        assert(all.take(i as int) =~= all);
    }
    if count == 1 {
        Some(last)
    } else {
        None
    }
}

impl SaveInfo {
    /// Reads the metadata off the members of a JSON object.
    pub fn from_members(members: &Vec<Member>) -> (r: Result<SaveInfo, MetadataError>)
        ensures
            info_result_view(r) == info_of_members(members_view(members@)),
    {
        let level = match find_sole(members, "level") {
            Some(i) => match members[i].unsigned {
                Some(u) => if u <= 255 {
                    Some(u as u8)
                } else {
                    None
                },
                None => None,
            },
            None => None,
        };
        let playtime = match find_sole(members, "playTime") {
            Some(i) => members[i].double_bits,
            None => None,
        };
        let gold = match find_sole(members, "gold") {
            Some(i) => match members[i].unsigned {
                Some(u) => if u <= 0xffff_ffff {
                    Some(u as u32)
                } else {
                    None
                },
                None => None,
            },
            None => None,
        };
        let gamemode = match find_sole(members, "gameMode") {
            Some(i) => match members[i].unsigned {
                Some(u) => if u <= 255 {
                    Some(u as u8)
                } else {
                    None
                },
                None => None,
            },
            None => None,
        };
        let scene = match find_sole(members, "atSceneGuid") {
            Some(i) => match &members[i].text {
                Some(t) => Some(t.clone()),
                None => None,
            },
            None => None,
        };
        match (level, playtime, gold, gamemode, scene) {
            (Some(level), Some(playtime), Some(gold), Some(gamemode), Some(atsceneguid)) => Ok(
                SaveInfo { level, playtime, gold, gamemode, atsceneguid },
            ),
            _ => Err(MetadataError::Field),
        }
    }

    /// Reads the metadata off decrypted bytes, which must hold one JSON
    /// object, its arrays and objects no deeper in one another than
    /// `NESTING_LIMIT`.
    pub fn from_payload(plain: &[u8]) -> (r: Result<SaveInfo, MetadataError>)
        ensures
            info_result_view(r) == payload_spec(plain@),
    {
        if nesting(plain) > NESTING_LIMIT {
            return Err(MetadataError::Payload);
        }
        match parse_members(plain) {
            Ok(Some(members)) => SaveInfo::from_members(&members),
            Ok(None) => Err(MetadataError::Payload),
            Err(_) => Err(MetadataError::Payload),
        }
    }

    /// Decodes the text of a metadata file: base64, then the cipher, then
    /// the JSON object and its fields.
    pub fn decrypt_from(data: &[u8]) -> (r: Result<SaveInfo, MetadataError>)
        ensures
            info_result_view(r) == decode_spec(data@),
    {
        match decrypt(data) {
            Ok(plain) => SaveInfo::from_payload(plain.as_slice()),
            Err(e) => Err(e),
        }
    }
}

/// Whether a key is that of one of the five fields.
pub open spec fn is_field_key(key: Seq<char>) -> bool {
    key == "level"@ || key == "playTime"@ || key == "gold"@ || key == "gameMode"@ || key
        == "atSceneGuid"@
}

/// A member with another key changes neither how often a key occurs nor
/// which member has it last.
pub proof fn lemma_other_key(members: Seq<MemberView>, extra: MemberView, at: int, key: Seq<char>)
    requires
        0 <= at <= members.len(),
        extra.key != key,
    ensures
        key_count(members.insert(at, extra), key) == key_count(members, key),
        key_last(members.insert(at, extra), key) == key_last(members, key),
    decreases members.len(),
{
    let longer = members.insert(at, extra);
    if at == members.len() {
        assert(longer.drop_last() =~= members);
    } else {
        assert(longer.drop_last() =~= members.drop_last().insert(at, extra));
        lemma_other_key(members.drop_last(), extra, at, key);
    }
}

/// Unknown fields are ignored. A member whose key is none of the five,
/// put anywhere among the members of an object, does not change what the
/// object gives.
pub proof fn law_unknown_fields_are_ignored(members: Seq<MemberView>, extra: MemberView, at: int)
    requires
        0 <= at <= members.len(),
        !is_field_key(extra.key),
    ensures
        info_of_members(members.insert(at, extra)) == info_of_members(members),
{
    lemma_other_key(members, extra, at, "level"@);
    lemma_other_key(members, extra, at, "playTime"@);
    lemma_other_key(members, extra, at, "gold"@);
    lemma_other_key(members, extra, at, "gameMode"@);
    lemma_other_key(members, extra, at, "atSceneGuid"@);
}

/// A missing field is a failure, and so is a repeated one. Where one of
/// the five keys does not occur exactly once, the object gives no
/// metadata.
pub proof fn law_each_field_once(members: Seq<MemberView>, key: Seq<char>)
    requires
        is_field_key(key),
        key_count(members, key) != 1,
    ensures
        info_of_members(members) == Err::<SaveInfoView, MetadataError>(MetadataError::Field),
{
}

} // verus!
