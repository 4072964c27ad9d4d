//! The mapping database: community-style button mappings keyed by GUID.
//!
//! The database is line-oriented text.  A line is a comment or blank (a
//! leading `#`, or empty) and skipped, or has the form
//! `guid,name,key:value,...`.  Recognized keys are `platform`, whose value
//! names the platform the line is for, and one key per mappable canonical
//! button, whose value is a one-letter marker followed by the decimal raw
//! index the button is wired to.  Unrecognized keys are ignored; a
//! malformed line (missing name, unusable index, unknown platform name) is
//! skipped without aborting the load.  Lines whose platform differs from
//! the running one are dropped, and of two lines with one GUID the later
//! wins at lookup.
use vstd::prelude::*;

verus! {

use crate::GamepadButton;
use crate::text::bytes_eq;
use crate::text::split_bytes;
use crate::text::split_on;

/// Size of a mapping's raw-index table.
pub const MAX_BTNS: usize = 140;

/// The platform a mapping line applies to.
#[derive(Debug, Clone, Copy, PartialEq, Eq, Structural)]
pub enum Platform {
    Linux,
    Windows,
    Mac,
    Android,
    IOS,
}

/// The mathematical model of a [`Mapping`].
#[verifier::ext_equal]
pub struct MappingModel {
    pub guid: Seq<u8>,
    pub name: Seq<u8>,
    pub platform: Platform,
    pub buttons: Seq<GamepadButton>,
}

/// How one device's raw digital indices map to canonical buttons.
#[derive(Debug, Clone)]
pub struct Mapping {
    pub guid: Vec<u8>,
    pub name: Vec<u8>,
    pub platform: Platform,
    pub buttons: Vec<GamepadButton>,
}

impl View for Mapping {
    type V = MappingModel;

    open spec fn view(&self) -> MappingModel {
        MappingModel {
            guid: self.guid@,
            name: self.name@,
            platform: self.platform,
            buttons: self.buttons@,
        }
    }
}

impl MappingModel {
    /// A mapping's raw-index table always has the full fixed size and only
    /// ever names reportable buttons, never the array-size marker.
    pub open spec fn wf(self) -> bool {
        &&& self.buttons.len() == MAX_BTNS
        &&& forall|k: int| 0 <= k < self.buttons.len()
            ==> (#[trigger] self.buttons[k]) != GamepadButton::Max
    }
}

impl Mapping {
    /// A mapping's raw-index table always has the full fixed size and only
    /// ever names reportable buttons, never the array-size marker.
    pub open spec fn wf(self) -> bool {
        self@.wf()
    }
}

/// The canonical button a raw index maps to when no database line covers
/// the device: the first fifteen raw indices map to the fixed button order,
/// all further ones to `Unknown`.
pub open spec fn default_button(i: int) -> GamepadButton {
    if i == 0 {
        GamepadButton::A
    } else if i == 1 {
        GamepadButton::B
    } else if i == 2 {
        GamepadButton::X
    } else if i == 3 {
        GamepadButton::Y
    } else if i == 4 {
        GamepadButton::BumperLeft
    } else if i == 5 {
        GamepadButton::BumperRight
    } else if i == 6 {
        GamepadButton::ThumbLeft
    } else if i == 7 {
        GamepadButton::ThumbRight
    } else if i == 8 {
        GamepadButton::Back
    } else if i == 9 {
        GamepadButton::Select
    } else if i == 10 {
        GamepadButton::Start
    } else if i == 11 {
        GamepadButton::DpadUp
    } else if i == 12 {
        GamepadButton::DpadDown
    } else if i == 13 {
        GamepadButton::DpadRight
    } else if i == 14 {
        GamepadButton::DpadLeft
    } else {
        GamepadButton::Unknown
    }
}

/// The raw-index table of the synthesized default mapping.
pub open spec fn default_buttons() -> Seq<GamepadButton> {
    Seq::new(MAX_BTNS as nat, |i: int| default_button(i))
}

impl Mapping {
    /// Synthesize the default identity mapping for an unresolved GUID: the
    /// first fifteen raw digital inputs map, in order, to `A`, `B`, `X`,
    /// `Y`, `BumperLeft`, `BumperRight`, `ThumbLeft`, `ThumbRight`, `Back`,
    /// `Select`, `Start`, `DpadUp`, `DpadDown`, `DpadRight`, `DpadLeft`;
    /// any further raw input maps to `Unknown`.
    pub fn new(guid: &[u8]) -> (r: Mapping)
        ensures
            r@.guid == guid@,
            // "unknown"
            r@.name == seq![117u8, 110u8, 107u8, 110u8, 111u8, 119u8, 110u8],
            r@.platform == Platform::Linux,
            r@.buttons == default_buttons(),
            r.wf(),
    {
        let mut buttons: Vec<GamepadButton> = Vec::new();
        buttons.push(GamepadButton::A);
        buttons.push(GamepadButton::B);
        buttons.push(GamepadButton::X);
        buttons.push(GamepadButton::Y);
        buttons.push(GamepadButton::BumperLeft);
        buttons.push(GamepadButton::BumperRight);
        buttons.push(GamepadButton::ThumbLeft);
        buttons.push(GamepadButton::ThumbRight);
        buttons.push(GamepadButton::Back);
        buttons.push(GamepadButton::Select);
        buttons.push(GamepadButton::Start);
        buttons.push(GamepadButton::DpadUp);
        buttons.push(GamepadButton::DpadDown);
        buttons.push(GamepadButton::DpadRight);
        buttons.push(GamepadButton::DpadLeft);
        while buttons.len() < MAX_BTNS
            invariant
                15 <= buttons@.len() <= MAX_BTNS,
                forall|j: int| 0 <= j < buttons@.len() ==> buttons@[j] == default_button(j),
            decreases MAX_BTNS - buttons@.len(),
        {
            buttons.push(GamepadButton::Unknown);
        }
        proof {
            assert(buttons@ =~= default_buttons());
        }
        let mut guid_vec: Vec<u8> = Vec::new();
        let mut i: usize = 0;
        while i < guid.len()
            invariant
                i <= guid@.len(),
                guid_vec@ == guid@.subrange(0, i as int),
            decreases guid@.len() - i,
        {
            guid_vec.push(guid[i]);
            proof {
                assert(guid_vec@ =~= guid@.subrange(0, i + 1));
            }
            i = i + 1;
        }
        proof {
            assert(guid_vec@ =~= guid@);
        }
        let mut name: Vec<u8> = Vec::new();
        name.push(117);  // 'u'
        name.push(110);  // 'n'
        name.push(107);  // 'k'
        name.push(110);  // 'n'
        name.push(111);  // 'o'
        name.push(119);  // 'w'
        name.push(110);  // 'n'
        proof {
            assert(name@ =~= seq![117u8, 110u8, 107u8, 110u8, 111u8, 119u8, 110u8]);
        }
        Mapping { guid: guid_vec, name, platform: Platform::Linux, buttons }
    }
}

/// Whether a byte is an ASCII decimal digit.
pub open spec fn is_digit(c: u8) -> bool {
    48 <= c <= 57
}

/// Whether every byte of `s` is a decimal digit.
pub open spec fn all_digits(s: Seq<u8>) -> bool {
    forall|j: int| 0 <= j < s.len() ==> is_digit(#[trigger] s[j])
}

/// The number a digit string denotes.
pub open spec fn dec_value(s: Seq<u8>) -> int
    decreases s.len(),
{
    if s.len() == 0 {
        0
    } else {
        dec_value(s.drop_last()) * 10 + (s.last() - 48)
    }
}

/// The raw index a button value denotes: the value must be the one-letter
/// marker followed by at least one digit, and the index must fall inside
/// the raw-index table; anything else makes the line malformed.
pub open spec fn spec_button_index(value: Seq<u8>) -> Option<int> {
    let digits = value.subrange(1, value.len() as int);
    if value.len() >= 2 && all_digits(digits) && dec_value(digits) < MAX_BTNS {
        Some(dec_value(digits))
    } else {
        None
    }
}

/// Parse the raw index of a button value (the marker letter followed by a
/// decimal number), refusing indices outside the raw-index table.
pub fn parse_button_index(value: &[u8]) -> (r: Option<usize>)
    ensures
        match r {
            Some(v) => spec_button_index(value@) == Some(v as int),
            None => spec_button_index(value@) is None,
        },
{
    if value.len() < 2 {
        return None;
    }
    let ghost digits = value@.subrange(1, value@.len() as int);
    let mut acc: usize = 0;
    let mut big: bool = false;
    let mut i: usize = 1;
    while i < value.len()
        invariant
            1 <= i <= value@.len(),
            2 <= value@.len(),
            digits == value@.subrange(1, value@.len() as int),
            all_digits(value@.subrange(1, i as int)),
            !big ==> acc < MAX_BTNS && acc == dec_value(value@.subrange(1, i as int)),
            big ==> dec_value(value@.subrange(1, i as int)) >= MAX_BTNS,
        decreases value@.len() - i,
    {
        let c = value[i];
        if c < 48 || c > 57 {
            proof {
                assert(digits[i - 1] == c);
                assert(!all_digits(digits));
            }
            return None;
        }
        let d = (c - 48) as usize;
        proof {
            let pref = value@.subrange(1, i as int);
            let next = value@.subrange(1, i + 1);
            assert(next.drop_last() =~= pref);
            assert(next.last() == c);
            assert(dec_value(next) == dec_value(pref) * 10 + d);
            assert(forall|j: int| 0 <= j < next.len() ==> is_digit(#[trigger] next[j]));
        }
        if big {
            // the value already overran the table; later digits keep it there
        } else {
            let t = acc * 10 + d;
            if t >= MAX_BTNS {
                big = true;
            } else {
                acc = t;
            }
        }
        i = i + 1;
    }
    proof {
        assert(value@.subrange(1, i as int) =~= digits);
    }
    if big {
        None
    } else {
        Some(acc)
    }
}

/// The canonical button a recognized mapping key names.
pub open spec fn spec_key_button(key: Seq<u8>) -> Option<GamepadButton> {
    if key.len() == 1 && key[0] == 97 {  // "a"
        Some(GamepadButton::A)
    } else if key.len() == 1 && key[0] == 98 {  // "b"
        Some(GamepadButton::B)
    } else if key.len() == 1 && key[0] == 120 {  // "x"
        Some(GamepadButton::X)
    } else if key.len() == 1 && key[0] == 121 {  // "y"
        Some(GamepadButton::Y)
    } else if key.len() == 4 && key[0] == 98 && key[1] == 97 && key[2] == 99
        && key[3] == 107 {  // "back"
        Some(GamepadButton::Back)
    } else if key.len() == 5 && key[0] == 115 && key[1] == 116 && key[2] == 97
        && key[3] == 114 && key[4] == 116 {  // "start"
        Some(GamepadButton::Start)
    } else {
        None
    }
}

/// Whether a mapping key is the `platform` key.
pub open spec fn spec_is_platform_key(key: Seq<u8>) -> bool {
    key =~= seq![112u8, 108u8, 97u8, 116u8, 102u8, 111u8, 114u8, 109u8]  // "platform"
}

/// The platform a `platform` value names.
pub open spec fn spec_platform_of(value: Seq<u8>) -> Option<Platform> {
    if value =~= seq![87u8, 105u8, 110u8, 100u8, 111u8, 119u8, 115u8] {  // "Windows"
        Some(Platform::Windows)
    } else if value =~= seq![76u8, 105u8, 110u8, 117u8, 120u8] {  // "Linux"
        Some(Platform::Linux)
    } else if value =~= seq![77u8, 97u8, 99u8, 32u8, 79u8, 83u8, 32u8, 88u8] {  // "Mac OS X"
        Some(Platform::Mac)
    } else if value =~= seq![65u8, 110u8, 100u8, 114u8, 111u8, 105u8, 100u8] {  // "Android"
        Some(Platform::Android)
    } else if value =~= seq![105u8, 79u8, 83u8] {  // "iOS"
        Some(Platform::IOS)
    } else {
        None
    }
}

/// Exec mirror of [`spec_key_button`].
fn key_button(key: &[u8]) -> (r: Option<GamepadButton>)
    ensures
        r == spec_key_button(key@),
{
    if key.len() == 1 {
        match key[0] {
            97 => Some(GamepadButton::A),
            98 => Some(GamepadButton::B),
            120 => Some(GamepadButton::X),
            121 => Some(GamepadButton::Y),
            _ => None,
        }
    } else if key.len() == 4 && key[0] == 98 && key[1] == 97 && key[2] == 99 && key[3] == 107 {
        Some(GamepadButton::Back)
    } else if key.len() == 5 && key[0] == 115 && key[1] == 116 && key[2] == 97 && key[3] == 114
        && key[4] == 116 {
        Some(GamepadButton::Start)
    } else {
        None
    }
}

/// Exec mirror of [`spec_is_platform_key`].
fn is_platform_key(key: &[u8]) -> (r: bool)
    ensures
        r == spec_is_platform_key(key@),
{
    key.len() == 8 && key[0] == 112 && key[1] == 108 && key[2] == 97 && key[3] == 116
        && key[4] == 102 && key[5] == 111 && key[6] == 114 && key[7] == 109
}

/// Exec mirror of [`spec_platform_of`].
fn platform_of(value: &[u8]) -> (r: Option<Platform>)
    ensures
        r == spec_platform_of(value@),
{
    if value.len() == 7 && value[0] == 87 && value[1] == 105 && value[2] == 110 && value[3] == 100
        && value[4] == 111 && value[5] == 119 && value[6] == 115 {
        Some(Platform::Windows)
    } else if value.len() == 5 && value[0] == 76 && value[1] == 105 && value[2] == 110
        && value[3] == 117 && value[4] == 120 {
        Some(Platform::Linux)
    } else if value.len() == 8 && value[0] == 77 && value[1] == 97 && value[2] == 99
        && value[3] == 32 && value[4] == 79 && value[5] == 83 && value[6] == 32
        && value[7] == 88 {
        Some(Platform::Mac)
    } else if value.len() == 7 && value[0] == 65 && value[1] == 110 && value[2] == 100
        && value[3] == 114 && value[4] == 111 && value[5] == 105 && value[6] == 100 {
        Some(Platform::Android)
    } else if value.len() == 3 && value[0] == 105 && value[1] == 79 && value[2] == 83 {
        Some(Platform::IOS)
    } else {
        None
    }
}

/// The effect of one `key:value` field on a mapping under construction:
/// `None` when the field makes the line malformed, otherwise the updated
/// mapping.  Unrecognized keys leave the mapping unchanged.
pub open spec fn spec_apply_pair(m: MappingModel, pair: Seq<u8>) -> Option<MappingModel> {
    let kv = split_on(pair, 58);  // ':'
    if kv.len() < 2 {
        None
    } else if spec_is_platform_key(kv[0]) {
        match spec_platform_of(kv[1]) {
            Some(p) => Some(MappingModel {
                guid: m.guid,
                name: m.name,
                platform: p,
                buttons: m.buttons,
            }),
            None => None,
        }
    } else {
        match spec_key_button(kv[0]) {
            Some(b) => match spec_button_index(kv[1]) {
                Some(ix) => Some(MappingModel {
                    guid: m.guid,
                    name: m.name,
                    platform: m.platform,
                    buttons: m.buttons.update(ix, b),
                }),
                None => None,
            },
            None => Some(m),
        }
    }
}

/// Apply one `key:value` field to a mapping under construction.  Returns
/// whether the field was acceptable; an unacceptable field leaves the
/// mapping untouched (the whole line is then skipped).
fn apply_pair(m: &mut Mapping, pair: &[u8]) -> (ok: bool)
    requires
        old(m).wf(),
    ensures
        final(m).wf(),
        match spec_apply_pair(old(m)@, pair@) {
            Some(mm) => ok && final(m)@ == mm,
            None => !ok && final(m)@ == old(m)@,
        },
{
    let kv = split_bytes(pair, 58);
    proof {
        assert(kv@.map_values(|t: Vec<u8>| t@).len() == kv@.len());
    }
    if kv.len() < 2 {
        return false;
    }
    proof {
        assert(kv@.map_values(|t: Vec<u8>| t@)[0] == kv@[0]@);
        assert(kv@.map_values(|t: Vec<u8>| t@)[1] == kv@[1]@);
    }
    let key: &Vec<u8> = &kv[0];
    let value: &Vec<u8> = &kv[1];
    if is_platform_key(key.as_slice()) {
        match platform_of(value.as_slice()) {
            Some(p) => {
                m.platform = p;
                true
            },
            None => false,
        }
    } else {
        match key_button(key.as_slice()) {
            Some(b) => match parse_button_index(value.as_slice()) {
                Some(ix) => {
                    m.buttons.set(ix, b);
                    true
                },
                None => false,
            },
            None => true,
        }
    }
}

/// The fields of a line past guid and name, cut off at the first empty
/// field, folded over a mapping under construction.
pub open spec fn spec_apply_pairs(m: MappingModel, pairs: Seq<Seq<u8>>) -> Option<MappingModel>
    decreases pairs.len(),
{
    if pairs.len() == 0 {
        Some(m)
    } else if pairs[0].len() == 0 {
        Some(m)
    } else {
        match spec_apply_pair(m, pairs[0]) {
            Some(m2) => spec_apply_pairs(m2, pairs.subrange(1, pairs.len() as int)),
            None => None,
        }
    }
}

/// The base table of a parsed line: every raw index unassigned, reading
/// `Unknown` until one of the line's own keys assigns it.  (The identity
/// table of [`default_buttons`] is reserved for the mapping synthesized
/// when a GUID resolves to no line at all.)
pub open spec fn unknown_buttons() -> Seq<GamepadButton> {
    Seq::new(MAX_BTNS as nat, |i: int| GamepadButton::Unknown)
}

/// What one (non-comment, non-blank) database line denotes: `None` when
/// malformed, otherwise the mapping it describes.  The line's fields are
/// guid, name, then `key:value` pairs applied to an unassigned table: a
/// raw index the line does not mention maps to `Unknown`.
pub open spec fn spec_parse_line(line: Seq<u8>) -> Option<MappingModel> {
    let tokens = split_on(line, 44);  // ','
    if tokens.len() < 2 {
        None
    } else {
        let base = MappingModel {
            guid: tokens[0],
            name: tokens[1],
            platform: Platform::Linux,
            buttons: unknown_buttons(),
        };
        spec_apply_pairs(base, tokens.subrange(2, tokens.len() as int))
    }
}

/// Parse one database line into a mapping, or `None` when it is malformed.
pub fn parse_line(line: &[u8]) -> (r: Option<Mapping>)
    ensures
        match r {
            Some(mp) => spec_parse_line(line@) == Some(mp@) && mp.wf(),
            None => spec_parse_line(line@) is None,
        },
{
    let tokens = split_bytes(line, 44);
    let ghost token_views = tokens@.map_values(|t: Vec<u8>| t@);
    if tokens.len() < 2 {
        return None;
    }
    proof {
        assert(token_views[0] == tokens@[0]@);
        assert(token_views[1] == tokens@[1]@);
    }
    let mut buttons: Vec<GamepadButton> = Vec::new();
    while buttons.len() < MAX_BTNS
        invariant
            buttons@.len() <= MAX_BTNS,
            forall|k: int| 0 <= k < buttons@.len()
                ==> #[trigger] buttons@[k] == GamepadButton::Unknown,
        decreases MAX_BTNS - buttons@.len(),
    {
        buttons.push(GamepadButton::Unknown);
    }
    proof {
        assert(buttons@ =~= unknown_buttons());
    }
    let mut guid: Vec<u8> = Vec::new();
    let first: &Vec<u8> = &tokens[0];
    let mut g: usize = 0;
    while g < first.len()
        invariant
            g <= first@.len(),
            guid@ == first@.subrange(0, g as int),
        decreases first@.len() - g,
    {
        guid.push(first[g]);
        proof {
            assert(guid@ =~= first@.subrange(0, g + 1));
        }
        g = g + 1;
    }
    proof {
        assert(guid@ =~= first@);
    }
    let mut m = Mapping { guid, name: Vec::new(), platform: Platform::Linux, buttons };
    let mut name: Vec<u8> = Vec::new();
    let second: &Vec<u8> = &tokens[1];
    let mut j: usize = 0;
    while j < second.len()
        invariant
            j <= second@.len(),
            name@ == second@.subrange(0, j as int),
        decreases second@.len() - j,
    {
        name.push(second[j]);
        proof {
            assert(name@ =~= second@.subrange(0, j + 1));
        }
        j = j + 1;
    }
    proof {
        assert(name@ =~= second@);
    }
    m.name = name;
    let ghost base = m@;
    let ghost all_pairs = token_views.subrange(2, token_views.len() as int);
    proof {
        let tokens_s = split_on(line@, 44);
        assert(base == (MappingModel {
            guid: tokens_s[0],
            name: tokens_s[1],
            platform: Platform::Linux,
            buttons: unknown_buttons(),
        }));
        assert(all_pairs =~= tokens_s.subrange(2, tokens_s.len() as int));
        assert(spec_parse_line(line@) == spec_apply_pairs(base, all_pairs));
    }
    let mut i: usize = 2;
    while i < tokens.len()
        invariant
            2 <= i <= tokens@.len(),
            token_views == tokens@.map_values(|t: Vec<u8>| t@),
            m.wf(),
            spec_parse_line(line@)
                == spec_apply_pairs(m@, token_views.subrange(i as int, token_views.len() as int)),
        decreases tokens@.len() - i,
    {
        proof {
            assert(token_views[i as int] == tokens@[i as int]@);
        }
        let pair: &Vec<u8> = &tokens[i];
        if pair.len() == 0 {
            // an empty field ends the line's pair list
            proof {
                let rest = token_views.subrange(i as int, token_views.len() as int);
                assert(rest[0] == token_views[i as int]);
                assert(rest[0].len() == 0);
            }
            return Some(m);
        }
        let ghost before = m@;
        let ok = apply_pair(&mut m, pair.as_slice());
        proof {
            let rest = token_views.subrange(i as int, token_views.len() as int);
            assert(rest[0] == token_views[i as int]);
            assert(rest.subrange(1, rest.len() as int)
                =~= token_views.subrange(i + 1, token_views.len() as int));
        }
        if !ok {
            return None;
        }
        i = i + 1;
    }
    proof {
        assert(token_views.subrange(i as int, token_views.len() as int)
            =~= Seq::<Seq<u8>>::empty());
    }
    Some(m)
}

/// A line with one trailing carriage return sheds it before parsing.
pub open spec fn strip_cr(line: Seq<u8>) -> Seq<u8> {
    if line.len() > 0 && line[line.len() - 1] == 13 {
        line.drop_last()
    } else {
        line
    }
}

/// Whether a line is skipped outright: blank, or a comment.
pub open spec fn spec_line_skipped(line: Seq<u8>) -> bool {
    line.len() == 0 || line[0] == 35  // '#'
}

/// The database entry one line contributes for the target platform, if any.
pub open spec fn spec_line_entry(line: Seq<u8>, target: Platform) -> Option<MappingModel> {
    let t = strip_cr(line);
    if spec_line_skipped(t) {
        None
    } else {
        match spec_parse_line(t) {
            Some(m) => if m.platform == target {
                Some(m)
            } else {
                None
            },
            None => None,
        }
    }
}

/// The mappings the given lines contribute for the target platform, in
/// line order.
pub open spec fn spec_db(lines: Seq<Seq<u8>>, target: Platform) -> Seq<MappingModel>
    decreases lines.len(),
{
    if lines.len() == 0 {
        Seq::empty()
    } else {
        spec_db(lines.drop_last(), target) + match spec_line_entry(lines.last(), target) {
            Some(m) => seq![m],
            None => Seq::<MappingModel>::empty(),
        }
    }
}

/// The whole database a text denotes for the target platform.
pub open spec fn spec_mappings(text: Seq<u8>, target: Platform) -> Seq<MappingModel> {
    spec_db(split_on(text, 10), target)
}

/// The loaded mapping database: entries for the running platform, in line
/// order.
pub type MappingsMap = Vec<Mapping>;

/// Build the mapping database from the bundled database text, keeping the
/// lines that match the target platform.  Comments, blank lines and
/// malformed lines are skipped; the load never fails.
pub fn read_mappings_file(text: &[u8], target_platform: Platform) -> (r: MappingsMap)
    ensures
        r@.map_values(|m: Mapping| m@) == spec_mappings(text@, target_platform),
        forall|i: int| 0 <= i < r@.len() ==> (#[trigger] r@[i]).wf(),
{
    let lines = split_bytes(text, 10);
    let ghost line_views = lines@.map_values(|t: Vec<u8>| t@);
    let mut out: Vec<Mapping> = Vec::new();
    let mut i: usize = 0;
    proof {
        assert(line_views.subrange(0, 0) =~= Seq::<Seq<u8>>::empty());
        assert(out@.map_values(|m: Mapping| m@) =~= Seq::<MappingModel>::empty());
    }
    while i < lines.len()
        invariant
            i <= lines@.len(),
            line_views == lines@.map_values(|t: Vec<u8>| t@),
            out@.map_values(|m: Mapping| m@)
                == spec_db(line_views.subrange(0, i as int), target_platform),
            forall|k: int| 0 <= k < out@.len() ==> (#[trigger] out@[k]).wf(),
        decreases lines@.len() - i,
    {
        proof {
            assert(line_views[i as int] == lines@[i as int]@);
            assert(line_views.subrange(0, i + 1).drop_last()
                =~= line_views.subrange(0, i as int));
            assert(line_views.subrange(0, i + 1).last() == line_views[i as int]);
        }
        let line: &Vec<u8> = &lines[i];
        let mut eff: usize = line.len();
        if eff > 0 && line[eff - 1] == 13 {
            eff = eff - 1;
        }
        proof {
            assert(strip_cr(line@) =~= line@.subrange(0, eff as int));
        }
        let ghost before = out@.map_values(|m: Mapping| m@);
        if eff == 0 || line[0] == 35 {
            proof {
                assert(spec_line_skipped(strip_cr(line@)));
                assert(before + Seq::<MappingModel>::empty() =~= before);
            }
        } else {
            let mut stripped: Vec<u8> = Vec::new();
            let mut j: usize = 0;
            while j < eff
                invariant
                    j <= eff <= line@.len(),
                    stripped@ == line@.subrange(0, j as int),
                decreases eff - j,
            {
                stripped.push(line[j]);
                proof {
                    assert(stripped@ =~= line@.subrange(0, j + 1));
                }
                j = j + 1;
            }
            proof {
                assert(stripped@ =~= strip_cr(line@));
                assert(!spec_line_skipped(strip_cr(line@)));
            }
            match parse_line(stripped.as_slice()) {
                Some(mp) => {
                    let keep = match (mp.platform, target_platform) {
                        (Platform::Linux, Platform::Linux) => true,
                        (Platform::Windows, Platform::Windows) => true,
                        (Platform::Mac, Platform::Mac) => true,
                        (Platform::Android, Platform::Android) => true,
                        (Platform::IOS, Platform::IOS) => true,
                        _ => false,
                    };
                    if keep {
                        out.push(mp);
                        proof {
                            assert(out@.map_values(|m: Mapping| m@)
                                =~= before + seq![mp@]);
                        }
                    } else {
                        proof {
                            assert(before + Seq::<MappingModel>::empty() =~= before);
                        }
                    }
                },
                None => {
                    proof {
                        assert(before + Seq::<MappingModel>::empty() =~= before);
                    }
                },
            }
        }
        i = i + 1;
    }
    proof {
        assert(line_views.subrange(0, i as int) =~= line_views);
    }
    out
}

/// The entry a lookup returns: the latest entry whose GUID matches.
pub open spec fn spec_resolve(entries: Seq<MappingModel>, guid: Seq<u8>) -> Option<MappingModel>
    decreases entries.len(),
{
    if entries.len() == 0 {
        None
    } else if entries.last().guid == guid {
        Some(entries.last())
    } else {
        spec_resolve(entries.drop_last(), guid)
    }
}

/// Look a GUID up in the database.  Of several entries with the same GUID,
/// the one from the later line wins.
pub fn resolve<'a>(db: &'a MappingsMap, guid: &[u8]) -> (r: Option<&'a Mapping>)
    ensures
        match r {
            Some(mp) => spec_resolve(db@.map_values(|m: Mapping| m@), guid@) == Some(mp@),
            None => spec_resolve(db@.map_values(|m: Mapping| m@), guid@) is None,
        },
{
    let ghost entries = db@.map_values(|m: Mapping| m@);
    let mut i: usize = db.len();
    proof {
        assert(entries.subrange(0, entries.len() as int) =~= entries);
    }
    while i > 0
        invariant
            i <= db@.len(),
            entries == db@.map_values(|m: Mapping| m@),
            spec_resolve(entries, guid@)
                == spec_resolve(entries.subrange(0, i as int), guid@),
        decreases i,
    {
        i = i - 1;
        proof {
            assert(entries[i as int] == db@[i as int]@);
            assert(entries.subrange(0, i + 1).last() == entries[i as int]);
            assert(entries.subrange(0, i + 1).drop_last() =~= entries.subrange(0, i as int));
        }
        if bytes_eq(db[i].guid.as_slice(), guid) {
            return Some(&db[i]);
        }
    }
    proof {
        assert(entries.subrange(0, 0) =~= Seq::<MappingModel>::empty());
    }
    None
}

/// A lookup in a database of well-formed entries returns a well-formed
/// entry.
pub proof fn lemma_resolve_wf(entries: Seq<MappingModel>, guid: Seq<u8>)
    requires
        forall|i: int| 0 <= i < entries.len() ==> (#[trigger] entries[i]).wf(),
    ensures
        match spec_resolve(entries, guid) {
            Some(m) => m.wf(),
            None => true,
        },
    decreases entries.len(),
{
    if entries.len() > 0 && entries.last().guid != guid {
        assert(forall|i: int| 0 <= i < entries.drop_last().len()
            ==> #[trigger] entries.drop_last()[i] == entries[i]);
        lemma_resolve_wf(entries.drop_last(), guid);
    }
}

/// Of two database lines with one GUID the later wins: appending an entry
/// makes lookups of its GUID return it and leaves every other GUID's
/// lookup unchanged.
pub proof fn lemma_resolve_last_wins(entries: Seq<MappingModel>, m: MappingModel, guid: Seq<u8>)
    ensures
        spec_resolve(entries.push(m), guid) == if m.guid == guid {
            Some(m)
        } else {
            spec_resolve(entries, guid)
        },
{
    assert(entries.push(m).last() == m);
    assert(entries.push(m).drop_last() =~= entries);
}

} // verus!
