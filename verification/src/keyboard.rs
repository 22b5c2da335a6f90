//! Key symbols, modifier masks and the text form of key triggers.

use vstd::prelude::*;
use vstd::string::*;

use crate::text::texts;

verus! {

/// A key symbol by its X number.
pub type Keysym = u32;

pub const MOD_SHIFT: u32 = 1;

pub const MOD_CTRL: u32 = 2;

pub const MOD_ALT: u32 = 4;

pub const MOD_SUPER: u32 = 8;

/// The symbol that stands for none.
pub const NO_SYMBOL: Keysym = 0;

pub const KEY_ESCAPE: Keysym = 0xff1b;

pub const KEY_RETURN: Keysym = 0xff0d;

pub const KEY_KP_ENTER: Keysym = 0xff8d;

/// A key symbol with the case of a Latin capital taken off.
pub open spec fn folded(k: Keysym) -> Keysym {
    if 0x41 <= k <= 0x5a {
        (k + 0x20) as u32
    } else {
        k
    }
}

/// A key symbol with the case of a Latin capital taken off.
#[must_use]
pub fn fold_keysym(k: Keysym) -> (r: Keysym)
    ensures
        r == folded(k),
{
    if 0x41 <= k && k <= 0x5a {
        k + 0x20
    } else {
        k
    }
}

/// Folding a folded symbol changes nothing.
pub proof fn folding_is_idempotent(k: Keysym)
    ensures
        folded(folded(k)) == folded(k),
{
}

/// What a key event means in the active keyboard layout.
#[derive(Debug, Clone, Copy, PartialEq, Eq, Structural)]
pub struct KeyResult {
    /// The symbol the key produces under the held modifiers.
    pub keysym: Keysym,
    /// The symbol the key produces with none held.
    pub base_keysym: Keysym,
    pub mods: u32,
}

impl KeyResult {
    /// The meaning of an event whose key may have no symbol without modifiers.
    pub fn new(keysym: Keysym, level_zero: Option<Keysym>, mods: u32) -> (r: KeyResult)
        ensures
            r.keysym == keysym,
            r.base_keysym == (match level_zero {
                Some(k) => k,
                None => keysym,
            }),
            r.mods == mods,
    {
        KeyResult {
            keysym,
            base_keysym: match level_zero {
                Some(k) => k,
                None => keysym,
            },
            mods,
        }
    }

    /// Whether every required modifier is held; others may be held as well.
    pub open spec fn holds_all(self, required: u32) -> bool {
        self.mods & required == required
    }

    /// Whether every required modifier is held; others may be held as well.
    pub fn has_all_mods(&self, required: u32) -> (r: bool)
        ensures
            r == self.holds_all(required),
    {
        self.mods & required == required
    }

    /// Whether the event is for the wanted key: by the symbol it produced or
    /// by the one on the key itself, and in either case.
    pub open spec fn is_key(self, want: Keysym) -> bool {
        folded(self.keysym) == folded(want) || folded(self.base_keysym) == folded(want)
    }
}

/// Whether the event is for the wanted key.
#[must_use]
pub fn matches_key(result: &KeyResult, want: Keysym) -> (r: bool)
    ensures
        r == result.is_key(want),
{
    fold_keysym(result.keysym) == fold_keysym(want) || fold_keysym(result.base_keysym)
        == fold_keysym(want)
}

/// A bind on a Latin letter fires in both of its cases.
pub proof fn letter_case_does_not_matter(result: KeyResult, letter: Keysym)
    requires
        0x41 <= letter <= 0x5a,
    ensures
        result.is_key(letter) == result.is_key((letter + 0x20) as u32),
{
}

/// Holding more modifiers than a bind asks for does not stop it.
pub proof fn extra_modifiers_do_not_matter(keysym: Keysym, mods: u32, extra: u32, required: u32)
    requires
        (KeyResult { keysym, base_keysym: keysym, mods }).holds_all(required),
    ensures
        (KeyResult { keysym, base_keysym: keysym, mods: mods | extra }).holds_all(required),
{
    assert((mods | extra) & required == required) by (bit_vector)
        requires
            mods & required == required,
    ;
}

/// Whether a key is held for its effect on others: shift, control, meta, alt,
/// super, hyper, and the two level shifts. Keys that latch are not.
pub open spec fn is_held_modifier(k: Keysym) -> bool {
    0xffe1 <= k <= 0xffe4 || 0xffe7 <= k <= 0xffee || k == 0xfe03 || k == 0xfe11
}

/// Whether a key is held for its effect on others.
#[must_use]
pub fn is_modifier_keysym(k: Keysym) -> (r: bool)
    ensures
        r == is_held_modifier(k),
{
    (0xffe1 <= k && k <= 0xffe4) || (0xffe7 <= k && k <= 0xffee) || k == 0xfe03 || k == 0xfe11
}

/// Folding leaves the keys that are held for their effect alone.
pub proof fn folding_leaves_modifiers_alone(k: Keysym)
    requires
        is_held_modifier(k),
    ensures
        folded(k) == k,
{
}

/// The mask of the modifiers that are in effect.
pub open spec fn mask(shift: bool, ctrl: bool, alt: bool, logo: bool) -> u32 {
    ((if shift {
        MOD_SHIFT
    } else {
        0
    }) + (if ctrl {
        MOD_CTRL
    } else {
        0
    }) + (if alt {
        MOD_ALT
    } else {
        0
    }) + (if logo {
        MOD_SUPER
    } else {
        0
    })) as u32
}

/// The mask of the modifiers that are in effect.
pub fn effective_mods(shift: bool, ctrl: bool, alt: bool, logo: bool) -> (r: u32)
    ensures
        r == mask(shift, ctrl, alt, logo),
{
    let mut mods: u32 = 0;
    if shift {
        mods = mods + MOD_SHIFT;
    }
    if ctrl {
        mods = mods + MOD_CTRL;
    }
    if alt {
        mods = mods + MOD_ALT;
    }
    if logo {
        mods = mods + MOD_SUPER;
    }
    mods
}

/// Whether Unicode counts a character as white space.
pub open spec fn is_blank(c: char) -> bool {
    let u = c as u32;
    0x9 <= u <= 0xd || u == 0x20 || u == 0x85 || u == 0xa0 || u == 0x1680 || 0x2000 <= u <= 0x200a
        || u == 0x2028 || u == 0x2029 || u == 0x202f || u == 0x205f || u == 0x3000
}

pub(crate) fn blank(c: char) -> (r: bool)
    ensures
        r == is_blank(c),
{
    let u: u32 = c as u32;
    (0x9 <= u && u <= 0xd) || u == 0x20 || u == 0x85 || u == 0xa0 || u == 0x1680 || (0x2000 <= u
        && u <= 0x200a) || u == 0x2028 || u == 0x2029 || u == 0x202f || u == 0x205f || u == 0x3000
}

/// A text without the white space at its ends.
pub open spec fn trimmed(s: Seq<char>) -> Seq<char>
    decreases s.len(),
{
    if s.len() == 0 {
        s
    } else if is_blank(s.first()) {
        trimmed(s.drop_first())
    } else if is_blank(s.last()) {
        trimmed(s.drop_last())
    } else {
        s
    }
}

/// An ASCII letter in its upper case; another character as it is.
pub open spec fn upper_char(c: char) -> char {
    if 'a' <= c && c <= 'z' {
        (c as u32 - 32) as char
    } else {
        c
    }
}

/// A text with its ASCII letters in upper case.
pub open spec fn uppered(s: Seq<char>) -> Seq<char> {
    Seq::new(s.len(), |i: int| upper_char(s[i]))
}

fn upper(c: char) -> (r: char)
    ensures
        r == upper_char(c),
{
    if 'a' <= c && c <= 'z' {
        (c as u8 - 32) as char
    } else {
        c
    }
}

/// The modifier that a part of a trigger names, in any case.
pub open spec fn modifier_named(part: Seq<char>) -> Option<u32> {
    let u = uppered(part);
    if u == "SUPER"@ || u == "LOGO"@ || u == "META"@ || u == "MOD4"@ || u == "CMD"@ {
        Some(MOD_SUPER)
    } else if u == "CTRL"@ || u == "CONTROL"@ {
        Some(MOD_CTRL)
    } else if u == "ALT"@ || u == "MOD1"@ {
        Some(MOD_ALT)
    } else if u == "SHIFT"@ {
        Some(MOD_SHIFT)
    } else {
        None
    }
}

/// What the name of a key was found to stand for, zero for nothing: spelled as
/// it is, and in any case.
#[derive(Debug, Clone, Copy, PartialEq, Eq, Structural)]
pub struct KeyLookup {
    pub exact: Keysym,
    pub folded: Keysym,
}

impl KeyLookup {
    /// The key: as spelled, else in any case.
    pub open spec fn key(self) -> u32 {
        if self.exact != NO_SYMBOL {
            self.exact
        } else {
            self.folded
        }
    }
}

/// What the name at a position was found to stand for.
pub open spec fn key_found(found: Seq<KeyLookup>, i: int) -> u32 {
    if 0 <= i < found.len() {
        found[i].key()
    } else {
        NO_SYMBOL
    }
}

/// The position of the first plus sign at or after `from`, else the length.
pub open spec fn plus_from(s: Seq<char>, from: int) -> int
    decreases s.len() - from,
{
    if from >= s.len() {
        s.len() as int
    } else if s[from] == '+' {
        from
    } else {
        plus_from(s, from + 1)
    }
}

/// The rest of a trigger behind its first plus sign.
pub open spec fn behind_plus(s: Seq<char>) -> Seq<char> {
    let i = plus_from(s, 0);
    if i < s.len() {
        s.subrange(i + 1, s.len() as int)
    } else {
        Seq::empty()
    }
}

/// What the rest of a trigger means, after parts that gave the modifiers and
/// the key: its parts stand between plus signs, white space around them and
/// empty parts do not count, and the last key named is the one. There is no
/// meaning where a part is unknown or where no key is named. `found` tells
/// what the parts that name no modifier stand for, in order from `used` on.
pub open spec fn read_trigger(
    s: Seq<char>,
    mods: u32,
    key: Option<u32>,
    found: Seq<KeyLookup>,
    used: int,
) -> Option<(u32, u32)>
    decreases s.len(),
    via read_trigger_ends
{
    if s.len() == 0 {
        match key {
            None => None,
            Some(k) => Some((mods, k)),
        }
    } else {
        let part = trimmed(s.subrange(0, plus_from(s, 0)));
        let rest = behind_plus(s);
        if part.len() == 0 {
            read_trigger(rest, mods, key, found, used)
        } else {
            match modifier_named(part) {
                Some(bit) => read_trigger(rest, mods | bit, key, found, used),
                None => if key_found(found, used) == NO_SYMBOL {
                    None
                } else {
                    read_trigger(rest, mods, Some(key_found(found, used)), found, used + 1)
                },
            }
        }
    }
}

#[via_fn]
proof fn read_trigger_ends(
    s: Seq<char>,
    mods: u32,
    key: Option<u32>,
    found: Seq<KeyLookup>,
    used: int,
) {
    plus_is_first(s, 0);
}

/// The parts of a trigger that name no modifier, in order.
pub open spec fn names_in(s: Seq<char>) -> Seq<Seq<char>>
    decreases s.len(),
    via names_in_ends
{
    if s.len() == 0 {
        Seq::empty()
    } else {
        let part = trimmed(s.subrange(0, plus_from(s, 0)));
        if part.len() == 0 || modifier_named(part).is_some() {
            names_in(behind_plus(s))
        } else {
            seq![part] + names_in(behind_plus(s))
        }
    }
}

#[via_fn]
proof fn names_in_ends(s: Seq<char>) {
    plus_is_first(s, 0);
}

proof fn plus_is_first(s: Seq<char>, from: int)
    requires
        0 <= from <= s.len(),
    ensures
        from <= plus_from(s, from) <= s.len(),
        plus_from(s, from) < s.len() ==> s[plus_from(s, from)] == '+',
        forall|j: int| from <= j < plus_from(s, from) ==> s[j] != '+',
    decreases s.len() - from,
{
    if from < s.len() && s[from] != '+' {
        plus_is_first(s, from + 1);
    }
}

fn says(text: &str, from: usize, to: usize, word: &str) -> (r: bool)
    requires
        from <= to <= text@.len(),
    ensures
        r == (uppered(text@.subrange(from as int, to as int)) == word@),
{
    let ghost part = text@.subrange(from as int, to as int);
    let n: usize = word.unicode_len();
    if to - from != n {
        assert(uppered(part).len() != word@.len());
        return false;
    }
    let mut i: usize = 0;
    while i < n
        invariant
            i <= n,
            n == word@.len(),
            to - from == n,
            to <= text@.len(),
            part == text@.subrange(from as int, to as int),
            forall|k: int| 0 <= k < i ==> upper_char(part[k]) == word@[k],
        decreases n - i,
    {
        if upper(text.get_char(from + i)) != word.get_char(i) {
            assert(uppered(part)[i as int] != word@[i as int]);
            return false;
        }
        i += 1;
    }
    assert(uppered(part) =~= word@);
    true
}

fn modifier(text: &str, from: usize, to: usize) -> (r: Option<u32>)
    requires
        from <= to <= text@.len(),
    ensures
        r == modifier_named(text@.subrange(from as int, to as int)),
{
    if says(text, from, to, "SUPER") || says(text, from, to, "LOGO") || says(
        text,
        from,
        to,
        "META",
    ) || says(text, from, to, "MOD4") || says(text, from, to, "CMD") {
        Some(MOD_SUPER)
    } else if says(text, from, to, "CTRL") || says(text, from, to, "CONTROL") {
        Some(MOD_CTRL)
    } else if says(text, from, to, "ALT") || says(text, from, to, "MOD1") {
        Some(MOD_ALT)
    } else if says(text, from, to, "SHIFT") {
        Some(MOD_SHIFT)
    } else {
        None
    }
}

fn trim_range(text: &str, from: usize, to: usize) -> (r: (usize, usize))
    requires
        from <= to <= text@.len(),
    ensures
        from <= r.0 <= r.1 <= to,
        text@.subrange(r.0 as int, r.1 as int) == trimmed(
            text@.subrange(from as int, to as int),
        ),
{
    let ghost want = trimmed(text@.subrange(from as int, to as int));
    let mut a: usize = from;
    let mut b: usize = to;
    while a < b && blank(text.get_char(a))
        invariant
            from <= a <= b <= to <= text@.len(),
            want == trimmed(text@.subrange(a as int, b as int)),
        decreases b - a,
    {
        assert(text@.subrange(a as int, b as int).drop_first() =~= text@.subrange(
            a + 1,
            b as int,
        ));
        a += 1;
    }
    while a < b && blank(text.get_char(b - 1))
        invariant
            from <= a <= b <= to <= text@.len(),
            a < b ==> !is_blank(text@[a as int]),
            want == trimmed(text@.subrange(a as int, b as int)),
        decreases b - a,
    {
        assert(text@.subrange(a as int, b as int).drop_last() =~= text@.subrange(
            a as int,
            b - 1,
        ));
        b -= 1;
    }
    (a, b)
}

fn part_end(text: &str, pos: usize, n: usize) -> (r: usize)
    requires
        pos <= n,
        n == text@.len(),
    ensures
        pos <= r <= n,
        r - pos == plus_from(text@.subrange(pos as int, n as int), 0),
        text@.subrange(pos as int, n as int).subrange(0, r - pos) == text@.subrange(
            pos as int,
            r as int,
        ),
        text@.subrange(
            if r < n {
                r + 1
            } else {
                r as int
            },
            n as int,
        ) == behind_plus(text@.subrange(pos as int, n as int)),
{
    let ghost s = text@.subrange(pos as int, n as int);
    let mut end: usize = pos;
    while end < n && text.get_char(end) != '+'
        invariant
            pos <= end <= n,
            n == text@.len(),
            s == text@.subrange(pos as int, n as int),
            plus_from(s, 0) == plus_from(s, end - pos),
        decreases n - end,
    {
        end += 1;
    }
    assert(plus_from(s, 0) == end - pos);
    assert(s.subrange(0, end - pos) =~= text@.subrange(pos as int, end as int));
    assert(text@.subrange(
        if end < n {
            end + 1
        } else {
            end as int
        },
        n as int,
    ) =~= behind_plus(s));
    end
}

/// The parts of a trigger that name no modifier and so have to be looked up.
pub fn key_names(trigger: &str) -> (r: Vec<String>)
    ensures
        texts(r@) == names_in(trigger@),
{
    let n: usize = trigger.unicode_len();
    let mut out: Vec<String> = Vec::new();
    let mut pos: usize = 0;
    assert(trigger@.subrange(0, n as int) =~= trigger@);
    assert(texts(out@) =~= Seq::empty());
    while pos < n
        invariant
            pos <= n,
            n == trigger@.len(),
            names_in(trigger@) =~= texts(out@) + names_in(
                trigger@.subrange(pos as int, n as int),
            ),
        decreases n - pos,
    {
        let end: usize = part_end(trigger, pos, n);
        let (a, b) = trim_range(trigger, pos, end);
        if a < b && modifier(trigger, a, b).is_none() {
            let ghost before = out@;
            let name = trigger.substring_char(a, b).to_owned();
            out.push(name);
            assert(texts(out@) =~= texts(before).push(name@));
        }
        pos = if end < n {
            end + 1
        } else {
            end
        };
    }
    assert(names_in(trigger@.subrange(pos as int, n as int)) =~= Seq::empty());
    out
}

/// The modifiers and the key of a trigger such as `SUPER+SHIFT+e`. `found`
/// tells what its key names stand for.
#[must_use]
pub fn parse_trigger(trigger: &str, found: &Vec<KeyLookup>) -> (r: Option<(u32, Keysym)>)
    ensures
        r == read_trigger(trigger@, 0, None, found@, 0),
{
    let n: usize = trigger.unicode_len();
    let mut mods: u32 = 0;
    let mut last: Option<u32> = None;
    let mut used: usize = 0;
    let mut pos: usize = 0;
    assert(trigger@.subrange(0, n as int) =~= trigger@);
    while pos < n
        invariant
            pos <= n,
            n == trigger@.len(),
            used <= found@.len(),
            read_trigger(trigger@, 0, None, found@, 0) == read_trigger(
                trigger@.subrange(pos as int, n as int),
                mods,
                last,
                found@,
                used as int,
            ),
        decreases n - pos,
    {
        let end: usize = part_end(trigger, pos, n);
        let (a, b) = trim_range(trigger, pos, end);
        if a < b {
            match modifier(trigger, a, b) {
                Some(bit) => {
                    mods = mods | bit;
                },
                None => {
                    if used >= found.len() {
                        return None;
                    }
                    let k: u32 = if found[used].exact != NO_SYMBOL {
                        found[used].exact
                    } else {
                        found[used].folded
                    };
                    if k == NO_SYMBOL {
                        return None;
                    }
                    last = Some(k);
                    used += 1;
                },
            }
        }
        pos = if end < n {
            end + 1
        } else {
            end
        };
    }
    match last {
        None => None,
        Some(k) => Some((mods, k)),
    }
}

/// The modifiers of a mask as a trigger starts with them.
pub open spec fn shown_mods(mods: u32) -> Seq<char> {
    (if mods & MOD_SUPER != 0 {
        "SUPER+"@
    } else {
        Seq::empty()
    }) + (if mods & MOD_CTRL != 0 {
        "CTRL+"@
    } else {
        Seq::empty()
    }) + (if mods & MOD_ALT != 0 {
        "ALT+"@
    } else {
        Seq::empty()
    }) + (if mods & MOD_SHIFT != 0 {
        "SHIFT+"@
    } else {
        Seq::empty()
    })
}

/// The text form of a trigger: its modifiers and the name of its key, with
/// plus signs between them.
#[must_use]
pub fn format_trigger(mods: u32, name: &str) -> (r: String)
    ensures
        r@ == shown_mods(mods) + name@,
{
    let mut out = String::new();
    if mods & MOD_SUPER != 0 {
        out.append("SUPER+");
    }
    if mods & MOD_CTRL != 0 {
        out.append("CTRL+");
    }
    if mods & MOD_ALT != 0 {
        out.append("ALT+");
    }
    if mods & MOD_SHIFT != 0 {
        out.append("SHIFT+");
    }
    assert(out@ =~= shown_mods(mods));
    out.append(name);
    out
}

proof fn first_part(word: Seq<char>, rest: Seq<char>)
    requires
        !word.contains('+'),
    ensures
        ({
            let s = word + seq!['+'] + rest;
            &&& plus_from(s, 0) == word.len()
            &&& s.subrange(0, word.len() as int) == word
            &&& behind_plus(s) == rest
        }),
{
    let s = word + seq!['+'] + rest;
    let n = word.len() as int;
    plus_is_first(s, 0);
    assert(s[n] == '+');
    assert forall|j: int| 0 <= j < n implies s[j] != '+' by {
        assert(s[j] == word[j]);
        assert(word.contains(word[j]));
    }
    assert(plus_from(s, 0) == n);
    assert(s.subrange(0, n) =~= word);
    assert(behind_plus(s) =~= rest);
}

proof fn only_part(word: Seq<char>)
    requires
        !word.contains('+'),
    ensures
        plus_from(word, 0) == word.len(),
        word.subrange(0, word.len() as int) == word,
        behind_plus(word) == Seq::<char>::empty(),
{
    plus_is_first(word, 0);
    if plus_from(word, 0) < word.len() {
        assert(word.contains(word[plus_from(word, 0)]));
    }
    assert(word.subrange(0, word.len() as int) =~= word);
}

proof fn modifier_part(
    word: Seq<char>,
    bit: u32,
    rest: Seq<char>,
    mods: u32,
    found: Seq<KeyLookup>,
)
    requires
        !word.contains('+'),
        word.len() > 0,
        trimmed(word) == word,
        modifier_named(word) == Some(bit),
    ensures
        read_trigger(word + seq!['+'] + rest, mods, None, found, 0) == read_trigger(
            rest,
            mods | bit,
            None,
            found,
            0,
        ),
{
    first_part(word, rest);
}

proof fn modifier_words()
    ensures
        "SUPER+"@ == "SUPER"@ + seq!['+'],
        "CTRL+"@ == "CTRL"@ + seq!['+'],
        "ALT+"@ == "ALT"@ + seq!['+'],
        "SHIFT+"@ == "SHIFT"@ + seq!['+'],
        !"SUPER"@.contains('+') && "SUPER"@.len() > 0 && trimmed("SUPER"@) == "SUPER"@,
        !"CTRL"@.contains('+') && "CTRL"@.len() > 0 && trimmed("CTRL"@) == "CTRL"@,
        !"ALT"@.contains('+') && "ALT"@.len() > 0 && trimmed("ALT"@) == "ALT"@,
        !"SHIFT"@.contains('+') && "SHIFT"@.len() > 0 && trimmed("SHIFT"@) == "SHIFT"@,
        modifier_named("SUPER"@) == Some(MOD_SUPER),
        modifier_named("CTRL"@) == Some(MOD_CTRL),
        modifier_named("ALT"@) == Some(MOD_ALT),
        modifier_named("SHIFT"@) == Some(MOD_SHIFT),
{
    reveal_strlit("SUPER+");
    reveal_strlit("CTRL+");
    reveal_strlit("ALT+");
    reveal_strlit("SHIFT+");
    reveal_strlit("SUPER");
    reveal_strlit("LOGO");
    reveal_strlit("META");
    reveal_strlit("MOD4");
    reveal_strlit("CMD");
    reveal_strlit("CTRL");
    reveal_strlit("CONTROL");
    reveal_strlit("ALT");
    reveal_strlit("MOD1");
    reveal_strlit("SHIFT");
    assert("SUPER+"@ =~= "SUPER"@ + seq!['+']);
    assert("CTRL+"@ =~= "CTRL"@ + seq!['+']);
    assert("ALT+"@ =~= "ALT"@ + seq!['+']);
    assert("SHIFT+"@ =~= "SHIFT"@ + seq!['+']);
    assert(uppered("SUPER"@) =~= "SUPER"@);
    assert(uppered("CTRL"@) =~= "CTRL"@);
    assert(uppered("ALT"@) =~= "ALT"@);
    assert(uppered("SHIFT"@) =~= "SHIFT"@);
    assert("CTRL"@[0] != "LOGO"@[0]);
    assert("CTRL"@[0] != "META"@[0]);
    assert("CTRL"@[0] != "MOD4"@[0]);
    assert("ALT"@[0] != "CMD"@[0]);
    assert("SHIFT"@[1] != "SUPER"@[1]);
}

/// A trigger that was written down is read back: its modifiers and its key,
/// where the key's name is a single word without a plus sign that names no
/// modifier, and is found to stand for the key.
pub proof fn triggers_read_back(mods: u32, name: Seq<char>, found: KeyLookup)
    requires
        name.len() > 0,
        !name.contains('+'),
        trimmed(name) == name,
        modifier_named(name).is_none(),
        found.key() != NO_SYMBOL,
    ensures
        read_trigger(shown_mods(mods) + name, 0, None, seq![found], 0) == Some(
            (mods & 15, found.key()),
        ),
{
    modifier_words();
    let keys = seq![found];
    let a4 = name;
    let a3 = (if mods & MOD_SHIFT != 0 {
        "SHIFT+"@
    } else {
        Seq::empty()
    }) + a4;
    let a2 = (if mods & MOD_ALT != 0 {
        "ALT+"@
    } else {
        Seq::empty()
    }) + a3;
    let a1 = (if mods & MOD_CTRL != 0 {
        "CTRL+"@
    } else {
        Seq::empty()
    }) + a2;
    let a0 = (if mods & MOD_SUPER != 0 {
        "SUPER+"@
    } else {
        Seq::empty()
    }) + a1;
    assert(shown_mods(mods) + name =~= a0);
    let m1: u32 = if mods & MOD_SUPER != 0 {
        0u32 | MOD_SUPER
    } else {
        0
    };
    let m2: u32 = if mods & MOD_CTRL != 0 {
        m1 | MOD_CTRL
    } else {
        m1
    };
    let m3: u32 = if mods & MOD_ALT != 0 {
        m2 | MOD_ALT
    } else {
        m2
    };
    let m4: u32 = if mods & MOD_SHIFT != 0 {
        m3 | MOD_SHIFT
    } else {
        m3
    };
    modifier_part("SUPER"@, MOD_SUPER, a1, 0, keys);
    modifier_part("CTRL"@, MOD_CTRL, a2, m1, keys);
    modifier_part("ALT"@, MOD_ALT, a3, m2, keys);
    modifier_part("SHIFT"@, MOD_SHIFT, a4, m3, keys);
    assert(Seq::<char>::empty() + a1 =~= a1);
    assert(Seq::<char>::empty() + a2 =~= a2);
    assert(Seq::<char>::empty() + a3 =~= a3);
    assert(Seq::<char>::empty() + a4 =~= a4);
    assert(read_trigger(a0, 0, None, keys, 0) == read_trigger(a4, m4, None, keys, 0));
    only_part(name);
    assert(key_found(keys, 0) == found.key());
    assert(read_trigger(a4, m4, None, keys, 0) == read_trigger(
        Seq::<char>::empty(),
        m4,
        Some(found.key()),
        keys,
        1,
    ));
    assert(m4 == mods & 15) by (bit_vector)
        requires
            m1 == if mods & 8 != 0 {
                0u32 | 8
            } else {
                0
            },
            m2 == if mods & 2 != 0 {
                m1 | 2
            } else {
                m1
            },
            m3 == if mods & 4 != 0 {
                m2 | 4
            } else {
                m2
            },
            m4 == if mods & 1 != 0 {
                m3 | 1
            } else {
                m3
            },
    ;
}

/// Only the capitals from A to Z change, into the small letter of each.
pub proof fn only_letters_are_folded(k: Keysym)
    ensures
        0x41 <= k <= 0x5a ==> folded(k) == k + 32,
        !(0x41 <= k <= 0x5a) ==> folded(k) == k,
{
}

/// A key is the one wanted where either of its symbols is, apart from the case
/// of a letter; a key with neither symbol is not.
pub proof fn keys_are_known_by_either_symbol(r: KeyResult, want: Keysym)
    requires
        !(0x41 <= want <= 0x5a) && !(0x61 <= want <= 0x7a),
    ensures
        r.is_key(want) <==> r.keysym == want || r.base_keysym == want,
{
}

/// Each modifier has a bit of its own in the mask, which is set while it is in
/// effect.
pub proof fn modifiers_have_their_own_bits(shift: bool, ctrl: bool, alt: bool, logo: bool)
    ensures
        mask(shift, ctrl, alt, logo) & 1 != 0 <==> shift,
        mask(shift, ctrl, alt, logo) & 2 != 0 <==> ctrl,
        mask(shift, ctrl, alt, logo) & 4 != 0 <==> alt,
        mask(shift, ctrl, alt, logo) & 8 != 0 <==> logo,
        mask(shift, ctrl, alt, logo) < 16,
{
    let m = mask(shift, ctrl, alt, logo);
    let (a, b, c, d): (u32, u32, u32, u32) = (
        if shift {
            1
        } else {
            0
        },
        if ctrl {
            2
        } else {
            0
        },
        if alt {
            4
        } else {
            0
        },
        if logo {
            8
        } else {
            0
        },
    );
    assert(m == a + b + c + d);
    assert((m & 1 != 0) == (a == 1) && (m & 2 != 0) == (b == 2) && (m & 4 != 0) == (c == 4) && (m
        & 8 != 0) == (d == 8)) by (bit_vector)
        requires
            m == a + b + c + d,
            a == 0 || a == 1,
            b == 0 || b == 2,
            c == 0 || c == 4,
            d == 0 || d == 8,
    ;
}

/// A text loses the white space at both ends and nothing else.
pub proof fn only_ends_are_trimmed(s: Seq<char>, c: char)
    requires
        is_blank(c),
    ensures
        trimmed(seq![c] + s) == trimmed(s),
        s.len() > 0 && !is_blank(s[0]) && !is_blank(s.last()) ==> trimmed(s) == s,
        s.len() > 0 && !is_blank(s[0]) ==> trimmed(s.push(c)) == trimmed(s),
        trimmed(Seq::empty()) == Seq::<char>::empty(),
{
    let t = seq![c] + s;
    assert(t[0] == c);
    assert(t.drop_first() =~= s);
    let u = s.push(c);
    assert(u.drop_last() =~= s);
    if s.len() > 0 {
        assert(u[0] == s[0]);
    }
}

/// White space is what separates words in any script: tabs and line ends, the
/// space, and the spaces of other widths.
pub proof fn white_space_is_what_separates(c: char)
    ensures
        is_blank(c) <==> {
            ||| c == '\t' || c == '\n' || c == '\u{b}' || c == '\u{c}' || c == '\r'
            ||| c == ' ' || c == '\u{85}' || c == '\u{a0}' || c == '\u{1680}'
            ||| '\u{2000}' <= c && c <= '\u{200a}'
            ||| c == '\u{2028}' || c == '\u{2029}' || c == '\u{202f}' || c == '\u{205f}'
            ||| c == '\u{3000}'
        },
{
}

/// The name of a modifier is read in any case.
pub proof fn modifiers_are_named_in_any_case(part: Seq<char>)
    ensures
        modifier_named(uppered(part)) == modifier_named(part),
{
    assert forall|i: int| 0 <= i < part.len() implies upper_char(#[trigger] upper_char(part[i]))
        == upper_char(part[i]) by {
        let c = part[i];
    }
    assert(uppered(uppered(part)) =~= uppered(part));
}

/// Upper case changes the letters from a to z and nothing else.
pub proof fn only_small_letters_are_raised(c: char)
    ensures
        0x61 <= c as u32 <= 0x7a ==> upper_char(c) as u32 == c as u32 - 32,
        !(0x61 <= c as u32 <= 0x7a) ==> upper_char(c) == c,
{
}

/// The name of a key stands for what it is found to be as it is spelled, and
/// only where that is nothing for what it is in any case.
pub proof fn exact_names_come_first(found: KeyLookup)
    ensures
        found.exact != 0 ==> found.key() == found.exact,
        found.exact == 0 ==> found.key() == found.folded,
{
}

/// The keys that are held for their effect on others are the two of each of
/// shift, control, meta, alt, super and hyper, the locks, and the level
/// shifts.
pub proof fn held_keys_are_the_modifiers(k: Keysym)
    ensures
        is_held_modifier(k) <==> {
            ||| k == 0xffe1 || k == 0xffe2 || k == 0xffe3 || k == 0xffe4
            ||| k == 0xffe7 || k == 0xffe8 || k == 0xffe9 || k == 0xffea
            ||| k == 0xffeb || k == 0xffec || k == 0xffed || k == 0xffee
            ||| k == 0xfe03 || k == 0xfe11
        },
{
}

/// Each modifier has its names, in any case: the logo key most of all.
pub proof fn modifiers_have_their_names(part: Seq<char>)
    ensures
        uppered(part) == "SUPER"@ || uppered(part) == "LOGO"@ || uppered(part) == "META"@ || uppered(
            part,
        ) == "MOD4"@ || uppered(part) == "CMD"@ ==> modifier_named(part) == Some(8u32),
        uppered(part) == "CTRL"@ || uppered(part) == "CONTROL"@ ==> modifier_named(part) == Some(
            2u32,
        ),
        uppered(part) == "ALT"@ || uppered(part) == "MOD1"@ ==> modifier_named(part) == Some(4u32),
        uppered(part) == "SHIFT"@ ==> modifier_named(part) == Some(1u32),
{
    reveal_strlit("SUPER");
    reveal_strlit("LOGO");
    reveal_strlit("META");
    reveal_strlit("MOD4");
    reveal_strlit("CMD");
    reveal_strlit("CTRL");
    reveal_strlit("CONTROL");
    reveal_strlit("ALT");
    reveal_strlit("MOD1");
    reveal_strlit("SHIFT");
    let u = uppered(part);
    assert("SUPER"@.len() == 5 && "SHIFT"@.len() == 5 && "SUPER"@[1] != "SHIFT"@[1]);
    assert("LOGO"@.len() == 4 && "META"@.len() == 4 && "MOD4"@.len() == 4 && "CTRL"@.len() == 4
        && "MOD1"@.len() == 4);
    assert("MOD4"@[3] != "MOD1"@[3] && "META"@[1] != "MOD1"@[1] && "LOGO"@[0] != "MOD1"@[0]);
    assert("CTRL"@[0] != "LOGO"@[0] && "CTRL"@[0] != "META"@[0] && "CTRL"@[0] != "MOD4"@[0]
        && "CTRL"@[0] != "MOD1"@[0]);
    assert("CMD"@.len() == 3 && "ALT"@.len() == 3 && "CMD"@[0] != "ALT"@[0]);
    assert("CONTROL"@.len() == 7);
    assert(u.len() == u.len());
}

} // verus!
