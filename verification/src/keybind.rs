//! Key events and the grammar of key sequences.
//!
//! A key sequence is written as in vi: `gh<C-h>` is the key `g`, the key `h`
//! and the key `h` with Control held.

use vstd::prelude::*;
use vstd::slice::*;
use vstd::string::StringSliceAdditionalSpecFns;

verus! {

/// Bit of the Shift modifier.
pub const SHIFT: u8 = 1;

/// Bit of the Control modifier.
pub const CONTROL: u8 = 2;

/// Bit of the Alt (Meta) modifier.
pub const ALT: u8 = 4;

/// The modifier keys held with a key, one bit each.
#[derive(PartialEq, Eq, Structural, Hash, Copy, Clone, Debug)]
pub struct KeyModifiers {
    pub bits: u8,
}

impl KeyModifiers {
    /// No modifier.
    pub fn empty() -> (r: KeyModifiers)
        ensures
            r.bits == 0,
    {
        KeyModifiers { bits: 0 }
    }

    /// Shift alone.
    pub fn shift() -> (r: KeyModifiers)
        ensures
            r.bits == SHIFT,
    {
        KeyModifiers { bits: SHIFT }
    }

    /// Control alone.
    pub fn control() -> (r: KeyModifiers)
        ensures
            r.bits == CONTROL,
    {
        KeyModifiers { bits: CONTROL }
    }

    /// Alt alone.
    pub fn alt() -> (r: KeyModifiers)
        ensures
            r.bits == ALT,
    {
        KeyModifiers { bits: ALT }
    }

    /// The modifiers with the given bits.
    pub fn from_bits(bits: u8) -> (r: KeyModifiers)
        ensures
            r.bits == bits,
    {
        KeyModifiers { bits }
    }

    /// The modifiers of `self` and those of `other`.
    pub fn union(self, other: KeyModifiers) -> (r: KeyModifiers)
        ensures
            r.bits == self.bits | other.bits,
    {
        KeyModifiers { bits: self.bits | other.bits }
    }

    /// Whether every modifier of `other` is among those of `self`.
    pub fn contains(self, other: KeyModifiers) -> (r: bool)
        ensures
            r == (self.bits & other.bits == other.bits),
    {
        self.bits & other.bits == other.bits
    }
}

/// A key.
#[derive(PartialEq, Eq, Structural, Hash, Copy, Clone, Debug)]
pub enum KeyCode {
    Backspace,
    Enter,
    Left,
    Right,
    Up,
    Down,
    Esc,
    Char(char),
    /// Any other key: none is bound to anything.
    Other,
}

/// A key with its modifiers, as the contracts see it.
pub type Key = (KeyCode, u8);

/// Whether `c` is an upper-case letter of ASCII.
pub open spec fn is_upper(c: char) -> bool {
    'A' <= c && c <= 'Z'
}

/// Whether `c` is a lower-case letter of ASCII.
pub open spec fn is_lower(c: char) -> bool {
    'a' <= c && c <= 'z'
}

/// The upper-case form of a letter of ASCII; any other character itself.
pub open spec fn to_upper(c: char) -> char {
    if is_lower(c) {
        ((c as u8) - 32) as char
    } else {
        c
    }
}

/// The lower-case form of a letter of ASCII; any other character itself.
pub open spec fn to_lower(c: char) -> char {
    if is_upper(c) {
        ((c as u8) + 32) as char
    } else {
        c
    }
}

/// A key and its modifiers in the form in which keys are compared: Shift is
/// held exactly with upper-case letters. An upper-case letter implies Shift,
/// and a character typed with Shift is in upper case.
pub open spec fn normalized(code: KeyCode, bits: u8) -> Key {
    match code {
        KeyCode::Char(c) => if is_upper(c) {
            (code, bits | SHIFT)
        } else if bits & SHIFT != 0 {
            (KeyCode::Char(to_upper(c)), bits)
        } else {
            (code, bits)
        },
        _ => (code, bits),
    }
}

/// The upper-case form of a letter of ASCII; any other character itself.
pub fn ascii_upper(c: char) -> (r: char)
    ensures
        r == to_upper(c),
{
    if 'a' <= c && c <= 'z' {
        ((c as u8) - 32) as char
    } else {
        c
    }
}

/// The lower-case form of a letter of ASCII; any other character itself.
pub fn ascii_lower(c: char) -> (r: char)
    ensures
        r == to_lower(c),
{
    if 'A' <= c && c <= 'Z' {
        ((c as u8) + 32) as char
    } else {
        c
    }
}

/// A key press: a key and the modifiers held with it. Two key events are
/// equal when their normalized forms are: `A` is the same key as `a` with
/// Shift.
#[derive(PartialEq, Eq, Structural, Hash, Copy, Clone, Debug)]
pub struct KeyEvent {
    code: KeyCode,
    modifiers: KeyModifiers,
}

impl View for KeyEvent {
    type V = Key;

    closed spec fn view(&self) -> Key {
        (self.code, self.modifiers.bits)
    }
}

impl KeyEvent {
    pub fn new(code: KeyCode, modifiers: KeyModifiers) -> (r: KeyEvent)
        ensures
            r@ == normalized(code, modifiers.bits),
    {
        match code {
            KeyCode::Char(c) => {
                if 'A' <= c && c <= 'Z' {
                    KeyEvent { code, modifiers: KeyModifiers { bits: modifiers.bits | SHIFT } }
                } else if modifiers.bits & SHIFT != 0 {
                    KeyEvent { code: KeyCode::Char(ascii_upper(c)), modifiers }
                } else {
                    KeyEvent { code, modifiers }
                }
            },
            _ => KeyEvent { code, modifiers },
        }
    }

    /// The key, in normalized form.
    pub fn code(&self) -> (r: KeyCode)
        ensures
            r == self@.0,
    {
        self.code
    }

    /// The modifiers, in normalized form.
    pub fn modifiers(&self) -> (r: KeyModifiers)
        ensures
            r.bits == self@.1,
    {
        self.modifiers
    }

    /// Whether two key events are the same key press.
    pub fn same(&self, other: &KeyEvent) -> (r: bool)
        ensures
            r == (self@ == other@),
            r == (*self == *other),
    {
        *self == *other
    }
}

/// An input event.
#[derive(PartialEq, Eq, Structural, Hash, Copy, Clone, Debug)]
pub enum Event {
    Key(KeyEvent),
    /// Anything that is no key press: modes ignore it.
    Other,
}

/// Whether the bytes `lit` stand in `s` from index `i` on.
pub open spec fn has_at(s: Seq<u8>, i: int, lit: Seq<u8>) -> bool {
    0 <= i && i + lit.len() <= s.len() && s.subrange(i, i + lit.len()) == lit
}

/// The named key that is spelled from index `i` on, and the index after its
/// name: `Esc`, `CR`, `BS`, `Space`, `Up`, `Down`, `Left`, `Right`, and `lt`
/// for the key `<`.
pub open spec fn special_at(s: Seq<u8>, i: int) -> Option<(KeyCode, int)> {
    if has_at(s, i, seq!['E' as u8, 's' as u8, 'c' as u8]) {
        Some((KeyCode::Esc, i + 3))
    } else if has_at(s, i, seq!['C' as u8, 'R' as u8]) {
        Some((KeyCode::Enter, i + 2))
    } else if has_at(s, i, seq!['B' as u8, 'S' as u8]) {
        Some((KeyCode::Backspace, i + 2))
    } else if has_at(s, i, seq!['S' as u8, 'p' as u8, 'a' as u8, 'c' as u8, 'e' as u8]) {
        Some((KeyCode::Char(' '), i + 5))
    } else if has_at(s, i, seq!['U' as u8, 'p' as u8]) {
        Some((KeyCode::Up, i + 2))
    } else if has_at(s, i, seq!['D' as u8, 'o' as u8, 'w' as u8, 'n' as u8]) {
        Some((KeyCode::Down, i + 4))
    } else if has_at(s, i, seq!['L' as u8, 'e' as u8, 'f' as u8, 't' as u8]) {
        Some((KeyCode::Left, i + 4))
    } else if has_at(s, i, seq!['R' as u8, 'i' as u8, 'g' as u8, 'h' as u8, 't' as u8]) {
        Some((KeyCode::Right, i + 5))
    } else if has_at(s, i, seq!['l' as u8, 't' as u8]) {
        Some((KeyCode::Char('<'), i + 2))
    } else {
        None
    }
}

/// The modifier that is spelled at index `i`: `C-`, `S-` or `M-`.
pub open spec fn modifier_at(s: Seq<u8>, i: int) -> Option<u8> {
    if 0 <= i && i + 1 < s.len() && s[i + 1] == ('-' as u8) {
        if s[i] == ('C' as u8) {
            Some(CONTROL)
        } else if s[i] == ('S' as u8) {
            Some(SHIFT)
        } else if s[i] == ('M' as u8) {
            Some(ALT)
        } else {
            None
        }
    } else {
        None
    }
}

/// The modifiers that are spelled from index `i` on, as many as there are,
/// and the index after them.
pub open spec fn modifiers_at(s: Seq<u8>, i: int) -> (u8, int)
    decreases s.len() - i,
{
    if 0 <= i {
        match modifier_at(s, i) {
            Some(bit) => {
                let (rest, end) = modifiers_at(s, i + 2);
                (bit | rest, end)
            },
            None => (0u8, i),
        }
    } else {
        (0u8, i)
    }
}

/// Whether `b` is a lower-case letter or a digit.
pub open spec fn is_plain(b: u8) -> bool {
    (('a' as u8) <= b && b <= ('z' as u8)) || (('0' as u8) <= b && b <= ('9' as u8))
}

/// Whether `b` is an upper-case letter.
pub open spec fn is_capital(b: u8) -> bool {
    ('A' as u8) <= b && b <= ('Z' as u8)
}

/// The key that stands between `<` and `>` after modifiers, from index `j`
/// on, and the index after the `>`: a letter or digit, taken in lower case,
/// or a named key.
pub open spec fn bracketed_at(s: Seq<u8>, j: int) -> Option<(KeyCode, int)> {
    if 0 <= j && j + 1 < s.len() && (is_plain(s[j]) || is_capital(s[j])) && s[j + 1] == ('>' as u8) {
        Some((KeyCode::Char(to_lower(s[j] as char)), j + 2))
    } else {
        match special_at(s, j) {
            Some((code, end)) => if end < s.len() && s[end] == ('>' as u8) {
                Some((code, end + 1))
            } else {
                None
            },
            None => None,
        }
    }
}

/// The key that is spelled from index `i` on, and the index after it:
///
/// - a lower-case letter or a digit is that key;
/// - an upper-case letter is that key, which implies Shift;
/// - `<Name>` is a named key;
/// - `<` with one or more of `C-`, `S-`, `M-`, then a letter, a digit or a
///   name, then `>`, is that key with those modifiers.
pub open spec fn key_at(s: Seq<u8>, i: int) -> Option<(Key, int)> {
    if !(0 <= i < s.len()) {
        None
    } else if is_plain(s[i]) || is_capital(s[i]) {
        Some((normalized(KeyCode::Char(s[i] as char), 0), i + 1))
    } else if s[i] == ('<' as u8) {
        match special_at(s, i + 1) {
            Some((code, end)) if end < s.len() && s[end] == ('>' as u8) => Some(
                (normalized(code, 0), end + 1),
            ),
            _ => {
                let (bits, j) = modifiers_at(s, i + 1);
                if j == i + 1 {
                    None
                } else {
                    match bracketed_at(s, j) {
                        Some((code, end)) => Some((normalized(code, bits), end)),
                        None => None,
                    }
                }
            },
        }
    } else {
        None
    }
}

/// The keys that are spelled from index `i` to the end, or the index at
/// which no key can be read.
pub open spec fn keys_from(s: Seq<u8>, i: int) -> Result<Seq<Key>, int>
    decreases s.len() - i,
{
    if i >= s.len() {
        Ok(Seq::empty())
    } else {
        match key_at(s, i) {
            Some((key, next)) => if i < next {
                match keys_from(s, next) {
                    Ok(rest) => Ok(seq![key] + rest),
                    Err(at) => Err(at),
                }
            } else {
                Err(i)
            },
            None => Err(i),
        }
    }
}

/// The key sequence that the bytes `s` spell: one key or more, with nothing
/// between or after them. Where `s` spells none, the index of the first byte
/// at which no key can be read (0 for the empty input).
pub open spec fn parse_keys(s: Seq<u8>) -> Result<Seq<Key>, int> {
    if s.len() == 0 {
        Err(0int)
    } else {
        keys_from(s, 0)
    }
}

/// Why a key sequence could not be read.
#[derive(PartialEq, Eq, Structural, Hash, Copy, Clone, Debug)]
pub struct ParseError {
    /// Index of the byte at which no key can be read.
    pub position: usize,
}

/// The keys of `events`, as the contracts see them.
pub open spec fn keys_view(events: Seq<KeyEvent>) -> Seq<Key> {
    Seq::new(events.len(), |i: int| events[i]@)
}

/// Whether the bytes `lit` stand in `s` from index `i` on.
fn bytes_at(s: &[u8], i: usize, lit: &[u8]) -> (r: bool)
    ensures
        r == has_at(s@, i as int, lit@),
        r ==> i + lit.len() <= s.len(),
{
    if lit.len() > s.len() || i > s.len() - lit.len() {
        return false;
    }
    let mut k: usize = 0;
    while k < lit.len()
        invariant
            k <= lit.len(),
            i + lit.len() <= s.len(),
            forall|j: int| 0 <= j < k ==> s@[i + j] == lit@[j],
        decreases lit.len() - k,
    {
        if s[i + k] != lit[k] {
            assert(s@.subrange(i as int, i + lit.len())[k as int] != lit@[k as int]);
            return false;
        }
        k += 1;
    }
    assert(s@.subrange(i as int, i + lit.len()) =~= lit@);
    true
}

/// The named key that is spelled from index `i` on.
fn read_special(s: &[u8], i: usize) -> (r: Option<(KeyCode, usize)>)
    ensures
        match r {
            Some((code, end)) => special_at(s@, i as int) == Some((code, end as int)) && end <= s.len(),
            None => special_at(s@, i as int) is None,
        },
{
    let esc: [u8; 3] = ['E' as u8, 's' as u8, 'c' as u8];
    let cr: [u8; 2] = ['C' as u8, 'R' as u8];
    let bs: [u8; 2] = ['B' as u8, 'S' as u8];
    let space: [u8; 5] = ['S' as u8, 'p' as u8, 'a' as u8, 'c' as u8, 'e' as u8];
    let up: [u8; 2] = ['U' as u8, 'p' as u8];
    let down: [u8; 4] = ['D' as u8, 'o' as u8, 'w' as u8, 'n' as u8];
    let left: [u8; 4] = ['L' as u8, 'e' as u8, 'f' as u8, 't' as u8];
    let right: [u8; 5] = ['R' as u8, 'i' as u8, 'g' as u8, 'h' as u8, 't' as u8];
    let lt: [u8; 2] = ['l' as u8, 't' as u8];
    proof {
        assert(esc@ =~= seq!['E' as u8, 's' as u8, 'c' as u8]);
        assert(cr@ =~= seq!['C' as u8, 'R' as u8]);
        assert(bs@ =~= seq!['B' as u8, 'S' as u8]);
        assert(space@ =~= seq!['S' as u8, 'p' as u8, 'a' as u8, 'c' as u8, 'e' as u8]);
        assert(up@ =~= seq!['U' as u8, 'p' as u8]);
        assert(down@ =~= seq!['D' as u8, 'o' as u8, 'w' as u8, 'n' as u8]);
        assert(left@ =~= seq!['L' as u8, 'e' as u8, 'f' as u8, 't' as u8]);
        assert(right@ =~= seq!['R' as u8, 'i' as u8, 'g' as u8, 'h' as u8, 't' as u8]);
        assert(lt@ =~= seq!['l' as u8, 't' as u8]);
        assert(esc@.len() == 3 && cr@.len() == 2 && bs@.len() == 2 && space@.len() == 5);
        assert(up@.len() == 2 && down@.len() == 4 && left@.len() == 4 && right@.len() == 5);
        assert(lt@.len() == 2);
    }
    if bytes_at(s, i, esc.as_slice()) {
        Some((KeyCode::Esc, i + 3))
    } else if bytes_at(s, i, cr.as_slice()) {
        Some((KeyCode::Enter, i + 2))
    } else if bytes_at(s, i, bs.as_slice()) {
        Some((KeyCode::Backspace, i + 2))
    } else if bytes_at(s, i, space.as_slice()) {
        Some((KeyCode::Char(' '), i + 5))
    } else if bytes_at(s, i, up.as_slice()) {
        Some((KeyCode::Up, i + 2))
    } else if bytes_at(s, i, down.as_slice()) {
        Some((KeyCode::Down, i + 4))
    } else if bytes_at(s, i, left.as_slice()) {
        Some((KeyCode::Left, i + 4))
    } else if bytes_at(s, i, right.as_slice()) {
        Some((KeyCode::Right, i + 5))
    } else if bytes_at(s, i, lt.as_slice()) {
        Some((KeyCode::Char('<'), i + 2))
    } else {
        None
    }
}

/// The modifiers that are spelled from index `i` on.
fn read_modifiers(s: &[u8], i: usize) -> (r: (u8, usize))
    requires
        i <= s.len(),
    ensures
        modifiers_at(s@, i as int) == (r.0, r.1 as int),
        i <= r.1 <= s.len(),
    decreases s.len() - i,
{
    if i < s.len() && s.len() - i >= 2 && s[i + 1] == ('-' as u8) {
        let bit = if s[i] == ('C' as u8) {
            CONTROL
        } else if s[i] == ('S' as u8) {
            SHIFT
        } else if s[i] == ('M' as u8) {
            ALT
        } else {
            return (0, i);
        };
        let (rest, end) = read_modifiers(s, i + 2);
        (bit | rest, end)
    } else {
        (0, i)
    }
}

/// The key between `<` and `>` after modifiers, from index `j` on.
fn read_bracketed(s: &[u8], j: usize) -> (r: Option<(KeyCode, usize)>)
    requires
        j <= s.len(),
    ensures
        match r {
            Some((code, end)) => bracketed_at(s@, j as int) == Some((code, end as int)) && j < end
                <= s.len(),
            None => bracketed_at(s@, j as int) is None,
        },
{
    if j < s.len() && s.len() - j >= 2 && ((('a' as u8) <= s[j] && s[j] <= ('z' as u8)) || (('0' as u8) <= s[j] && s[j] <= ('9' as u8))
        || (('A' as u8) <= s[j] && s[j] <= ('Z' as u8))) && s[j + 1] == ('>' as u8) {
        return Some((KeyCode::Char(ascii_lower(s[j] as char)), j + 2));
    }
    match read_special(s, j) {
        Some((code, end)) => {
            if end < s.len() && s[end] == ('>' as u8) {
                Some((code, end + 1))
            } else {
                None
            }
        },
        None => None,
    }
}

/// The key that is spelled from index `i` on.
fn read_key(s: &[u8], i: usize) -> (r: Option<(KeyEvent, usize)>)
    requires
        i < s.len(),
    ensures
        match r {
            Some((key, next)) => key_at(s@, i as int) == Some((key@, next as int)) && i < next
                <= s.len(),
            None => key_at(s@, i as int) is None,
        },
{
    let b = s[i];
    if (('a' as u8) <= b && b <= ('z' as u8)) || (('0' as u8) <= b && b <= ('9' as u8)) || (('A' as u8) <= b && b <= ('Z' as u8)) {
        Some((KeyEvent::new(KeyCode::Char(b as char), KeyModifiers::empty()), i + 1))
    } else if b == ('<' as u8) {
        match read_special(s, i + 1) {
            Some((code, end)) => {
                if end < s.len() && s[end] == ('>' as u8) {
                    return Some((KeyEvent::new(code, KeyModifiers::empty()), end + 1));
                }
            },
            None => {},
        }
        let (bits, j) = read_modifiers(s, i + 1);
        if j == i + 1 {
            None
        } else {
            match read_bracketed(s, j) {
                Some((code, end)) => Some((KeyEvent::new(code, KeyModifiers::from_bits(bits)), end)),
                None => None,
            }
        }
    } else {
        None
    }
}

/// A sequence of key presses.
#[derive(Clone, PartialEq, Eq, Hash, Debug)]
pub struct KeySequence(pub Vec<KeyEvent>);

impl View for KeySequence {
    type V = Seq<Key>;

    open spec fn view(&self) -> Seq<Key> {
        keys_view(self.0@)
    }
}

impl KeySequence {
    pub fn new(keys: Vec<KeyEvent>) -> (r: KeySequence)
        ensures
            r.0@ == keys@,
    {
        KeySequence(keys)
    }

    /// Reads the key sequence that the bytes `s` spell.
    pub fn parse_bytes(s: &[u8]) -> (r: Result<KeySequence, ParseError>)
        ensures
            match r {
                Ok(keys) => parse_keys(s@) == Ok::<Seq<Key>, int>(keys@),
                Err(e) => parse_keys(s@) == Err::<Seq<Key>, int>(e.position as int),
            },
    {
        if s.len() == 0 {
            return Err(ParseError { position: 0 });
        }
        let mut keys: Vec<KeyEvent> = Vec::new();
        let mut i: usize = 0;
        while i < s.len()
            invariant
                i <= s.len(),
                s.len() > 0,
                forall|rest: Seq<Key>|
                    keys_from(s@, i as int) == Ok::<Seq<Key>, int>(rest) ==> keys_from(s@, 0)
                        == Ok::<Seq<Key>, int>(keys_view(keys@) + rest),
                forall|at: int|
                    keys_from(s@, i as int) == Err::<Seq<Key>, int>(at) ==> keys_from(s@, 0)
                        == Err::<Seq<Key>, int>(at),
            decreases s.len() - i,
        {
            match read_key(s, i) {
                Some((key, next)) => {
                    let ghost before = keys_view(keys@);
                    keys.push(key);
                    proof {
                        assert(keys_view(keys@) =~= before.push(key@));
                        assert forall|rest: Seq<Key>|
                            keys_from(s@, next as int) == Ok::<Seq<Key>, int>(
                                rest,
                            ) implies keys_from(s@, 0) == Ok::<Seq<Key>, int>(
                            keys_view(keys@) + rest,
                        ) by {
                            assert(keys_from(s@, i as int) == Ok::<Seq<Key>, int>(seq![key@] + rest));
                            assert(before + (seq![key@] + rest) =~= keys_view(keys@) + rest);
                        }
                    }
                    i = next;
                },
                None => {
                    return Err(ParseError { position: i });
                },
            }
        }
        proof {
            assert(keys_view(keys@) + Seq::<Key>::empty() =~= keys_view(keys@));
        }
        Ok(KeySequence(keys))
    }

    /// Reads the key sequence that `s` spells.
    pub fn try_from(s: &str) -> (r: Result<KeySequence, ParseError>)
        ensures
            match r {
                Ok(keys) => parse_keys(s.spec_bytes()) == Ok::<Seq<Key>, int>(keys@),
                Err(e) => parse_keys(s.spec_bytes()) == Err::<Seq<Key>, int>(e.position as int),
            },
    {
        KeySequence::parse_bytes(s.as_bytes())
    }
}

} // verus!
