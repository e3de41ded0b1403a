//! Accelerators such as `Ctrl+Alt+S`, and their form in the desktop portal.

use super::keys::{key_code, key_to_evdev, Modifier};
use super::HotkeyError;
use crate::text::{
    joined3, lemma_first_at_is, lower, lower_char, same, split, split_on, texts, to_lower,
    to_upper, trim, trim_end, trim_start, trimmed, upper, upper_char,
};
use vstd::prelude::*;
use vstd::string::*;

verus! {

/// Which modifiers are held or wanted.
#[derive(Debug, Clone, Copy, PartialEq, Eq, Structural)]
pub struct Mods {
    pub ctrl: bool,
    pub alt: bool,
    pub shift: bool,
    /// Super or Meta.
    pub logo: bool,
}

impl Mods {
    /// No modifier.
    pub open spec fn empty() -> Mods {
        Mods { ctrl: false, alt: false, shift: false, logo: false }
    }

    /// These modifiers with one of them held or released.
    pub open spec fn with(self, m: Modifier, down: bool) -> Mods {
        match m {
            Modifier::Ctrl => Mods { ctrl: down, ..self },
            Modifier::Alt => Mods { alt: down, ..self },
            Modifier::Shift => Mods { shift: down, ..self },
            Modifier::Logo => Mods { logo: down, ..self },
        }
    }

    /// Whether a modifier is among these.
    pub open spec fn has(self, m: Modifier) -> bool {
        match m {
            Modifier::Ctrl => self.ctrl,
            Modifier::Alt => self.alt,
            Modifier::Shift => self.shift,
            Modifier::Logo => self.logo,
        }
    }

    pub fn none() -> (r: Mods)
        ensures
            r == Mods::empty(),
    {
        Mods { ctrl: false, alt: false, shift: false, logo: false }
    }

    pub fn set(&mut self, m: Modifier, down: bool)
        ensures
            *final(self) == old(self).with(m, down),
    {
        match m {
            Modifier::Ctrl => {
                self.ctrl = down;
            },
            Modifier::Alt => {
                self.alt = down;
            },
            Modifier::Shift => {
                self.shift = down;
            },
            Modifier::Logo => {
                self.logo = down;
            },
        }
    }

    pub fn any(&self) -> (r: bool)
        ensures
            r == (*self != Mods::empty()),
    {
        self.ctrl || self.alt || self.shift || self.logo
    }
}

/// Whether the held modifiers are exactly the wanted ones: each wanted one is held,
/// and no other is.
pub fn mods_match(cur: &Mods, want: &Mods) -> (r: bool)
    ensures
        r == (*cur == *want),
{
    *cur == *want || (!want.any() && !cur.any())
}

/// The modifier that a token of an accelerator names, in any letter case.
pub open spec fn modifier_named(token: Seq<char>) -> Option<Modifier> {
    let t = lower(token);
    if t == "ctrl"@ || t == "control"@ {
        Some(Modifier::Ctrl)
    } else if t == "alt"@ || t == "option"@ {
        Some(Modifier::Alt)
    } else if t == "shift"@ {
        Some(Modifier::Shift)
    } else if t == "super"@ || t == "meta"@ || t == "logo"@ || t == "win"@ || t == "cmd"@ {
        Some(Modifier::Logo)
    } else {
        None
    }
}

fn find_modifier(token: &str) -> (r: Option<Modifier>)
    ensures
        r == modifier_named(token@),
{
    let t = to_lower(token);
    let t = t.as_str();
    if same(t, "ctrl") || same(t, "control") {
        Some(Modifier::Ctrl)
    } else if same(t, "alt") || same(t, "option") {
        Some(Modifier::Alt)
    } else if same(t, "shift") {
        Some(Modifier::Shift)
    } else if same(t, "super") || same(t, "meta") || same(t, "logo") || same(t, "win") || same(
        t,
        "cmd",
    ) {
        Some(Modifier::Logo)
    } else {
        None
    }
}

/// The pieces of an accelerator that say something: without the white space around
/// them and without empty ones.
pub open spec fn tokens(pieces: Seq<Seq<char>>) -> Seq<Seq<char>>
    decreases pieces.len(),
{
    if pieces.len() == 0 {
        Seq::empty()
    } else {
        let t = trimmed(pieces[0]);
        let rest = tokens(pieces.skip(1));
        if t.len() == 0 {
            rest
        } else {
            seq![t] + rest
        }
    }
}

/// The tokens that name no modifier.
pub open spec fn key_tokens(toks: Seq<Seq<char>>) -> Seq<Seq<char>>
    decreases toks.len(),
{
    if toks.len() == 0 {
        Seq::empty()
    } else {
        let rest = key_tokens(toks.skip(1));
        if modifier_named(toks[0]) is Some {
            rest
        } else {
            seq![toks[0]] + rest
        }
    }
}

/// `mods` with every modifier that the tokens name.
pub open spec fn mods_with(mods: Mods, toks: Seq<Seq<char>>) -> Mods
    decreases toks.len(),
{
    if toks.len() == 0 {
        mods
    } else {
        let next = match modifier_named(toks[0]) {
            Some(m) => mods.with(m, true),
            None => mods,
        };
        mods_with(next, toks.skip(1))
    }
}

/// What an accelerator text stands for.
#[verifier::ext_equal]
pub enum Parsed {
    /// More than one token is no modifier.
    TooManyKeys,
    /// Every token is a modifier.
    NoKey,
    /// The key, in capital letters, has no event code.
    UnknownKey { key: Seq<char> },
    Chord { mods: Mods, key: Seq<char>, code: u16 },
}

/// Reads an accelerator such as `Ctrl+Alt+S`.
pub open spec fn parsed(text: Seq<char>) -> Parsed {
    let toks = tokens(split_on(text, '+'));
    let keys = key_tokens(toks);
    if keys.len() > 1 {
        Parsed::TooManyKeys
    } else if keys.len() == 0 {
        Parsed::NoKey
    } else {
        let key = upper(keys[0]);
        match key_code(key) {
            None => Parsed::UnknownKey { key },
            Some(code) => Parsed::Chord { mods: mods_with(Mods::empty(), toks), key, code },
        }
    }
}

/// A parsed accelerator such as `Ctrl+Alt+S`.
#[derive(Debug)]
pub struct Accelerator {
    pub mods: Mods,
    /// The key token in capital letters.
    pub key: String,
    /// The event code of the key.
    pub evdev_key: u16,
}

impl Clone for Accelerator {
    fn clone(&self) -> (r: Accelerator)
        ensures
            r == *self,
    {
        Accelerator { mods: self.mods, key: self.key.clone(), evdev_key: self.evdev_key }
    }
}

/// The portal's trigger text of a chord: the modifiers `CTRL`, `ALT`, `SHIFT`, `LOGO`
/// joined by `+`, and the key last, in small letters.
pub open spec fn trigger_text(mods: Mods, key: Seq<char>) -> Seq<char> {
    (if mods.ctrl { "CTRL+"@ } else { Seq::empty() })
        + ((if mods.alt { "ALT+"@ } else { Seq::empty() })
        + ((if mods.shift { "SHIFT+"@ } else { Seq::empty() })
        + ((if mods.logo { "LOGO+"@ } else { Seq::empty() })
        + lower(key))))
}

/// Whether `r` is what reading an accelerator text gives: the chord, or an error that
/// says what is wrong with the text.
pub open spec fn reads_as(text: Seq<char>, r: Result<Accelerator, HotkeyError>) -> bool {
    match parsed(text) {
        Parsed::TooManyKeys => r matches Err(HotkeyError::Backend(s)) && s@ == "accelerator `"@
            + text + "` has more than one non-modifier key"@,
        Parsed::NoKey => r matches Err(HotkeyError::Backend(s)) && s@ == "accelerator `"@ + text
            + "` has no key"@,
        Parsed::UnknownKey { key } => r matches Err(HotkeyError::Backend(s)) && s@
            == "unsupported key `"@ + key + "` in accelerator"@,
        Parsed::Chord { mods, key, code } => r matches Ok(a) && a.mods == mods && a.key@ == key
            && a.evdev_key == code && a.wf(),
    }
}

impl Accelerator {
    /// The key token has the event code.
    pub open spec fn wf(self) -> bool {
        key_code(self.key@) == Some(self.evdev_key)
    }

    /// Reads an accelerator such as `Ctrl+Alt+S`. The modifiers are `Ctrl` or
    /// `Control`, `Alt` or `Option`, `Shift`, and `Super`, `Meta`, `Logo`, `Win` or
    /// `Cmd`, in any letter case; the one remaining token is the key.
    pub fn parse(accelerator: &str) -> (r: Result<Accelerator, HotkeyError>)
        ensures
            reads_as(accelerator@, r),
    {
        let pieces = split(accelerator, '+');
        let ghost all = tokens(texts(pieces@));
        let mut mods = Mods::none();
        let mut key: Option<String> = None;
        let mut i: usize = 0;
        assert(texts(pieces@).skip(0) =~= texts(pieces@));
        while i < pieces.len()
            invariant
                i <= pieces@.len(),
                mods_with(mods, tokens(texts(pieces@).skip(i as int))) == mods_with(
                    Mods::empty(),
                    all,
                ),
                key_tokens(all) == (match key {
                    Some(k) => seq![k@],
                    None => Seq::empty(),
                }) + key_tokens(tokens(texts(pieces@).skip(i as int))),
                texts(pieces@) == split_on(accelerator@, '+'),
                all == tokens(texts(pieces@)),
            decreases pieces@.len() - i,
        {
            let ghost rest = texts(pieces@).skip(i as int);
            let tok = trim(pieces[i].as_str());
            assert(rest[0] == pieces@[i as int]@);
            assert(rest.skip(1) =~= texts(pieces@).skip(i + 1));
            i += 1;
            if tok.as_str().is_empty() {
                continue;
            }
            let ghost toks = tokens(rest);
            assert(toks[0] == tok@);
            assert(toks.skip(1) =~= tokens(rest.skip(1)));
            match find_modifier(tok.as_str()) {
                Some(m) => {
                    mods.set(m, true);
                },
                None => {
                    if key.is_some() {
                        assert(key_tokens(all).len() >= 2);
                        return Err(
                            HotkeyError::Backend(
                                joined3(
                                    "accelerator `",
                                    accelerator,
                                    "` has more than one non-modifier key",
                                ),
                            ),
                        );
                    }
                    assert(Seq::<Seq<char>>::empty() + (seq![tok@] + key_tokens(toks.skip(1)))
                        =~= seq![tok@] + key_tokens(toks.skip(1)));
                    key = Some(tok);
                },
            }
        }
        assert(texts(pieces@).skip(i as int) =~= Seq::empty());
        let tok = match key {
            Some(tok) => tok,
            None => {
                return Err(
                    HotkeyError::Backend(joined3("accelerator `", accelerator, "` has no key")),
                );
            },
        };
        assert(key_tokens(all) =~= seq![tok@]);
        let key = to_upper(tok.as_str());
        match key_to_evdev(key.as_str()) {
            Some(evdev_key) => Ok(Accelerator { mods, key, evdev_key }),
            None => Err(
                HotkeyError::Backend(
                    joined3("unsupported key `", key.as_str(), "` in accelerator"),
                ),
            ),
        }
    }

    /// The portal's trigger text, such as `CTRL+ALT+s`.
    pub fn portal_trigger(&self) -> (r: String)
        ensures
            r@ == trigger_text(self.mods, self.key@),
    {
        let mut out = String::new();
        if self.mods.ctrl {
            out.append("CTRL+");
        }
        if self.mods.alt {
            out.append("ALT+");
        }
        if self.mods.shift {
            out.append("SHIFT+");
        }
        if self.mods.logo {
            out.append("LOGO+");
        }
        let key = to_lower(self.key.as_str());
        out.append(key.as_str());
        assert(out@ =~= trigger_text(self.mods, self.key@));
        out
    }
}

// --- the trigger text reads back -----------------------------------------------------

/// Whether `c` occurs in the tokens of keys: a capital letter or a digit.
spec fn is_key_char(c: char) -> bool {
    'A' <= c <= 'Z' || '0' <= c <= '9'
}

/// A key with an event code is made of capital letters and digits, and in small
/// letters it names no modifier.
proof fn lemma_key_shape(key: Seq<char>)
    requires
        key_code(key) is Some,
    ensures
        key.len() > 0,
        forall|i: int| 0 <= i < key.len() ==> is_key_char(#[trigger] key[i]),
        modifier_named(lower(key)) is None,
{
    reveal_strlit("F1");
    reveal_strlit("F2");
    reveal_strlit("F3");
    reveal_strlit("F4");
    reveal_strlit("F5");
    reveal_strlit("F6");
    reveal_strlit("F7");
    reveal_strlit("F8");
    reveal_strlit("F9");
    reveal_strlit("F10");
    reveal_strlit("F11");
    reveal_strlit("F12");
    reveal_strlit("SPACE");
    reveal_strlit("ENTER");
    reveal_strlit("RETURN");
    reveal_strlit("TAB");
    reveal_strlit("ESC");
    reveal_strlit("ESCAPE");
    assert forall|i: int| 0 <= i < key.len() implies is_key_char(#[trigger] key[i]) by {}
    reveal_strlit("ctrl");
    reveal_strlit("control");
    reveal_strlit("alt");
    reveal_strlit("option");
    reveal_strlit("shift");
    reveal_strlit("super");
    reveal_strlit("meta");
    reveal_strlit("logo");
    reveal_strlit("win");
    reveal_strlit("cmd");
    let t = lower(lower(key));
    if key.len() > 1 {
        assert(key[0] == 'F' || key[0] == 'E' || key[0] == 'R' || key[0] == 'T' || (key[0] == 'S'
            && key[1] == 'P'));
        assert(t[0] == lower_char(lower_char(key[0])));
        assert(t[1] == lower_char(lower_char(key[1])));
    }
    assert(t.len() == key.len());
}

/// Small letters and back give the key again.
proof fn lemma_key_case(key: Seq<char>)
    requires
        forall|i: int| 0 <= i < key.len() ==> is_key_char(#[trigger] key[i]),
    ensures
        upper(lower(key)) == key,
        forall|i: int| 0 <= i < key.len() ==> lower(key)[i] != '+',
        key.len() > 0 ==> trimmed(lower(key)) == lower(key),
{
    let low = lower(key);
    assert forall|i: int| 0 <= i < key.len() implies upper_char(lower_char(#[trigger] key[i]))
        == key[i] && low[i] != '+' && !crate::text::is_space(low[i]) by {
        assert(is_key_char(key[i]));
    }
    assert(upper(low) =~= key);
    if key.len() > 0 {
        assert(is_key_char(key[0]));
        assert(is_key_char(key[key.len() - 1]));
        assert(trim_start(low) == low);
        assert(trim_end(low) == low);
    }
}

/// A piece without a separator is cut off as it is.
proof fn lemma_split_cons(a: Seq<char>, rest: Seq<char>)
    requires
        forall|i: int| 0 <= i < a.len() ==> a[i] != '+',
    ensures
        split_on(a.push('+') + rest, '+') == seq![a] + split_on(rest, '+'),
        split_on(a, '+') == seq![a],
{
    let s = a.push('+') + rest;
    assert(s[a.len() as int] == '+');
    assert forall|j: int| 0 <= j < a.len() implies s[j] != '+' by {
        assert(s[j] == a[j]);
    }
    lemma_first_at_is(s, '+', a.len() as int);
    assert(s.take(a.len() as int) =~= a);
    assert(s.skip(a.len() as int + 1) =~= rest);
    lemma_first_at_is(a, '+', a.len() as int);
}

/// A modifier at the front of an accelerator adds that modifier and nothing else.
proof fn lemma_modifier_first(word: Seq<char>, m: Modifier, mods: Mods, rest: Seq<char>)
    requires
        forall|i: int| 0 <= i < word.len() ==> word[i] != '+',
        word.len() > 0,
        trimmed(word) == word,
        modifier_named(word) == Some(m),
    ensures
        ({
            let more = tokens(split_on(word.push('+') + rest, '+'));
            let less = tokens(split_on(rest, '+'));
            &&& key_tokens(more) == key_tokens(less)
            &&& mods_with(mods, more) == mods_with(mods.with(m, true), less)
        }),
{
    lemma_split_cons(word, rest);
    let pieces = seq![word] + split_on(rest, '+');
    assert(pieces.skip(1) =~= split_on(rest, '+'));
    let more = tokens(pieces);
    assert(more.skip(1) =~= tokens(split_on(rest, '+')));
}

proof fn lemma_modifier_words()
    ensures
        "CTRL+"@ == "CTRL"@.push('+') && modifier_named("CTRL"@) == Some(Modifier::Ctrl),
        "ALT+"@ == "ALT"@.push('+') && modifier_named("ALT"@) == Some(Modifier::Alt),
        "SHIFT+"@ == "SHIFT"@.push('+') && modifier_named("SHIFT"@) == Some(Modifier::Shift),
        "LOGO+"@ == "LOGO"@.push('+') && modifier_named("LOGO"@) == Some(Modifier::Logo),
        trimmed("CTRL"@) == "CTRL"@ && "CTRL"@.len() == 4,
        trimmed("ALT"@) == "ALT"@ && "ALT"@.len() == 3,
        trimmed("SHIFT"@) == "SHIFT"@ && "SHIFT"@.len() == 5,
        trimmed("LOGO"@) == "LOGO"@ && "LOGO"@.len() == 4,
        forall|i: int| 0 <= i < 4 ==> "CTRL"@[i] != '+',
        forall|i: int| 0 <= i < 3 ==> "ALT"@[i] != '+',
        forall|i: int| 0 <= i < 5 ==> "SHIFT"@[i] != '+',
        forall|i: int| 0 <= i < 4 ==> "LOGO"@[i] != '+',
{
    reveal_strlit("CTRL");
    reveal_strlit("CTRL+");
    reveal_strlit("ALT");
    reveal_strlit("ALT+");
    reveal_strlit("SHIFT");
    reveal_strlit("SHIFT+");
    reveal_strlit("LOGO");
    reveal_strlit("LOGO+");
    reveal_strlit("ctrl");
    reveal_strlit("control");
    reveal_strlit("alt");
    reveal_strlit("option");
    reveal_strlit("shift");
    reveal_strlit("super");
    reveal_strlit("meta");
    reveal_strlit("logo");
    reveal_strlit("win");
    reveal_strlit("cmd");
    assert("CTRL+"@ =~= "CTRL"@.push('+'));
    assert("ALT+"@ =~= "ALT"@.push('+'));
    assert("SHIFT+"@ =~= "SHIFT"@.push('+'));
    assert("LOGO+"@ =~= "LOGO"@.push('+'));
    assert(lower("CTRL"@) =~= "ctrl"@);
    assert(lower("ALT"@) =~= "alt"@);
    assert(lower("SHIFT"@) =~= "shift"@);
    assert(lower("LOGO"@) =~= "logo"@);
    assert(lower("ALT"@)[0] == 'a');
    assert(lower("SHIFT"@)[0] == 's');
    assert(lower("LOGO"@)[0] == 'l');
}

/// The portal's trigger text of a chord reads back as the same chord.
pub proof fn law_trigger_reads_back(mods: Mods, key: Seq<char>)
    requires
        key_code(key) is Some,
    ensures
        parsed(trigger_text(mods, key)) == (Parsed::Chord { mods, key, code: key_code(key)->0 }),
{
    lemma_key_shape(key);
    lemma_key_case(key);
    lemma_modifier_words();
    let low = lower(key);
    let none = Mods::empty();
    // The text, built up from its end.
    let t4 = low;
    let t3 = (if mods.logo { "LOGO+"@ } else { Seq::empty() }) + t4;
    let t2 = (if mods.shift { "SHIFT+"@ } else { Seq::empty() }) + t3;
    let t1 = (if mods.alt { "ALT+"@ } else { Seq::empty() }) + t2;
    let t0 = (if mods.ctrl { "CTRL+"@ } else { Seq::empty() }) + t1;
    assert(t0 == trigger_text(mods, key));
    // Its tokens, read from the front.
    lemma_split_cons(low, Seq::empty());
    reveal_with_fuel(tokens, 2);
    reveal_with_fuel(key_tokens, 2);
    reveal_with_fuel(mods_with, 2);
    let last = tokens(seq![low]);
    assert(seq![low].skip(1) =~= Seq::empty());
    assert(last =~= seq![low]);
    assert(last.skip(1) =~= Seq::empty());
    assert(key_tokens(last) =~= seq![low]);
    let m0 = none;
    let m1 = if mods.ctrl { m0.with(Modifier::Ctrl, true) } else { m0 };
    let m2 = if mods.alt { m1.with(Modifier::Alt, true) } else { m1 };
    let m3 = if mods.shift { m2.with(Modifier::Shift, true) } else { m2 };
    let m4 = if mods.logo { m3.with(Modifier::Logo, true) } else { m3 };
    if mods.logo {
        lemma_modifier_first("LOGO"@, Modifier::Logo, m3, t4);
    } else {
        assert(t3 =~= t4);
    }
    if mods.shift {
        lemma_modifier_first("SHIFT"@, Modifier::Shift, m2, t3);
    } else {
        assert(t2 =~= t3);
    }
    if mods.alt {
        lemma_modifier_first("ALT"@, Modifier::Alt, m1, t2);
    } else {
        assert(t1 =~= t2);
    }
    if mods.ctrl {
        lemma_modifier_first("CTRL"@, Modifier::Ctrl, m0, t1);
    } else {
        assert(t0 =~= t1);
    }
    assert(m4 == mods);
    assert(mods_with(m4, last) == m4);
}

// --- what a text is read as ----------------------------------------------------------

/// Whether a word, in small letters and without the white space around it, names a modifier.
pub open spec fn names_modifier(word: Seq<char>, m: Modifier) -> bool {
    let w = lower(trimmed(word));
    match m {
        Modifier::Ctrl => w == "ctrl"@ || w == "control"@,
        Modifier::Alt => w == "alt"@ || w == "option"@,
        Modifier::Shift => w == "shift"@,
        Modifier::Logo => w == "super"@ || w == "meta"@ || w == "logo"@ || w == "win"@ || w
            == "cmd"@,
    }
}

/// Whether a word names any modifier.
pub open spec fn names_some_modifier(word: Seq<char>) -> bool {
    names_modifier(word, Modifier::Ctrl) || names_modifier(word, Modifier::Alt) || names_modifier(
        word,
        Modifier::Shift,
    ) || names_modifier(word, Modifier::Logo)
}

proof fn lemma_names(word: Seq<char>, m: Modifier)
    ensures
        names_modifier(word, m) <==> modifier_named(trimmed(word)) == Some(m),
        names_some_modifier(word) <==> modifier_named(trimmed(word)) is Some,
        names_modifier(word, m) ==> trimmed(word).len() > 0,
{
    reveal_strlit("ctrl");
    reveal_strlit("control");
    reveal_strlit("alt");
    reveal_strlit("option");
    reveal_strlit("shift");
    reveal_strlit("super");
    reveal_strlit("meta");
    reveal_strlit("logo");
    reveal_strlit("win");
    reveal_strlit("cmd");
    let w = lower(trimmed(word));
    assert(w.len() == trimmed(word).len());
    assert(w == "ctrl"@ ==> w[0] == 'c' && w[1] == 't' && w.len() == 4);
    assert(w == "control"@ ==> w.len() == 7);
    assert(w == "alt"@ ==> w[0] == 'a' && w.len() == 3);
    assert(w == "option"@ ==> w.len() == 6);
    assert(w == "shift"@ ==> w[0] == 's' && w[1] == 'h' && w.len() == 5);
    assert(w == "super"@ ==> w[1] == 'u' && w.len() == 5);
    assert(w == "meta"@ ==> w[0] == 'm' && w.len() == 4);
    assert(w == "logo"@ ==> w[0] == 'l' && w.len() == 4);
    assert(w == "win"@ ==> w[0] == 'w' && w.len() == 3);
    assert(w == "cmd"@ ==> w[0] == 'c' && w.len() == 3);
}

/// A word at the front of an accelerator is the first token, where it says something.
proof fn lemma_word_first(word: Seq<char>, mods: Mods, rest: Seq<char>)
    requires
        !word.contains('+'),
    ensures
        ({
            let more = tokens(split_on(word.push('+') + rest, '+'));
            let less = tokens(split_on(rest, '+'));
            let t = trimmed(word);
            &&& t.len() == 0 ==> more == less
            &&& t.len() > 0 ==> {
                &&& key_tokens(more) == (if modifier_named(t) is Some {
                    key_tokens(less)
                } else {
                    seq![t] + key_tokens(less)
                })
                &&& mods_with(mods, more) == mods_with(
                    match modifier_named(t) {
                        Some(m) => mods.with(m, true),
                        None => mods,
                    },
                    less,
                )
            }
        }),
{
    assert forall|i: int| 0 <= i < word.len() implies word[i] != '+' by {
        if word[i] == '+' {
            assert(word.contains('+'));
        }
    }
    lemma_split_cons(word, rest);
    let pieces = seq![word] + split_on(rest, '+');
    assert(pieces.skip(1) =~= split_on(rest, '+'));
    let more = tokens(pieces);
    if trimmed(word).len() > 0 {
        assert(more.skip(1) =~= tokens(split_on(rest, '+')));
    }
}

/// The modifiers that tokens name are added to those that there are.
proof fn lemma_mods_add_up(mods: Mods, m: Modifier, toks: Seq<Seq<char>>)
    ensures
        mods_with(mods.with(m, true), toks) == mods_with(mods, toks).with(m, true),
    decreases toks.len(),
{
    if toks.len() > 0 {
        match modifier_named(toks[0]) {
            Some(n) => {
                assert(mods.with(m, true).with(n, true) == mods.with(n, true).with(m, true));
                lemma_mods_add_up(mods.with(n, true), m, toks.skip(1));
            },
            None => lemma_mods_add_up(mods, m, toks.skip(1)),
        }
    }
}

/// A word that names a modifier, in any letter case and with white space around it, adds that
/// modifier to the accelerator behind it and changes nothing else.
pub proof fn law_modifiers_are_read(
    word: Seq<char>,
    m: Modifier,
    rest: &str,
    q: Result<Accelerator, HotkeyError>,
    text: &str,
    r: Result<Accelerator, HotkeyError>,
)
    requires
        names_modifier(word, m),
        !word.contains('+'),
        text@ == word + seq!['+'] + rest@,
        call_ensures(Accelerator::parse, (rest,), q),
        call_ensures(Accelerator::parse, (text,), r),
    ensures
        r is Ok <==> q is Ok,
        q matches Ok(a) ==> {
            let b = r->Ok_0;
            &&& b.key@ == a.key@
            &&& b.evdev_key == a.evdev_key
            &&& b.mods.ctrl == (a.mods.ctrl || m is Ctrl)
            &&& b.mods.alt == (a.mods.alt || m is Alt)
            &&& b.mods.shift == (a.mods.shift || m is Shift)
            &&& b.mods.logo == (a.mods.logo || m is Logo)
        },
{
    lemma_names(word, m);
    lemma_word_first(word, Mods::empty(), rest@);
    assert(text@ =~= word.push('+') + rest@);
    lemma_mods_add_up(Mods::empty(), m, tokens(split_on(rest@, '+')));
}

/// Pieces of an accelerator that are empty say nothing.
pub proof fn law_empty_pieces_say_nothing(
    word: Seq<char>,
    rest: &str,
    q: Result<Accelerator, HotkeyError>,
    text: &str,
    r: Result<Accelerator, HotkeyError>,
)
    requires
        trimmed(word).len() == 0,
        !word.contains('+'),
        text@ == word + seq!['+'] + rest@,
        call_ensures(Accelerator::parse, (rest,), q),
        call_ensures(Accelerator::parse, (text,), r),
    ensures
        r is Ok <==> q is Ok,
        q matches Ok(a) ==> r->Ok_0.key@ == a.key@ && r->Ok_0.evdev_key == a.evdev_key
            && r->Ok_0.mods == a.mods,
{
    lemma_word_first(word, Mods::empty(), rest@);
    assert(text@ =~= word.push('+') + rest@);
}

/// A single word that names no modifier is the key, in capital letters, which must have an
/// event code.
pub proof fn law_single_key(
    text: &str,
    key: &str,
    code: Option<u16>,
    r: Result<Accelerator, HotkeyError>,
)
    requires
        !text@.contains('+'),
        !names_some_modifier(text@),
        trimmed(text@).len() > 0,
        key@ == upper(trimmed(text@)),
        call_ensures(key_to_evdev, (key,), code),
        call_ensures(Accelerator::parse, (text,), r),
    ensures
        r is Ok <==> code is Some,
        r matches Ok(a) ==> a.key@ == key@ && a.evdev_key == code->0 && !a.mods.ctrl && !a.mods.alt
            && !a.mods.shift && !a.mods.logo,
        r matches Err(e) ==> (e matches HotkeyError::Backend(s) && s@ == "unsupported key `"@ + key@
            + "` in accelerator"@),
{
    lemma_names(text@, Modifier::Ctrl);
    lemma_one_word(text@);
}

/// The one token of a text without a separator.
proof fn lemma_one_word(text: Seq<char>)
    requires
        !text.contains('+'),
    ensures
        tokens(split_on(text, '+')) == (if trimmed(text).len() > 0 {
            seq![trimmed(text)]
        } else {
            Seq::empty()
        }),
        trimmed(text).len() > 0 && modifier_named(trimmed(text)) is None ==> {
            &&& key_tokens(seq![trimmed(text)]) == seq![trimmed(text)]
            &&& mods_with(Mods::empty(), seq![trimmed(text)]) == Mods::empty()
        },
        trimmed(text).len() > 0 && modifier_named(trimmed(text)) is Some ==> key_tokens(
            seq![trimmed(text)],
        ).len() == 0,
{
    assert forall|i: int| 0 <= i < text.len() implies text[i] != '+' by {
        if text[i] == '+' {
            assert(text.contains('+'));
        }
    }
    lemma_split_cons(text, Seq::empty());
    reveal_with_fuel(tokens, 2);
    reveal_with_fuel(key_tokens, 2);
    reveal_with_fuel(mods_with, 2);
    let one = seq![text];
    assert(one.skip(1) =~= Seq::empty());
    let t = trimmed(text);
    assert(seq![t].skip(1) =~= Seq::empty());
    assert(seq![t] + Seq::<Seq<char>>::empty() =~= seq![t]);
}

/// Without a key there is no accelerator.
pub proof fn law_accelerator_needs_a_key(text: &str, r: Result<Accelerator, HotkeyError>)
    requires
        !text@.contains('+'),
        names_some_modifier(text@) || trimmed(text@).len() == 0,
        call_ensures(Accelerator::parse, (text,), r),
    ensures
        r matches Err(e) && (e matches HotkeyError::Backend(s) && s@ == "accelerator `"@ + text@
            + "` has no key"@),
{
    lemma_names(text@, Modifier::Ctrl);
    lemma_one_word(text@);
}

/// A key before an accelerator, which has its own, is one too many.
pub proof fn law_one_key_only(
    word: Seq<char>,
    rest: &str,
    q: Result<Accelerator, HotkeyError>,
    text: &str,
    r: Result<Accelerator, HotkeyError>,
)
    requires
        !names_some_modifier(word),
        trimmed(word).len() > 0,
        !word.contains('+'),
        text@ == word + seq!['+'] + rest@,
        q is Ok,
        call_ensures(Accelerator::parse, (rest,), q),
        call_ensures(Accelerator::parse, (text,), r),
    ensures
        r matches Err(e) && (e matches HotkeyError::Backend(s) && s@ == "accelerator `"@ + text@
            + "` has more than one non-modifier key"@),
{
    lemma_names(word, Modifier::Ctrl);
    lemma_word_first(word, Mods::empty(), rest@);
    assert(text@ =~= word.push('+') + rest@);
}

/// A word behind an accelerator is its last piece.
proof fn lemma_split_push(text: Seq<char>, word: Seq<char>)
    requires
        !word.contains('+'),
    ensures
        split_on(text + seq!['+'] + word, '+') == split_on(text, '+').push(word),
    decreases text.len(),
{
    let all = text + seq!['+'] + word;
    if text.contains('+') {
        let i = text.index_of_first('+')->0;
        text.index_of_first_ensures('+');
        let head = text.take(i);
        let tail = text.skip(i + 1);
        assert(forall|j: int| 0 <= j < head.len() ==> head[j] != '+');
        lemma_split_cons(head, tail);
        assert(text =~= head.push('+') + tail);
        lemma_split_push(tail, word);
        lemma_split_cons(head, tail + seq!['+'] + word);
        assert(all =~= head.push('+') + (tail + seq!['+'] + word));
        assert(seq![head] + split_on(tail, '+').push(word) =~= (seq![head] + split_on(tail, '+')).push(
            word,
        ));
    } else {
        assert forall|j: int| 0 <= j < text.len() implies text[j] != '+' by {
            if text[j] == '+' {
                assert(text.contains('+'));
            }
        }
        assert forall|j: int| 0 <= j < word.len() implies word[j] != '+' by {
            if word[j] == '+' {
                assert(word.contains('+'));
            }
        }
        lemma_split_cons(text, word);
        lemma_split_cons(word, Seq::empty());
        assert(all =~= text.push('+') + word);
        assert(seq![text] + seq![word] =~= seq![text].push(word));
    }
}

/// The tokens of more pieces.
proof fn lemma_tokens_push(pieces: Seq<Seq<char>>, word: Seq<char>)
    ensures
        tokens(pieces.push(word)) == (if trimmed(word).len() > 0 {
            tokens(pieces).push(trimmed(word))
        } else {
            tokens(pieces)
        }),
    decreases pieces.len(),
{
    let more = pieces.push(word);
    if pieces.len() == 0 {
        assert(more.skip(1) =~= pieces);
        assert(tokens(more.skip(1)) =~= Seq::empty());
        assert(seq![trimmed(word)] + Seq::<Seq<char>>::empty() =~= Seq::empty().push(trimmed(word)));
    } else {
        assert(more.skip(1) =~= pieces.skip(1).push(word));
        lemma_tokens_push(pieces.skip(1), word);
        let t = trimmed(pieces[0]);
        assert(more[0] == pieces[0]);
        assert((seq![t] + tokens(pieces.skip(1))).push(trimmed(word)) =~= seq![t] + tokens(
            pieces.skip(1),
        ).push(trimmed(word)));
    }
}

/// What one more token that names a modifier changes.
proof fn lemma_modifier_last(mods: Mods, toks: Seq<Seq<char>>, t: Seq<char>, m: Modifier)
    requires
        modifier_named(t) == Some(m),
    ensures
        key_tokens(toks.push(t)) == key_tokens(toks),
        mods_with(mods, toks.push(t)) == mods_with(mods, toks).with(m, true),
    decreases toks.len(),
{
    let more = toks.push(t);
    if toks.len() == 0 {
        assert(more.skip(1) =~= toks);
        assert(key_tokens(more.skip(1)) =~= Seq::empty());
        assert(mods_with(mods.with(m, true), more.skip(1)) == mods.with(m, true));
    } else {
        assert(more.skip(1) =~= toks.skip(1).push(t));
        assert(more[0] == toks[0]);
        let next = match modifier_named(toks[0]) {
            Some(n) => mods.with(n, true),
            None => mods,
        };
        lemma_modifier_last(next, toks.skip(1), t, m);
    }
}

/// A modifier behind the key adds itself as one before it does.
pub proof fn law_modifiers_are_read_behind_the_key(
    word: Seq<char>,
    m: Modifier,
    start: &str,
    q: Result<Accelerator, HotkeyError>,
    text: &str,
    r: Result<Accelerator, HotkeyError>,
)
    requires
        names_modifier(word, m),
        !word.contains('+'),
        text@ == start@ + seq!['+'] + word,
        call_ensures(Accelerator::parse, (start,), q),
        call_ensures(Accelerator::parse, (text,), r),
    ensures
        r is Ok <==> q is Ok,
        q matches Ok(a) ==> {
            let b = r->Ok_0;
            &&& b.key@ == a.key@
            &&& b.evdev_key == a.evdev_key
            &&& b.mods.ctrl == (a.mods.ctrl || m is Ctrl)
            &&& b.mods.alt == (a.mods.alt || m is Alt)
            &&& b.mods.shift == (a.mods.shift || m is Shift)
            &&& b.mods.logo == (a.mods.logo || m is Logo)
        },
{
    lemma_names(word, m);
    lemma_split_push(start@, word);
    lemma_tokens_push(split_on(start@, '+'), word);
    lemma_modifier_last(Mods::empty(), tokens(split_on(start@, '+')), trimmed(word), m);
}

/// The portal's trigger names the modifiers in one order, each in capital letters and with a
/// `+` behind it, and then the key in small letters.
pub proof fn law_trigger_names_the_chord(accel: Accelerator, r: String)
    requires
        call_ensures(Accelerator::portal_trigger, (&accel,), r),
    ensures
        r@ == (if accel.mods.ctrl { seq!['C', 'T', 'R', 'L', '+'] } else { Seq::empty() }) + (
        if accel.mods.alt { seq!['A', 'L', 'T', '+'] } else { Seq::empty() }) + (
        if accel.mods.shift { seq!['S', 'H', 'I', 'F', 'T', '+'] } else { Seq::empty() }) + (
        if accel.mods.logo { seq!['L', 'O', 'G', 'O', '+'] } else { Seq::empty() }) + lower(
            accel.key@,
        ),
{
    reveal_strlit("CTRL+");
    reveal_strlit("ALT+");
    reveal_strlit("SHIFT+");
    reveal_strlit("LOGO+");
    assert("CTRL+"@ =~= seq!['C', 'T', 'R', 'L', '+']);
    assert("ALT+"@ =~= seq!['A', 'L', 'T', '+']);
    assert("SHIFT+"@ =~= seq!['S', 'H', 'I', 'F', 'T', '+']);
    assert("LOGO+"@ =~= seq!['L', 'O', 'G', 'O', '+']);
}

/// What the portal is asked for reads back as the accelerator.
pub proof fn law_portal_trigger_reads_back(
    accel: Accelerator,
    trigger: String,
    text: &str,
    r: Result<Accelerator, HotkeyError>,
    key: &str,
)
    requires
        call_ensures(Accelerator::portal_trigger, (&accel,), trigger),
        key@ == accel.key@,
        call_ensures(key_to_evdev, (key,), Some(accel.evdev_key)),
        text@ == trigger@,
        call_ensures(Accelerator::parse, (text,), r),
    ensures
        r matches Ok(a) && a.mods == accel.mods && a.key@ == accel.key@ && a.evdev_key
            == accel.evdev_key,
{
    law_trigger_reads_back(accel.mods, accel.key@);
}

/// Modifiers match exactly where each is held that is wanted and no other; setting one leaves
/// the others; and a copy of an accelerator is equal to it.
pub proof fn law_modifiers(
    cur: Mods,
    want: Mods,
    r: bool,
    mods: &mut Mods,
    m: Modifier,
    down: bool,
    some: bool,
    none: Mods,
    accel: Accelerator,
    copy: Accelerator,
)
    requires
        call_ensures(mods_match, (&cur, &want), r),
        call_ensures(Mods::set, (mods, m, down), ()),
        call_ensures(Mods::any, (&cur,), some),
        call_ensures(Mods::none, (), none),
        call_ensures(Accelerator::clone, (&accel,), copy),
    ensures
        r <==> cur.ctrl == want.ctrl && cur.alt == want.alt && cur.shift == want.shift && cur.logo
            == want.logo,
        final(mods).ctrl == (if m is Ctrl { down } else { old(mods).ctrl }),
        final(mods).alt == (if m is Alt { down } else { old(mods).alt }),
        final(mods).shift == (if m is Shift { down } else { old(mods).shift }),
        final(mods).logo == (if m is Logo { down } else { old(mods).logo }),
        some <==> cur.ctrl || cur.alt || cur.shift || cur.logo,
        !none.ctrl && !none.alt && !none.shift && !none.logo,
        copy.mods == accel.mods && copy.key@ == accel.key@ && copy.evdev_key == accel.evdev_key,
{
}

/// What one more token that names no modifier changes.
proof fn lemma_key_last(toks: Seq<Seq<char>>, t: Seq<char>)
    requires
        modifier_named(t) is None,
    ensures
        key_tokens(toks.push(t)) == key_tokens(toks).push(t),
    decreases toks.len(),
{
    let more = toks.push(t);
    if toks.len() == 0 {
        assert(more.skip(1) =~= toks);
        assert(key_tokens(more.skip(1)) =~= Seq::empty());
        assert(seq![t] + Seq::<Seq<char>>::empty() =~= Seq::empty().push(t));
    } else {
        assert(more.skip(1) =~= toks.skip(1).push(t));
        assert(more[0] == toks[0]);
        lemma_key_last(toks.skip(1), t);
        assert((seq![toks[0]] + key_tokens(toks.skip(1))).push(t) =~= seq![toks[0]] + key_tokens(
            toks.skip(1),
        ).push(t));
    }
}

/// Two keys are too many, whatever stands between them.
pub proof fn law_two_keys_are_too_many(
    first: Seq<char>,
    between: Seq<char>,
    last: Seq<char>,
    text: &str,
    r: Result<Accelerator, HotkeyError>,
)
    requires
        !first.contains('+') && !last.contains('+'),
        !names_some_modifier(first) && !names_some_modifier(last),
        trimmed(first).len() > 0 && trimmed(last).len() > 0,
        text@ == first + seq!['+'] + (between + seq!['+'] + last) || text@ == first + seq!['+']
            + last,
        call_ensures(Accelerator::parse, (text,), r),
    ensures
        r matches Err(e) && (e matches HotkeyError::Backend(s) && s@ == "accelerator `"@ + text@
            + "` has more than one non-modifier key"@),
{
    lemma_names(first, Modifier::Ctrl);
    lemma_names(last, Modifier::Ctrl);
    if text@ == first + seq!['+'] + last {
        lemma_word_first(first, Mods::empty(), last);
        assert(text@ =~= first.push('+') + last);
        lemma_one_word(last);
    } else {
        let rest = between + seq!['+'] + last;
        lemma_word_first(first, Mods::empty(), rest);
        assert(text@ =~= first.push('+') + rest);
        lemma_split_push(between, last);
        lemma_tokens_push(split_on(between, '+'), last);
        lemma_key_last(tokens(split_on(between, '+')), trimmed(last));
    }
}

} // verus!
