//! Text helpers with exact meanings over sequences of characters.

use vstd::prelude::*;
use vstd::string::*;
use vstd::utf8::*;

verus! {

/// `String::push` of the standard library: the character is appended at the end
/// and nothing else changes.
pub assume_specification[ String::push ](s: &mut String, c: char)
    ensures
        final(s)@ == old(s)@.push(c),
;

/// The texts of a sequence of strings.
pub open spec fn texts(parts: Seq<String>) -> Seq<Seq<char>> {
    parts.map_values(|s: String| s@)
}

/// The text of an optional string.
pub open spec fn opt_text(s: Option<String>) -> Option<Seq<char>> {
    match s {
        Some(s) => Some(s@),
        None => None,
    }
}

/// The text of an optional string slice.
pub open spec fn opt_str_text(s: Option<&str>) -> Option<Seq<char>> {
    match s {
        Some(s) => Some(s@),
        None => None,
    }
}

/// Whether two strings hold the same text.
pub fn same(a: &str, b: &str) -> (r: bool)
    ensures
        r == (a@ == b@),
{
    let x = a.as_bytes();
    let y = b.as_bytes();
    proof {
        encode_utf8_decode_utf8(a@);
        encode_utf8_decode_utf8(b@);
    }
    if x.len() != y.len() {
        return false;
    }
    for i in 0..x.len()
        invariant
            x@.len() == y@.len(),
            x@ == encode_utf8(a@),
            y@ == encode_utf8(b@),
            forall|j: int| 0 <= j < i ==> x@[j] == y@[j],
    {
        if x[i] != y[i] {
            return false;
        }
    }
    assert(x@ =~= y@);
    true
}

/// The characters of a string.
pub fn chars_of(s: &str) -> (v: Vec<char>)
    ensures
        v@ == s@,
{
    let mut v: Vec<char> = Vec::new();
    for c in it: s.chars()
        invariant
            it.seq() == s@,
            v@ == s@.take(it.index()),
    {
        v.push(c);
    }
    v
}

/// The string that holds the characters `v[from..to]`.
pub fn string_of(v: &Vec<char>, from: usize, to: usize) -> (s: String)
    requires
        from <= to <= v@.len(),
    ensures
        s@ == v@.subrange(from as int, to as int),
{
    let mut s = String::new();
    for i in from..to
        invariant
            from <= to <= v@.len(),
            s@ == v@.subrange(from as int, i as int),
    {
        s.push(v[i]);
        assert(s@ =~= v@.subrange(from as int, i + 1));
    }
    s
}

/// `a` followed by `b`.
pub fn joined(a: &str, b: &str) -> (s: String)
    ensures
        s@ == a@ + b@,
{
    a.to_owned().concat(b)
}

/// `a` followed by `b` and `c`.
pub fn joined3(a: &str, b: &str, c: &str) -> (s: String)
    ensures
        s@ == a@ + b@ + c@,
{
    joined(a, b).concat(c)
}

// --- searching and splitting -----------------------------------------------------

/// Whether `s` starts with `prefix`.
pub open spec fn begins_with(s: Seq<char>, prefix: Seq<char>) -> bool {
    prefix.len() <= s.len() && s.take(prefix.len() as int) == prefix
}

/// Whether `s` starts with `prefix`.
pub fn starts_with(s: &str, prefix: &str) -> (r: bool)
    ensures
        r == begins_with(s@, prefix@),
{
    let v = chars_of(s);
    let p = chars_of(prefix);
    if p.len() > v.len() {
        return false;
    }
    for i in 0..p.len()
        invariant
            v@ == s@,
            p@ == prefix@,
            p@.len() <= v@.len(),
            forall|j: int| 0 <= j < i ==> v@[j] == p@[j],
    {
        if v[i] != p[i] {
            assert(s@.take(p@.len() as int)[i as int] != prefix@[i as int]);
            return false;
        }
    }
    assert(s@.take(prefix@.len() as int) =~= prefix@);
    true
}

/// The index of the first `c` in `s`, or the length of `s` when there is none.
pub open spec fn first_at(s: Seq<char>, c: char) -> int
    decreases s.len(),
{
    if s.len() == 0 || s[0] == c {
        0
    } else {
        1 + first_at(s.skip(1), c)
    }
}

/// `first_at` is in range, points at a `c` unless there is none, and no earlier
/// character is a `c`.
pub proof fn lemma_first_at(s: Seq<char>, c: char)
    ensures
        0 <= first_at(s, c) <= s.len(),
        first_at(s, c) < s.len() ==> s[first_at(s, c)] == c,
        forall|j: int| 0 <= j < first_at(s, c) ==> s[j] != c,
    decreases s.len(),
{
    if s.len() > 0 && s[0] != c {
        lemma_first_at(s.skip(1), c);
        assert forall|j: int| 0 <= j < first_at(s, c) implies s[j] != c by {
            if j > 0 {
                assert(s.skip(1)[j - 1] == s[j]);
            }
        }
    }
}

/// An index with the properties of `first_at` is `first_at`.
pub proof fn lemma_first_at_is(s: Seq<char>, c: char, i: int)
    requires
        0 <= i <= s.len(),
        i < s.len() ==> s[i] == c,
        forall|j: int| 0 <= j < i ==> s[j] != c,
    ensures
        first_at(s, c) == i,
{
    lemma_first_at(s, c);
    let k = first_at(s, c);
    if k < i {
        assert(s[k] != c);
    }
    if i < k {
        assert(s[i] != c);
    }
}

/// The first position at or after `from` that holds `c`, or the length.
pub fn find_from(v: &Vec<char>, from: usize, c: char) -> (r: usize)
    requires
        from <= v@.len(),
    ensures
        from <= r <= v@.len(),
        r == from + first_at(v@.skip(from as int), c),
        r < v@.len() ==> v@[r as int] == c,
{
    let mut i: usize = from;
    while i < v.len() && v[i] != c
        invariant
            from <= i <= v@.len(),
            forall|j: int| from <= j < i ==> v@[j] != c,
        decreases v@.len() - i,
    {
        i += 1;
    }
    proof {
        lemma_first_at_is(v@.skip(from as int), c, i - from);
    }
    i
}

/// `s` cut at every `sep`; the separators are dropped and empty pieces kept.
pub open spec fn split_on(s: Seq<char>, sep: char) -> Seq<Seq<char>>
    decreases s.len(),
    when true
    via split_on_decreases
{
    let i = first_at(s, sep);
    if i >= s.len() {
        seq![s]
    } else {
        seq![s.take(i)] + split_on(s.skip(i + 1), sep)
    }
}

#[via_fn]
proof fn split_on_decreases(s: Seq<char>, sep: char) {
    lemma_first_at(s, sep);
}

/// Cuts `s` at every `sep`.
pub fn split(s: &str, sep: char) -> (parts: Vec<String>)
    ensures
        texts(parts@) == split_on(s@, sep),
{
    let v = chars_of(s);
    let mut parts: Vec<String> = Vec::new();
    let mut from: usize = 0;
    assert(v@.skip(0) =~= s@);
    assert(texts(parts@) + split_on(v@.skip(0), sep) =~= split_on(s@, sep));
    loop
        invariant
            v@ == s@,
            from <= v@.len(),
            texts(parts@) + split_on(v@.skip(from as int), sep) == split_on(s@, sep),
        decreases v@.len() - from,
    {
        let end = find_from(&v, from, sep);
        let ghost rest = v@.skip(from as int);
        let piece = string_of(&v, from, end);
        assert(piece@ =~= rest.take(end - from));
        let ghost before = parts@;
        parts.push(piece);
        assert(texts(parts@) =~= texts(before).push(piece@));
        if end == v.len() {
            assert(piece@ =~= rest);
            assert(split_on(rest, sep) =~= seq![rest]);
            assert(texts(before) + seq![rest] =~= texts(parts@));
            return parts;
        }
        assert(rest.skip(end - from + 1) =~= v@.skip(end + 1));
        assert(texts(before) + (seq![piece@] + split_on(v@.skip(end + 1), sep)) =~= texts(parts@)
            + split_on(v@.skip(end + 1), sep));
        from = end + 1;
    }
}

/// `s` without a carriage return at its end.
pub open spec fn without_cr(s: Seq<char>) -> Seq<char> {
    if s.len() > 0 && s.last() == '\r' {
        s.drop_last()
    } else {
        s
    }
}

/// The lines of `s`: a line ends at `\n` or `\r\n`, the end of the last line may be
/// missing, and the line ends are dropped.
pub open spec fn lines_of(s: Seq<char>) -> Seq<Seq<char>>
    decreases s.len(),
    when true
    via lines_of_decreases
{
    let i = first_at(s, '\n');
    if s.len() == 0 {
        Seq::empty()
    } else if i >= s.len() {
        seq![s]
    } else {
        seq![without_cr(s.take(i))] + lines_of(s.skip(i + 1))
    }
}

#[via_fn]
proof fn lines_of_decreases(s: Seq<char>) {
    lemma_first_at(s, '\n');
}

/// Cuts `s` into its lines.
pub fn lines(s: &str) -> (parts: Vec<String>)
    ensures
        texts(parts@) == lines_of(s@),
{
    let v = chars_of(s);
    let mut parts: Vec<String> = Vec::new();
    let mut from: usize = 0;
    assert(v@.skip(0) =~= s@);
    assert(texts(parts@) + lines_of(v@.skip(0)) =~= lines_of(s@));
    while from < v.len()
        invariant
            v@ == s@,
            from <= v@.len(),
            texts(parts@) + lines_of(v@.skip(from as int)) == lines_of(s@),
        decreases v@.len() - from,
    {
        let end = find_from(&v, from, '\n');
        let ghost rest = v@.skip(from as int);
        let ghost before = parts@;
        assert(v@.subrange(from as int, end as int) =~= rest.take(end - from));
        if end == v.len() {
            let piece = string_of(&v, from, end);
            assert(piece@ =~= rest);
            parts.push(piece);
            assert(texts(parts@) =~= texts(before).push(piece@));
            assert(lines_of(rest) =~= seq![rest]);
            assert(texts(before) + seq![rest] =~= texts(parts@));
            return parts;
        }
        let stop = if end > from && v[end - 1] == '\r' {
            end - 1
        } else {
            end
        };
        let piece = string_of(&v, from, stop);
        assert(piece@ =~= without_cr(rest.take(end - from)));
        parts.push(piece);
        assert(texts(parts@) =~= texts(before).push(piece@));
        assert(rest.skip(end - from + 1) =~= v@.skip(end + 1));
        assert(texts(before) + (seq![piece@] + lines_of(v@.skip(end + 1))) =~= texts(parts@)
            + lines_of(v@.skip(end + 1)));
        from = end + 1;
    }
    assert(v@.skip(from as int) =~= Seq::<char>::empty());
    assert(texts(parts@) + Seq::<Seq<char>>::empty() =~= texts(parts@));
    parts
}

// --- white space, letter case, numbers ---------------------------------------------

/// Whether `c` has the Unicode property `White_Space`.
pub open spec fn is_space(c: char) -> bool {
    ||| '\u{9}' <= c <= '\u{d}'
    ||| c == ' '
    ||| c == '\u{85}'
    ||| c == '\u{a0}'
    ||| c == '\u{1680}'
    ||| '\u{2000}' <= c <= '\u{200a}'
    ||| c == '\u{2028}'
    ||| c == '\u{2029}'
    ||| c == '\u{202f}'
    ||| c == '\u{205f}'
    ||| c == '\u{3000}'
}

/// Decides the Unicode property `White_Space`.
pub fn is_whitespace(c: char) -> (r: bool)
    ensures
        r == is_space(c),
{
    ('\u{9}' <= c && c <= '\u{d}') || c == ' ' || c == '\u{85}' || c == '\u{a0}' || c == '\u{1680}'
        || ('\u{2000}' <= c && c <= '\u{200a}') || c == '\u{2028}' || c == '\u{2029}' || c
        == '\u{202f}' || c == '\u{205f}' || c == '\u{3000}'
}

/// `s` without its leading white space.
pub open spec fn trim_start(s: Seq<char>) -> Seq<char>
    decreases s.len(),
{
    if s.len() > 0 && is_space(s[0]) {
        trim_start(s.skip(1))
    } else {
        s
    }
}

/// `s` without its trailing white space.
pub open spec fn trim_end(s: Seq<char>) -> Seq<char>
    decreases s.len(),
{
    if s.len() > 0 && is_space(s.last()) {
        trim_end(s.drop_last())
    } else {
        s
    }
}

/// `s` without the white space around it.
pub open spec fn trimmed(s: Seq<char>) -> Seq<char> {
    trim_end(trim_start(s))
}

/// Drops the white space around `s`.
pub fn trim(s: &str) -> (r: String)
    ensures
        r@ == trimmed(s@),
{
    let v = chars_of(s);
    let mut from: usize = 0;
    assert(v@.skip(0) =~= s@);
    while from < v.len() && is_whitespace(v[from])
        invariant
            from <= v@.len(),
            trim_start(v@.skip(from as int)) == trim_start(s@),
        decreases v@.len() - from,
    {
        assert(v@.skip(from as int).skip(1) =~= v@.skip(from + 1));
        from += 1;
    }
    assert(trim_start(s@) == v@.skip(from as int));
    let mut to: usize = v.len();
    assert(v@.subrange(from as int, to as int) =~= v@.skip(from as int));
    while to > from && is_whitespace(v[to - 1])
        invariant
            from <= to <= v@.len(),
            trim_end(v@.subrange(from as int, to as int)) == trimmed(s@),
        decreases to,
    {
        assert(v@.subrange(from as int, to as int).drop_last() =~= v@.subrange(
            from as int,
            to - 1,
        ));
        to -= 1;
    }
    string_of(&v, from, to)
}

/// `c` with an ASCII capital letter replaced by its small letter.
pub open spec fn lower_char(c: char) -> char {
    if 'A' <= c <= 'Z' {
        (c as u8 + 32) as char
    } else {
        c
    }
}

/// `c` with an ASCII small letter replaced by its capital letter.
pub open spec fn upper_char(c: char) -> char {
    if 'a' <= c <= 'z' {
        (c as u8 - 32) as char
    } else {
        c
    }
}

/// `s` with its ASCII capital letters made small.
pub open spec fn lower(s: Seq<char>) -> Seq<char> {
    s.map_values(|c: char| lower_char(c))
}

/// `s` with its ASCII small letters made capital.
pub open spec fn upper(s: Seq<char>) -> Seq<char> {
    s.map_values(|c: char| upper_char(c))
}

/// Makes the ASCII capital letters of `s` small.
pub fn to_lower(s: &str) -> (r: String)
    ensures
        r@ == lower(s@),
{
    let mut r = String::new();
    for c in it: s.chars()
        invariant
            it.seq() == s@,
            r@ == lower(s@.take(it.index())),
    {
        let l = if 'A' <= c && c <= 'Z' {
            (c as u8 + 32) as char
        } else {
            c
        };
        r.push(l);
        assert(r@ =~= lower(s@.take(it.index() + 1)));
    }
    assert(s@.take(s@.len() as int) =~= s@);
    r
}

/// Makes the ASCII small letters of `s` capital.
pub fn to_upper(s: &str) -> (r: String)
    ensures
        r@ == upper(s@),
{
    let mut r = String::new();
    for c in it: s.chars()
        invariant
            it.seq() == s@,
            r@ == upper(s@.take(it.index())),
    {
        let u = if 'a' <= c && c <= 'z' {
            (c as u8 - 32) as char
        } else {
            c
        };
        r.push(u);
        assert(r@ =~= upper(s@.take(it.index() + 1)));
    }
    assert(s@.take(s@.len() as int) =~= s@);
    r
}

/// The character of a decimal digit.
pub open spec fn digit(d: nat) -> char {
    (48 + d) as char
}

/// `n` in decimal notation.
pub open spec fn decimal(n: nat) -> Seq<char>
    decreases n,
{
    if n < 10 {
        seq![digit(n)]
    } else {
        decimal(n / 10).push(digit(n % 10))
    }
}

/// `n` in decimal notation, with a sign where it is negative.
pub open spec fn signed_decimal(n: int) -> Seq<char> {
    if n < 0 {
        seq!['-'] + decimal((-n) as nat)
    } else {
        decimal(n as nat)
    }
}

fn push_decimal(out: &mut String, n: u64)
    ensures
        final(out)@ == old(out)@ + decimal(n as nat),
    decreases n,
{
    if n >= 10 {
        push_decimal(out, n / 10);
    }
    out.push((48u8 + (n % 10) as u8) as char);
    assert(out@ =~= old(out)@ + decimal(n as nat));
}

/// `n` in decimal notation.
pub fn u64_text(n: u64) -> (s: String)
    ensures
        s@ == decimal(n as nat),
{
    let mut s = String::new();
    push_decimal(&mut s, n);
    assert(s@ =~= decimal(n as nat));
    s
}

/// `n` in decimal notation, with a sign where it is negative.
pub fn i32_text(n: i32) -> (s: String)
    ensures
        s@ == signed_decimal(n as int),
{
    let wide: i64 = n as i64;
    if wide < 0 {
        let digits = u64_text((-wide) as u64);
        proof {
            reveal_strlit("-");
            assert("-"@ =~= seq!['-']);
        }
        joined("-", digits.as_str())
    } else {
        u64_text(wide as u64)
    }
}

/// The number that a sequence of decimal digits stands for.
pub open spec fn digits_value(s: Seq<char>) -> Option<nat>
    decreases s.len(),
{
    if s.len() == 0 {
        Some(0)
    } else {
        match digits_value(s.drop_last()) {
            Some(n) => if '0' <= s.last() <= '9' {
                Some(n * 10 + (s.last() as nat - 48) as nat)
            } else {
                None
            },
            None => None,
        }
    }
}

/// The number that `s` stands for: digits, after a `+` or nothing.
pub open spec fn number_in(s: Seq<char>) -> Option<nat> {
    let body = if s.len() > 0 && s[0] == '+' {
        s.skip(1)
    } else {
        s
    };
    if body.len() == 0 {
        None
    } else {
        digits_value(body)
    }
}

/// What the first digits stand for is no more than what all of them stand for.
proof fn lemma_digits_grow(s: Seq<char>, k: int)
    requires
        0 <= k <= s.len(),
        digits_value(s) is Some,
    ensures
        digits_value(s.take(k)) is Some,
        digits_value(s.take(k))->0 <= digits_value(s)->0,
    decreases s.len(),
{
    if k == s.len() {
        assert(s.take(k) =~= s);
    } else {
        lemma_digits_grow(s.drop_last(), k);
        assert(s.drop_last().take(k) =~= s.take(k));
    }
}

/// Reads a number, where the text is one that fits.
pub fn parse_u64(s: &str) -> (r: Option<u64>)
    ensures
        match r {
            Some(n) => number_in(s@) == Some(n as nat),
            None => match number_in(s@) {
                Some(n) => n > u64::MAX,
                None => true,
            },
        },
{
    let v = chars_of(s);
    let start: usize = if v.len() > 0 && v[0] == '+' {
        1
    } else {
        0
    };
    let ghost body = v@.skip(start as int);
    assert(start == 0 ==> body =~= v@);
    if start == v.len() {
        return None;
    }
    let mut n: u64 = 0;
    for i in start..v.len()
        invariant
            start <= i <= v@.len(),
            body == v@.skip(start as int),
            number_in(s@) == digits_value(body),
            digits_value(body.take(i - start)) == Some(n as nat),
    {
        let c = v[i];
        let ghost next = body.take(i - start + 1);
        assert(next.drop_last() =~= body.take(i - start));
        assert(next.last() == c);
        if c < '0' || c > '9' {
            proof {
                if digits_value(body) is Some {
                    lemma_digits_grow(body, i - start + 1);
                }
            }
            return None;
        }
        let d: u64 = c as u64 - 48;
        if n > u64::MAX / 10 || n * 10 > u64::MAX - d {
            proof {
                if digits_value(body) is Some {
                    lemma_digits_grow(body, i - start + 1);
                }
            }
            return None;
        }
        n = n * 10 + d;
    }
    assert(body.take(body.len() as int) =~= body);
    Some(n)
}

// --- laws --------------------------------------------------------------------------

/// Texts are compared, taken apart, cut and joined character by character.
pub proof fn law_texts_are_their_characters(
    a: &str,
    b: &str,
    c: &str,
    equal: bool,
    chars: Vec<char>,
    from: usize,
    to: usize,
    part: String,
    two: String,
    three: String,
)
    requires
        call_ensures(same, (a, b), equal),
        call_ensures(chars_of, (a,), chars),
        from <= to <= chars@.len(),
        call_ensures(string_of, (&chars, from, to), part),
        call_ensures(joined, (a, b), two),
        call_ensures(joined3, (a, b, c), three),
    ensures
        equal <==> a@ == b@,
        chars@.len() == a@.len(),
        forall|i: int| 0 <= i < a@.len() ==> #[trigger] chars@[i] == a@[i],
        part@.len() == to - from,
        forall|i: int| 0 <= i < to - from ==> #[trigger] part@[i] == a@[from + i],
        two@ == a@ + b@,
        three@ == a@ + b@ + c@,
{
}

/// A text starts with a prefix exactly where it is the prefix followed by something.
pub proof fn law_starts_with(s: &str, prefix: &str, r: bool)
    requires
        call_ensures(starts_with, (s, prefix), r),
    ensures
        r <==> exists|rest: Seq<char>| s@ == #[trigger] (prefix@ + rest),
{
    let n = prefix@.len() as int;
    if r {
        assert(s@ =~= prefix@ + s@.skip(n));
    }
    if exists|rest: Seq<char>| s@ == #[trigger] (prefix@ + rest) {
        let rest = choose|rest: Seq<char>| s@ == #[trigger] (prefix@ + rest);
        assert(s@.take(n) =~= prefix@);
    }
}

/// Splitting cuts off what comes before the first separator and goes on behind it; a text
/// without one is a piece of its own.
pub proof fn law_split_cuts_at_separators(a: Seq<char>, sep: char, rest: Seq<char>)
    requires
        forall|i: int| 0 <= i < a.len() ==> a[i] != sep,
    ensures
        split_on(a, sep) == seq![a],
        split_on(a.push(sep) + rest, sep) == seq![a] + split_on(rest, sep),
{
    let s = a.push(sep) + rest;
    assert(s[a.len() as int] == sep);
    assert forall|j: int| 0 <= j < a.len() implies s[j] != sep by {
        assert(s[j] == a[j]);
    }
    lemma_first_at_is(s, sep, a.len() as int);
    assert(s.take(a.len() as int) =~= a);
    assert(s.skip(a.len() as int + 1) =~= rest);
    lemma_first_at_is(a, sep, a.len() as int);
}

/// A line ends at a line feed, with or without a carriage return before it; what follows
/// is cut on its own, and the end of the last line may be missing.
pub proof fn law_lines_are_cut_at_their_ends(a: Seq<char>, rest: Seq<char>)
    requires
        forall|i: int| 0 <= i < a.len() ==> a[i] != '\n',
    ensures
        lines_of(Seq::empty()) == Seq::<Seq<char>>::empty(),
        a.len() > 0 ==> lines_of(a) == seq![a],
        a.len() == 0 || a.last() != '\r' ==> lines_of(a.push('\n') + rest) == seq![a] + lines_of(
            rest,
        ),
        lines_of(a.push('\r').push('\n') + rest) == seq![a] + lines_of(rest),
{
    lemma_first_at_is(a, '\n', a.len() as int);
    let s = a.push('\n') + rest;
    assert forall|j: int| 0 <= j < a.len() implies s[j] != '\n' by {
        assert(s[j] == a[j]);
    }
    assert(s[a.len() as int] == '\n');
    lemma_first_at_is(s, '\n', a.len() as int);
    assert(s.take(a.len() as int) =~= a);
    assert(s.skip(a.len() as int + 1) =~= rest);
    let b = a.push('\r');
    let t = b.push('\n') + rest;
    assert forall|j: int| 0 <= j < b.len() implies t[j] != '\n' by {
        assert(t[j] == b[j]);
    }
    assert(t[b.len() as int] == '\n');
    lemma_first_at_is(t, '\n', b.len() as int);
    assert(t.take(b.len() as int) =~= b);
    assert(t.skip(b.len() as int + 1) =~= rest);
    assert(b.drop_last() =~= a);
}

/// What is cut comes out piece by piece.
pub proof fn law_pieces_come_out_in_order(
    s: &str,
    sep: char,
    parts: Vec<String>,
    whole: Vec<String>,
)
    requires
        call_ensures(split, (s, sep), parts),
        call_ensures(lines, (s,), whole),
    ensures
        parts@.len() == split_on(s@, sep).len(),
        forall|i: int| 0 <= i < parts@.len() ==> (#[trigger] parts@[i])@ == split_on(s@, sep)[i],
        whole@.len() == lines_of(s@).len(),
        forall|i: int| 0 <= i < whole@.len() ==> (#[trigger] whole@[i])@ == lines_of(s@)[i],
{
    assert forall|i: int| 0 <= i < parts@.len() implies (#[trigger] parts@[i])@ == split_on(
        s@,
        sep,
    )[i] by {
        assert(texts(parts@)[i] == parts@[i]@);
    }
    assert forall|i: int| 0 <= i < whole@.len() implies (#[trigger] whole@[i])@ == lines_of(
        s@,
    )[i] by {
        assert(texts(whole@)[i] == whole@[i]@);
    }
}

proof fn lemma_trim_start(s: Seq<char>) -> (n: int)
    ensures
        0 <= n <= s.len(),
        trim_start(s) == s.skip(n),
        forall|i: int| 0 <= i < n ==> is_space(#[trigger] s[i]),
        n < s.len() ==> !is_space(s[n]),
    decreases s.len(),
{
    if s.len() > 0 && is_space(s[0]) {
        let k = lemma_trim_start(s.skip(1));
        assert(s.skip(1).skip(k) =~= s.skip(k + 1));
        assert forall|i: int| 0 <= i < k + 1 implies is_space(#[trigger] s[i]) by {
            if i > 0 {
                assert(s.skip(1)[i - 1] == s[i]);
            }
        }
        if k + 1 < s.len() {
            assert(s.skip(1)[k] == s[k + 1]);
        }
        k + 1
    } else {
        assert(s.skip(0) =~= s);
        0
    }
}

proof fn lemma_trim_end(s: Seq<char>) -> (n: int)
    ensures
        0 <= n <= s.len(),
        trim_end(s) == s.take(n),
        forall|i: int| n <= i < s.len() ==> is_space(#[trigger] s[i]),
        n > 0 ==> !is_space(s[n - 1]),
    decreases s.len(),
{
    if s.len() > 0 && is_space(s.last()) {
        let k = lemma_trim_end(s.drop_last());
        assert(s.drop_last().take(k) =~= s.take(k));
        assert forall|i: int| k <= i < s.len() implies is_space(#[trigger] s[i]) by {
            if i < s.len() - 1 {
                assert(s.drop_last()[i] == s[i]);
            }
        }
        k
    } else {
        assert(s.take(s.len() as int) =~= s);
        s.len() as int
    }
}

/// A trimmed text is the middle of the text: what is before and behind it is white space,
/// and it neither starts nor ends with white space.
pub proof fn law_trim_takes_the_space_around(s: &str, r: String)
    requires
        call_ensures(trim, (s,), r),
    ensures
        exists|from: int, to: int|
            {
                &&& 0 <= from <= to <= s@.len()
                &&& r@ == #[trigger] s@.subrange(from, to)
                &&& forall|i: int|
                    0 <= i < s@.len() && (i < from || to <= i) ==> is_space(#[trigger] s@[i])
                &&& from < to ==> !is_space(s@[from]) && !is_space(s@[to - 1])
            },
{
    let from = lemma_trim_start(s@);
    let rest = s@.skip(from);
    let n = lemma_trim_end(rest);
    let to = from + n;
    assert(r@ =~= s@.subrange(from, to));
    assert forall|i: int| 0 <= i < s@.len() && (i < from || to <= i) implies is_space(
        #[trigger] s@[i],
    ) by {
        if i >= to {
            assert(rest[i - from] == s@[i]);
        }
    }
    if from < to {
        assert(rest[n - 1] == s@[to - 1]);
    }
}

/// White space is what separates words: blanks, tabs and line ends among it, and no
/// printable ASCII character.
pub proof fn law_white_space(c: char, r: bool)
    requires
        call_ensures(is_whitespace, (c,), r),
    ensures
        r == is_space(c),
        c == ' ' || c == '\t' || c == '\n' || c == '\r' ==> r,
        '!' <= c <= '~' ==> !r,
        r ==> '\u{9}' <= c <= '\u{d}' || c == ' ' || c == '\u{85}' || c == '\u{a0}' || c
            == '\u{1680}' || '\u{2000}' <= c <= '\u{200a}' || c == '\u{2028}' || c == '\u{2029}' || c
            == '\u{202f}' || c == '\u{205f}' || c == '\u{3000}',
        '\u{9}' <= c <= '\u{d}' || c == ' ' || c == '\u{85}' || c == '\u{a0}' || c == '\u{1680}'
            || '\u{2000}' <= c <= '\u{200a}' || c == '\u{2028}' || c == '\u{2029}' || c == '\u{202f}'
            || c == '\u{205f}' || c == '\u{3000}' ==> r,
{
}

/// Changing the letter case changes ASCII letters and nothing else, and keeps the length.
pub proof fn law_letter_case(s: &str, low: String, up: String)
    requires
        call_ensures(to_lower, (s,), low),
        call_ensures(to_upper, (s,), up),
    ensures
        low@ == lower(s@),
        up@ == upper(s@),
        low@.len() == s@.len(),
        up@.len() == s@.len(),
        forall|i: int|
            0 <= i < s@.len() ==> (if 'A' <= s@[i] <= 'Z' {
                #[trigger] low@[i] as int == s@[i] as int + 32
            } else {
                low@[i] == s@[i]
            }),
        forall|i: int|
            0 <= i < s@.len() ==> (if 'a' <= s@[i] <= 'z' {
                #[trigger] up@[i] as int == s@[i] as int - 32
            } else {
                up@[i] == s@[i]
            }),
{
}

/// The last digit of a numeral is the number modulo ten, and what is before it is the
/// numeral of the rest; a number below ten is one digit. A negative number has a minus
/// sign before its numeral.
pub proof fn law_numerals(n: u64, s: String, m: i32, t: String)
    requires
        call_ensures(u64_text, (n,), s),
        call_ensures(i32_text, (m,), t),
    ensures
        s@ == decimal(n as nat),
        s@.len() > 0,
        s@.last() as int == '0' as int + n % 10,
        n < 10 ==> s@.len() == 1,
        n >= 10 ==> s@.drop_last() == decimal((n / 10) as nat),
        m >= 0 ==> t@ == decimal(m as nat),
        m < 0 ==> t@ == seq!['-'] + decimal((-m) as nat),
{
    if n >= 10 {
        assert(s@.drop_last() =~= decimal((n / 10) as nat));
    }
}

/// A digit at the end of a numeral multiplies its value by ten and adds its own; no other
/// character belongs to a numeral.
pub proof fn law_digits_have_their_value(s: Seq<char>, c: char)
    ensures
        digits_value(Seq::empty()) == Some(0nat),
        '0' <= c <= '9' && digits_value(s) is Some ==> digits_value(s.push(c)) == Some(
            (digits_value(s)->0 * 10 + (c as int - '0' as int)) as nat,
        ),
        c < '0' || c > '9' ==> digits_value(s.push(c)) is None,
        digits_value(s) is None ==> digits_value(s.push(c)) is None,
{
    assert(s.push(c).drop_last() =~= s);
}

/// A number is read from digits, with or without a plus sign before them, where it fits;
/// nothing is read from a text without digits.
pub proof fn law_numbers_are_read(s: &str, r: Option<u64>, digits: Seq<char>)
    requires
        call_ensures(parse_u64, (s,), r),
        s@ == digits && (digits.len() == 0 || digits[0] != '+') || s@ == seq!['+'] + digits,
    ensures
        digits.len() == 0 ==> r is None,
        digits.len() > 0 ==> match digits_value(digits) {
            Some(n) => if n <= u64::MAX {
                r is Some && r->0 == n
            } else {
                r is None
            },
            None => r is None,
        },
{
    if s@ == seq!['+'] + digits {
        assert(s@.skip(1) =~= digits);
    }
}

proof fn lemma_decimal_value(n: nat)
    ensures
        digits_value(decimal(n)) == Some(n),
        decimal(n).len() > 0,
        '0' <= decimal(n)[0] <= '9',
    decreases n,
{
    reveal_with_fuel(digits_value, 2);
    let d = n % 10;
    assert(digit(d) as nat == 48 + d);
    assert(decimal(n).last() == digit(d));
    if n >= 10 {
        lemma_decimal_value(n / 10);
        assert(decimal(n).drop_last() =~= decimal(n / 10));
        assert(n / 10 * 10 + d == n);
    } else {
        assert(decimal(n).drop_last() =~= Seq::empty());
    }
}

/// What is written of a number is read back as the number.
pub proof fn law_numerals_read_back(n: u64, s: String, t: &str, r: Option<u64>)
    requires
        call_ensures(u64_text, (n,), s),
        t@ == s@,
        call_ensures(parse_u64, (t,), r),
    ensures
        r == Some(n),
{
    lemma_decimal_value(n as nat);
}

/// The first place of a character from some place on, or the end where there is none.
pub proof fn law_first_place(v: Vec<char>, from: usize, c: char, r: usize)
    requires
        from <= v@.len(),
        call_ensures(find_from, (&v, from, c), r),
    ensures
        from <= r <= v@.len(),
        r < v@.len() ==> v@[r as int] == c,
        forall|i: int| from <= i < r ==> #[trigger] v@[i] != c,
{
    lemma_first_at(v@.skip(from as int), c);
    assert forall|i: int| from <= i < r implies #[trigger] v@[i] != c by {
        assert(v@.skip(from as int)[i - from] == v@[i]);
    }
}

} // verus!
