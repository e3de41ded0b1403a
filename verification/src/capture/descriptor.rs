//! Window descriptors: how an X11 window is recognised again across launches.

use crate::text::{
    chars_of, find_from, first_at, lemma_first_at_is, lines, lines_of, opt_text,
    same, string_of, texts, trim, trimmed, without_cr,
};
use vstd::prelude::*;
use vstd::string::*;
use vstd::utf8::{decode_utf8, valid_utf8};

verus! {

/// A window's `WM_CLASS` (instance and class) and title.
#[derive(Debug, PartialEq, Eq)]
pub struct WindowDescriptor {
    pub class: Option<String>,
    pub instance: Option<String>,
    pub title: Option<String>,
}

/// The texts of a window descriptor.
#[verifier::ext_equal]
pub struct Descriptor {
    pub class: Option<Seq<char>>,
    pub instance: Option<Seq<char>>,
    pub title: Option<Seq<char>>,
}

impl View for WindowDescriptor {
    type V = Descriptor;

    open spec fn view(&self) -> Descriptor {
        Descriptor {
            class: opt_text(self.class),
            instance: opt_text(self.instance),
            title: opt_text(self.title),
        }
    }
}

impl Descriptor {
    /// A descriptor that says nothing.
    pub open spec fn empty() -> Descriptor {
        Descriptor { class: None, instance: None, title: None }
    }
}

// --- properties of a window --------------------------------------------------------

/// What `String::from_utf8_lossy` makes of bytes.
pub uninterp spec fn lossy_text(bytes: Seq<u8>) -> Seq<char>;

/// `String::from_utf8_lossy` of the standard library: a function of the bytes, and the
/// decoded text where the bytes are UTF-8.
#[verifier::external_body]
fn from_utf8_lossy(bytes: &Vec<u8>) -> (r: String)
    ensures
        r@ == lossy_text(bytes@),
        valid_utf8(bytes@) ==> r@ == decode_utf8(bytes@),
{
    String::from_utf8_lossy(bytes).into_owned()
}

/// The index of the first NUL in `bytes`, or the length.
pub open spec fn first_nul(bytes: Seq<u8>) -> int
    decreases bytes.len(),
{
    if bytes.len() == 0 || bytes[0] == 0 {
        0
    } else {
        1 + first_nul(bytes.skip(1))
    }
}

/// The text of bytes, unless there are none.
pub open spec fn nonempty_text(bytes: Seq<u8>) -> Option<Seq<char>> {
    if bytes.len() == 0 {
        None
    } else {
        Some(lossy_text(bytes))
    }
}

/// Instance and class in a `WM_CLASS` property: two strings that each end with a NUL.
pub open spec fn class_parts(value: Seq<u8>) -> (Option<Seq<char>>, Option<Seq<char>>) {
    let i = first_nul(value);
    let rest = value.skip(i + 1);
    (
        nonempty_text(value.take(i)),
        if i < value.len() {
            nonempty_text(rest.take(first_nul(rest)))
        } else {
            None
        },
    )
}

fn find_nul(bytes: &Vec<u8>, from: usize) -> (r: usize)
    requires
        from <= bytes@.len(),
    ensures
        from <= r <= bytes@.len(),
        r == from + first_nul(bytes@.skip(from as int)),
{
    let mut i: usize = from;
    while i < bytes.len() && bytes[i] != 0
        invariant
            from <= i <= bytes@.len(),
            from + first_nul(bytes@.skip(from as int)) == i + first_nul(bytes@.skip(i as int)),
        decreases bytes@.len() - i,
    {
        assert(bytes@.skip(i as int).skip(1) =~= bytes@.skip(i + 1));
        i += 1;
    }
    i
}

fn text_between(bytes: &Vec<u8>, from: usize, to: usize) -> (r: Option<String>)
    requires
        from <= to <= bytes@.len(),
    ensures
        opt_text(r) == nonempty_text(bytes@.subrange(from as int, to as int)),
{
    let mut part: Vec<u8> = Vec::new();
    for i in from..to
        invariant
            from <= to <= bytes@.len(),
            part@ == bytes@.subrange(from as int, i as int),
    {
        part.push(bytes[i]);
        assert(part@ =~= bytes@.subrange(from as int, i + 1));
    }
    if part.len() == 0 {
        None
    } else {
        Some(from_utf8_lossy(&part))
    }
}

/// Reads a `WM_CLASS` property: the instance, then the class; nothing where the
/// property could not be read.
pub fn wm_class(value: &Option<Vec<u8>>) -> (r: (Option<String>, Option<String>))
    ensures
        (opt_text(r.0), opt_text(r.1)) == match *value {
            Some(value) => class_parts(value@),
            None => (None, None),
        },
{
    let bytes = match value {
        Some(bytes) => bytes,
        None => return (None, None),
    };
    let first = find_nul(bytes, 0);
    assert(bytes@.skip(0) =~= bytes@);
    assert(bytes@.subrange(0, first as int) =~= bytes@.take(first as int));
    let instance = text_between(bytes, 0, first);
    if first == bytes.len() {
        return (instance, None);
    }
    let second = find_nul(bytes, first + 1);
    let ghost rest = bytes@.skip(first + 1);
    assert(bytes@.subrange(first + 1, second as int) =~= rest.take(second - first - 1));
    let class = text_between(bytes, first + 1, second);
    (instance, class)
}

/// `s` without the NULs at its end.
pub open spec fn without_nuls(s: Seq<char>) -> Seq<char>
    decreases s.len(),
{
    if s.len() > 0 && s.last() == '\0' {
        without_nuls(s.drop_last())
    } else {
        s
    }
}

/// The text of a text property: its bytes without the NULs at the end, unless nothing
/// is left.
pub open spec fn property_text(value: Option<Seq<u8>>) -> Option<Seq<char>> {
    match value {
        Some(bytes) => if bytes.len() == 0 || without_nuls(lossy_text(bytes)).len() == 0 {
            None
        } else {
            Some(without_nuls(lossy_text(bytes)))
        },
        None => None,
    }
}

/// The bytes of an optional property value.
pub open spec fn opt_bytes(value: Option<Vec<u8>>) -> Option<Seq<u8>> {
    match value {
        Some(bytes) => Some(bytes@),
        None => None,
    }
}

/// Drops the NULs at the end of `s`.
pub fn trim_nuls(s: &str) -> (r: String)
    ensures
        r@ == without_nuls(s@),
{
    let v = chars_of(s);
    let mut end: usize = v.len();
    assert(v@.take(v@.len() as int) =~= v@);
    while end > 0 && v[end - 1] == '\0'
        invariant
            end <= v@.len(),
            without_nuls(v@.take(end as int)) == without_nuls(v@),
        decreases end,
    {
        assert(v@.take(end as int).drop_last() =~= v@.take(end - 1));
        end -= 1;
    }
    assert(v@.subrange(0, end as int) =~= v@.take(end as int));
    string_of(&v, 0, end)
}

/// Reads a text property.
pub fn get_text_property(value: &Option<Vec<u8>>) -> (r: Option<String>)
    ensures
        opt_text(r) == property_text(opt_bytes(*value)),
{
    let bytes = match value {
        Some(bytes) => bytes,
        None => return None,
    };
    if bytes.len() == 0 {
        return None;
    }
    let whole = from_utf8_lossy(bytes);
    let s = trim_nuls(whole.as_str());
    if s.as_str().is_empty() {
        None
    } else {
        Some(s)
    }
}

/// The title of a window: `_NET_WM_NAME` where it says something, else `WM_NAME`.
pub fn window_title(net_wm_name: &Option<Vec<u8>>, wm_name: &Option<Vec<u8>>) -> (r: Option<String>)
    ensures
        opt_text(r) == (if property_text(opt_bytes(*net_wm_name)) is Some {
            property_text(opt_bytes(*net_wm_name))
        } else {
            property_text(opt_bytes(*wm_name))
        }),
{
    match get_text_property(net_wm_name) {
        Some(s) => Some(s),
        None => get_text_property(wm_name),
    }
}

/// The descriptor of a window, from its properties.
pub fn describe_window(
    class_value: &Option<Vec<u8>>,
    net_wm_name: &Option<Vec<u8>>,
    wm_name: &Option<Vec<u8>>,
) -> (r: WindowDescriptor)
    ensures
        (r@.instance, r@.class) == match *class_value {
            Some(value) => class_parts(value@),
            None => (None, None),
        },
        r@.title == (if property_text(opt_bytes(*net_wm_name)) is Some {
            property_text(opt_bytes(*net_wm_name))
        } else {
            property_text(opt_bytes(*wm_name))
        }),
{
    let (instance, class) = wm_class(class_value);
    WindowDescriptor { class, instance, title: window_title(net_wm_name, wm_name) }
}

// --- finding a window again --------------------------------------------------------

/// How well a window fits a saved descriptor: not at all unless the class is the same;
/// the title and then the instance break ties.
pub open spec fn fit(d: Descriptor, saved: Descriptor) -> int {
    if d.class is Some && saved.class is Some && d.class == saved.class {
        2 + (if saved.title is Some && d.title == saved.title {
            2int
        } else {
            0
        }) + (if saved.instance is Some && d.instance == saved.instance {
            1int
        } else {
            0
        })
    } else {
        0
    }
}

fn same_text(a: &Option<String>, b: &Option<String>) -> (r: bool)
    ensures
        r == (a is Some && b is Some && opt_text(*a) == opt_text(*b)),
{
    match (a, b) {
        (Some(a), Some(b)) => same(a.as_str(), b.as_str()),
        _ => false,
    }
}

fn fit_of(d: &WindowDescriptor, saved: &WindowDescriptor) -> (r: u32)
    ensures
        r == fit(d@, saved@),
{
    if !same_text(&d.class, &saved.class) {
        return 0;
    }
    let mut score: u32 = 2;
    if same_text(&saved.title, &d.title) {
        score += 2;
    }
    if same_text(&saved.instance, &d.instance) {
        score += 1;
    }
    score
}

/// Whether the window at `i` is the one to re-attach to: it fits, none fits better, and
/// none before it fits as well.
pub open spec fn is_best(candidates: Seq<(u32, WindowDescriptor)>, saved: Descriptor, i: int) -> bool {
    &&& 0 <= i < candidates.len()
    &&& fit(candidates[i].1@, saved) > 0
    &&& forall|j: int|
        0 <= j < candidates.len() ==> fit((#[trigger] candidates[j]).1@, saved) <= fit(
            candidates[i].1@,
            saved,
        )
    &&& forall|j: int|
        0 <= j < i ==> fit((#[trigger] candidates[j]).1@, saved) < fit(candidates[i].1@, saved)
}

/// Finds the window that a saved descriptor describes, among windows and their
/// descriptors.
pub fn find_window(candidates: &Vec<(u32, WindowDescriptor)>, saved: &WindowDescriptor) -> (r: Option<
    u32,
>)
    ensures
        match r {
            Some(w) => exists|i: int|
                #[trigger] is_best(candidates@, saved@, i) && candidates@[i].0 == w,
            None => forall|j: int|
                0 <= j < candidates@.len() ==> fit((#[trigger] candidates@[j]).1@, saved@) == 0,
        },
{
    let mut best_score: u32 = 0;
    let mut best: usize = 0;
    for i in 0..candidates.len()
        invariant
            forall|j: int|
                0 <= j < i ==> fit((#[trigger] candidates@[j]).1@, saved@) <= best_score,
            best_score > 0 ==> best < i && fit(candidates@[best as int].1@, saved@) == best_score,
            best_score > 0 ==> forall|j: int|
                0 <= j < best ==> fit((#[trigger] candidates@[j]).1@, saved@) < best_score,
    {
        let score = fit_of(&candidates[i].1, saved);
        if score > best_score {
            best_score = score;
            best = i;
        }
    }
    if best_score == 0 {
        assert forall|j: int| 0 <= j < candidates@.len() implies fit(
            (#[trigger] candidates@[j]).1@,
            saved@,
        ) == 0 by {
            assert(fit(candidates@[j].1@, saved@) <= best_score);
        }
        None
    } else {
        assert(is_best(candidates@, saved@, best as int));
        Some(candidates[best].0)
    }
}

// --- the file that remembers a window ----------------------------------------------

/// `c`, or a space for a line end.
pub open spec fn fold_char(c: char) -> char {
    if c == '\n' || c == '\r' {
        ' '
    } else {
        c
    }
}

/// `s` on one line: line ends become spaces.
pub open spec fn folded(s: Seq<char>) -> Seq<char> {
    s.map_values(|c: char| fold_char(c))
}

/// An optional text on one line.
pub open spec fn opt_folded(s: Option<Seq<char>>) -> Option<Seq<char>> {
    match s {
        Some(s) => Some(folded(s)),
        None => None,
    }
}

/// The line `key=value`, or nothing without a value.
pub open spec fn field_line(key: Seq<char>, value: Option<Seq<char>>) -> Seq<char> {
    match value {
        Some(value) => key + "="@ + folded(value) + "\n"@,
        None => Seq::empty(),
    }
}

/// A descriptor as lines `key=value`.
pub open spec fn descriptor_text(d: Descriptor) -> Seq<char> {
    field_line("class"@, d.class) + (field_line("instance"@, d.instance) + field_line(
        "title"@,
        d.title,
    ))
}

/// `d` with what one line says: only the first `=` splits it, white space around the key
/// is ignored, and so are unknown keys and lines without `=`.
pub open spec fn with_line(d: Descriptor, line: Seq<char>) -> Descriptor {
    let i = first_at(line, '=');
    let key = trimmed(line.take(i));
    let value = line.skip(i + 1);
    if i >= line.len() {
        d
    } else if key == "class"@ {
        Descriptor { class: Some(value), ..d }
    } else if key == "instance"@ {
        Descriptor { instance: Some(value), ..d }
    } else if key == "title"@ {
        Descriptor { title: Some(value), ..d }
    } else {
        d
    }
}

/// `d` with what all lines say, in order.
pub open spec fn with_lines(d: Descriptor, ls: Seq<Seq<char>>) -> Descriptor
    decreases ls.len(),
{
    if ls.len() == 0 {
        d
    } else {
        with_lines(with_line(d, ls[0]), ls.skip(1))
    }
}

/// The descriptor in a text, unless it says nothing.
pub open spec fn descriptor_in(text: Seq<char>) -> Option<Descriptor> {
    let d = with_lines(Descriptor::empty(), lines_of(text));
    if d == Descriptor::empty() {
        None
    } else {
        Some(d)
    }
}

fn fold(s: &str) -> (r: String)
    ensures
        r@ == folded(s@),
{
    let mut r = String::new();
    for c in it: s.chars()
        invariant
            it.seq() == s@,
            r@ == folded(s@.take(it.index())),
    {
        let f = if c == '\n' || c == '\r' {
            ' '
        } else {
            c
        };
        r.push(f);
        assert(r@ =~= folded(s@.take(it.index() + 1)));
    }
    assert(s@.take(s@.len() as int) =~= s@);
    r
}

fn push_field(out: &mut String, key: &str, value: &Option<String>)
    ensures
        final(out)@ == old(out)@ + field_line(key@, opt_text(*value)),
{
    match value {
        Some(value) => {
            let clean = fold(value.as_str());
            out.append(key);
            out.append("=");
            out.append(clean.as_str());
            out.append("\n");
            assert(out@ =~= old(out)@ + field_line(key@, Some(value@)));
        },
        None => {
            assert(out@ =~= old(out)@ + Seq::<char>::empty());
        },
    }
}

/// Writes a descriptor as lines `key=value`. A value is on one line, so line ends in it
/// become spaces.
pub fn format_descriptor(desc: &WindowDescriptor) -> (r: String)
    ensures
        r@ == descriptor_text(desc@),
{
    let mut out = String::new();
    push_field(&mut out, "class", &desc.class);
    push_field(&mut out, "instance", &desc.instance);
    push_field(&mut out, "title", &desc.title);
    assert(out@ =~= descriptor_text(desc@));
    out
}

/// Reads lines `key=value` back into a descriptor; nothing where no line says anything.
pub fn parse_descriptor(text: &str) -> (r: Option<WindowDescriptor>)
    ensures
        match r {
            Some(d) => descriptor_in(text@) == Some(d@),
            None => descriptor_in(text@) is None,
        },
{
    let ls = lines(text);
    let mut desc = WindowDescriptor { class: None, instance: None, title: None };
    let mut i: usize = 0;
    assert(texts(ls@).skip(0) =~= texts(ls@));
    while i < ls.len()
        invariant
            i <= ls@.len(),
            texts(ls@) == lines_of(text@),
            with_lines(desc@, texts(ls@).skip(i as int)) == with_lines(
                Descriptor::empty(),
                lines_of(text@),
            ),
        decreases ls@.len() - i,
    {
        let ghost rest = texts(ls@).skip(i as int);
        let ghost before = desc@;
        assert(rest[0] == ls@[i as int]@);
        assert(rest.skip(1) =~= texts(ls@).skip(i + 1));
        let line = chars_of(ls[i].as_str());
        i += 1;
        let at = find_from(&line, 0, '=');
        assert(line@.skip(0) =~= line@);
        if at == line.len() {
            continue;
        }
        let raw_key = string_of(&line, 0, at);
        assert(raw_key@ =~= line@.take(at as int));
        let key = trim(raw_key.as_str());
        let value = string_of(&line, at + 1, line.len());
        assert(value@ =~= line@.skip(at + 1));
        if same(key.as_str(), "class") {
            desc.class = Some(value);
        } else if same(key.as_str(), "instance") {
            desc.instance = Some(value);
        } else if same(key.as_str(), "title") {
            desc.title = Some(value);
        }
        assert(desc@ == with_line(before, line@));
    }
    assert(texts(ls@).skip(i as int) =~= Seq::empty());
    if desc.class.is_none() && desc.instance.is_none() && desc.title.is_none() {
        assert(desc@ == Descriptor::empty());
        None
    } else {
        Some(desc)
    }
}

// --- laws --------------------------------------------------------------------------

/// A line without line ends in it is cut off as it is.
proof fn lemma_first_line(a: Seq<char>, rest: Seq<char>)
    requires
        forall|i: int| 0 <= i < a.len() ==> a[i] != '\n' && a[i] != '\r',
    ensures
        lines_of(a.push('\n') + rest) == seq![a] + lines_of(rest),
{
    let s = a.push('\n') + rest;
    assert(s[a.len() as int] == '\n');
    assert forall|j: int| 0 <= j < a.len() implies s[j] != '\n' by {
        assert(s[j] == a[j]);
    }
    lemma_first_at_is(s, '\n', a.len() as int);
    assert(s.take(a.len() as int) =~= a);
    assert(s.skip(a.len() as int + 1) =~= rest);
    assert(without_cr(a) == a);
}

/// Reading a written field puts the value, on one line, in its place and goes on with
/// the rest.
proof fn lemma_field_reads_back(d: Descriptor, key: Seq<char>, value: Seq<char>, rest: Seq<char>)
    requires
        key == "class"@ || key == "instance"@ || key == "title"@,
    ensures
        ({
            let read = with_lines(d, lines_of(field_line(key, Some(value)) + rest));
            read == with_lines(
                if key == "class"@ {
                    Descriptor { class: Some(folded(value)), ..d }
                } else if key == "instance"@ {
                    Descriptor { instance: Some(folded(value)), ..d }
                } else {
                    Descriptor { title: Some(folded(value)), ..d }
                },
                lines_of(rest),
            )
        }),
{
    reveal_strlit("class");
    reveal_strlit("instance");
    reveal_strlit("title");
    reveal_strlit("=");
    reveal_strlit("\n");
    let line = key + "="@ + folded(value);
    let n = key.len() as int;
    assert(line[n] == '=');
    assert forall|i: int| 0 <= i < line.len() implies line[i] != '\n' && line[i] != '\r' by {
        if i < n {
            assert(line[i] == key[i]);
        } else if i > n {
            assert(line[i] == fold_char(value[i - n - 1]));
        }
    }
    assert(field_line(key, Some(value)) + rest =~= line.push('\n') + rest);
    lemma_first_line(line, rest);
    let ls = seq![line] + lines_of(rest);
    assert(ls.skip(1) =~= lines_of(rest));
    assert forall|j: int| 0 <= j < n implies line[j] != '=' by {
        assert(line[j] == key[j]);
    }
    lemma_first_at_is(line, '=', n);
    assert(line.take(n) =~= key);
    assert(line.skip(n + 1) =~= folded(value));
    assert(trimmed(key) == key);
}

/// What is written of a descriptor reads back as the same descriptor with its values on
/// one line each; a descriptor that says nothing reads back as nothing.
pub proof fn law_descriptor_reads_back(d: Descriptor)
    ensures
        ({
            let clean = Descriptor {
                class: opt_folded(d.class),
                instance: opt_folded(d.instance),
                title: opt_folded(d.title),
            };
            descriptor_in(descriptor_text(d)) == (if d == Descriptor::empty() {
                None
            } else {
                Some(clean)
            })
        }),
{
    reveal_strlit("class");
    reveal_strlit("instance");
    reveal_strlit("title");
    let t3 = field_line("title"@, d.title);
    let t2 = field_line("instance"@, d.instance) + t3;
    let t1 = field_line("class"@, d.class) + t2;
    assert(t1 == descriptor_text(d));
    let d0 = Descriptor::empty();
    let d1 = Descriptor { class: opt_folded(d.class), ..d0 };
    let d2 = Descriptor { instance: opt_folded(d.instance), ..d1 };
    if d.class is Some {
        lemma_field_reads_back(d0, "class"@, d.class->0, t2);
    } else {
        assert(t1 =~= t2);
    }
    assert(with_lines(d0, lines_of(t1)) == with_lines(d1, lines_of(t2)));
    if d.instance is Some {
        lemma_field_reads_back(d1, "instance"@, d.instance->0, t3);
    } else {
        assert(t2 =~= t3);
    }
    assert(with_lines(d1, lines_of(t2)) == with_lines(d2, lines_of(t3)));
    if d.title is Some {
        lemma_field_reads_back(d2, "title"@, d.title->0, Seq::empty());
        assert(t3 + Seq::<char>::empty() =~= t3);
    }
}

/// A text without line ends is on one line already.
pub proof fn law_single_line_is_kept(s: Seq<char>)
    requires
        forall|i: int| 0 <= i < s.len() ==> s[i] != '\n' && s[i] != '\r',
    ensures
        folded(s) == s,
{
    assert(folded(s) =~= s);
}

/// Whether a text, if there is one, is on one line.
pub open spec fn on_one_line(s: Option<Seq<char>>) -> bool {
    s is Some ==> forall|i: int| 0 <= i < s->0.len() ==> s->0[i] != '\n' && s->0[i] != '\r'
}

/// A window that was remembered is found again: where it is still among the windows, the
/// one that is chosen has the same class and, as far as they were known, the same title
/// and instance.
pub proof fn law_remembered_window_is_found_again(
    candidates: Seq<(u32, WindowDescriptor)>,
    window: int,
    best: int,
)
    requires
        0 <= window < candidates.len(),
        candidates[window].1@.class is Some,
        on_one_line(candidates[window].1@.class),
        on_one_line(candidates[window].1@.instance),
        on_one_line(candidates[window].1@.title),
    ensures
        ({
            let d = candidates[window].1@;
            let saved = descriptor_in(descriptor_text(d));
            &&& saved == Some(d)
            &&& fit(d, d) > 0
            &&& is_best(candidates, d, best) ==> {
                let found = candidates[best].1@;
                &&& found.class == d.class
                &&& d.title is Some ==> found.title == d.title
                &&& d.instance is Some ==> found.instance == d.instance
            }
        }),
{
    let d = candidates[window].1@;
    law_descriptor_reads_back(d);
    law_single_line_is_kept(d.class->0);
    if d.instance is Some {
        law_single_line_is_kept(d.instance->0);
    }
    if d.title is Some {
        law_single_line_is_kept(d.title->0);
    }
    if is_best(candidates, d, best) {
        assert(fit(candidates[window].1@, d) <= fit(candidates[best].1@, d));
    }
}

/// Whether two texts are both known and the same.
pub open spec fn known_and_same(a: Option<String>, b: Option<String>) -> bool {
    a is Some && b is Some && a->0@ == b->0@
}

/// A window is found exactly where one of the saved class is there, whatever its title and
/// its instance. Of those, one with the saved title comes before all without it; where
/// that does not decide, one with the saved instance comes first, and then the first.
pub proof fn law_window_is_found_by_its_class(
    candidates: Vec<(u32, WindowDescriptor)>,
    saved: WindowDescriptor,
    r: Option<u32>,
)
    requires
        call_ensures(find_window, (&candidates, &saved), r),
    ensures
        r is Some <==> exists|j: int|
            0 <= j < candidates@.len() && known_and_same(
                (#[trigger] candidates@[j]).1.class,
                saved.class,
            ),
        r matches Some(w) ==> exists|i: int|
            {
                let title = known_and_same(candidates@[i].1.title, saved.title);
                let instance = known_and_same(candidates@[i].1.instance, saved.instance);
                &&& 0 <= i < candidates@.len()
                &&& (#[trigger] candidates@[i]).0 == w
                &&& known_and_same(candidates@[i].1.class, saved.class)
                &&& forall|j: int|
                    0 <= j < candidates@.len() && known_and_same(
                        (#[trigger] candidates@[j]).1.class,
                        saved.class,
                    ) ==> {
                        let other = known_and_same(candidates@[j].1.title, saved.title);
                        let second = known_and_same(candidates@[j].1.instance, saved.instance);
                        &&& other ==> title
                        &&& other == title && second ==> instance
                        &&& j < i ==> other != title || second != instance
                    }
            },
{
    let c = candidates@;
    assert forall|j: int| 0 <= j < c.len() implies (fit((#[trigger] c[j]).1@, saved@) > 0
        <==> known_and_same(c[j].1.class, saved.class)) by {}
    match r {
        Some(w) => {
            let i = choose|i: int| #[trigger] is_best(c, saved@, i) && c[i].0 == w;
            let title = known_and_same(c[i].1.title, saved.title);
            let instance = known_and_same(c[i].1.instance, saved.instance);
            assert(known_and_same(c[i].1.class, saved.class));
            assert forall|j: int|
                0 <= j < c.len() && known_and_same(
                    (#[trigger] c[j]).1.class,
                    saved.class,
                ) implies ({
                let other = known_and_same(c[j].1.title, saved.title);
                let second = known_and_same(c[j].1.instance, saved.instance);
                &&& other ==> title
                &&& other == title && second ==> instance
                &&& j < i ==> other != title || second != instance
            }) by {
                assert(fit(c[j].1@, saved@) <= fit(c[i].1@, saved@));
                if j < i {
                    assert(fit(c[j].1@, saved@) < fit(c[i].1@, saved@));
                }
            }
            assert(c[i].0 == w);
        },
        None => {
            assert forall|j: int| 0 <= j < c.len() implies !known_and_same(
                (#[trigger] c[j]).1.class,
                saved.class,
            ) by {
                assert(fit(c[j].1@, saved@) == 0);
            }
        },
    }
}

proof fn lemma_first_nul_is(bytes: Seq<u8>, i: int)
    requires
        0 <= i <= bytes.len(),
        i < bytes.len() ==> bytes[i] == 0,
        forall|j: int| 0 <= j < i ==> bytes[j] != 0,
    ensures
        first_nul(bytes) == i,
    decreases bytes.len(),
{
    if i > 0 {
        assert(bytes[0] != 0);
        assert forall|j: int| 0 <= j < i - 1 implies bytes.skip(1)[j] != 0 by {
            assert(bytes[j + 1] != 0);
        }
        lemma_first_nul_is(bytes.skip(1), i - 1);
    }
}

/// A `WM_CLASS` property is the instance, a NUL, the class and a NUL; what follows is
/// ignored, the last NUL may be missing, and a part without bytes is not known. Without any
/// NUL all of it is the instance.
pub proof fn law_class_property(
    instance: Seq<u8>,
    class: Seq<u8>,
    rest: Seq<u8>,
    value: Vec<u8>,
    r: (Option<String>, Option<String>),
    none: (Option<String>, Option<String>),
    bare: Vec<u8>,
    s: (Option<String>, Option<String>),
)
    requires
        bare@ == instance,
        call_ensures(wm_class, (&Some(bare),), s),
        forall|i: int| 0 <= i < instance.len() ==> instance[i] != 0,
        forall|i: int| 0 <= i < class.len() ==> class[i] != 0,
        value@ == instance + seq![0u8] + class + seq![0u8] + rest || value@ == instance + seq![0u8]
            + class,
        call_ensures(wm_class, (&Some(value),), r),
        call_ensures(wm_class, (&None,), none),
    ensures
        instance.len() > 0 ==> (r.0 matches Some(s) && s@ == lossy_text(instance)),
        instance.len() == 0 ==> r.0 is None,
        class.len() > 0 ==> (r.1 matches Some(s) && s@ == lossy_text(class)),
        class.len() == 0 ==> r.1 is None,
        none.0 is None && none.1 is None,
        instance.len() > 0 ==> (s.0 matches Some(t) && t@ == lossy_text(instance)),
        instance.len() == 0 ==> s.0 is None,
        s.1 is None,
{
    lemma_first_nul_is(bare@, bare@.len() as int);
    assert(bare@.take(bare@.len() as int) =~= bare@);
    let v = value@;
    let n = instance.len() as int;
    assert(v[n] == 0);
    assert forall|j: int| 0 <= j < n implies v[j] != 0 by {
        assert(v[j] == instance[j]);
    }
    lemma_first_nul_is(v, n);
    assert(v.take(n) =~= instance);
    let tail = v.skip(n + 1);
    let m = class.len() as int;
    assert forall|j: int| 0 <= j < m implies tail[j] != 0 by {
        assert(tail[j] == class[j]);
    }
    if v == instance + seq![0u8] + class + seq![0u8] + rest {
        assert(tail[m] == 0);
    } else {
        assert(tail.len() == m);
    }
    lemma_first_nul_is(tail, m);
    assert(tail.take(m) =~= class);
}

proof fn lemma_without_nuls(s: Seq<char>) -> (n: int)
    ensures
        0 <= n <= s.len(),
        without_nuls(s) == s.take(n),
        forall|i: int| n <= i < s.len() ==> #[trigger] s[i] == '\0',
        n > 0 ==> s[n - 1] != '\0',
    decreases s.len(),
{
    if s.len() > 0 && s.last() == '\0' {
        let k = lemma_without_nuls(s.drop_last());
        assert(s.drop_last().take(k) =~= s.take(k));
        assert forall|i: int| k <= i < s.len() implies #[trigger] s[i] == '\0' by {
            if i < s.len() - 1 {
                assert(s.drop_last()[i] == s[i]);
            }
        }
        k
    } else {
        assert(s.take(s.len() as int) =~= s);
        s.len() as int
    }
}

/// Taking the NULs off the end of a text takes nothing else.
pub proof fn law_only_nuls_are_taken(s: &str, r: String)
    requires
        call_ensures(trim_nuls, (s,), r),
    ensures
        r@.len() <= s@.len(),
        r@ == s@.take(r@.len() as int),
        forall|i: int| r@.len() <= i < s@.len() ==> #[trigger] s@[i] == '\0',
        r@.len() > 0 ==> r@.last() != '\0',
{
    let n = lemma_without_nuls(s@);
}

/// A text property whose text ends with no NUL is that text, unless it is empty; NULs
/// behind it are ignored, and a property that is not there says nothing.
pub proof fn law_text_property(
    value: Vec<u8>,
    text: Seq<char>,
    nuls: Seq<char>,
    r: Option<String>,
    none: Option<String>,
)
    requires
        lossy_text(value@) == text + nuls,
        text.len() == 0 || text.last() != '\0',
        forall|i: int| 0 <= i < nuls.len() ==> #[trigger] nuls[i] == '\0',
        call_ensures(get_text_property, (&Some(value),), r),
        call_ensures(get_text_property, (&None,), none),
    ensures
        value@.len() > 0 && text.len() > 0 ==> (r matches Some(s) && s@ == text),
        value@.len() == 0 || text.len() == 0 ==> r is None,
        none is None,
{
    let all = text + nuls;
    let n = lemma_without_nuls(all);
    if n > text.len() {
        assert(all[n - 1] == nuls[n - 1 - text.len()]);
    }
    if n < text.len() {
        assert(all[text.len() - 1] == text.last());
        assert(all[text.len() - 1] == '\0');
    }
    assert(all.take(n) =~= text);
}

/// The title of a window is the newer property where that says something, and else the
/// older one; a descriptor has the class, the instance and the title of its window.
pub proof fn law_window_is_described(
    class: Option<Vec<u8>>,
    newer: Option<Vec<u8>>,
    older: Option<Vec<u8>>,
    parts: (Option<String>, Option<String>),
    first: Option<String>,
    second: Option<String>,
    title: Option<String>,
    d: WindowDescriptor,
)
    requires
        call_ensures(wm_class, (&class,), parts),
        call_ensures(get_text_property, (&newer,), first),
        call_ensures(get_text_property, (&older,), second),
        call_ensures(window_title, (&newer, &older), title),
        call_ensures(describe_window, (&class, &newer, &older), d),
    ensures
        first matches Some(s) ==> (title matches Some(t) && t@ == s@),
        first is None && second is Some ==> (title matches Some(t) && t@ == second->0@),
        first is None && second is None ==> title is None,
        title is Some <==> d.title is Some,
        title is Some ==> d.title->0@ == title->0@,
        parts.0 is Some <==> d.instance is Some,
        parts.0 is Some ==> d.instance->0@ == parts.0->0@,
        parts.1 is Some <==> d.class is Some,
        parts.1 is Some ==> d.class->0@ == parts.1->0@,
{
    assert(d@.instance == opt_text(d.instance));
    assert(d@.class == opt_text(d.class));
    assert(d@.title == opt_text(d.title));
}

/// A descriptor is written as the lines `class`, `instance` and `title`, each with its
/// value, which is on one line.
pub proof fn law_descriptor_lines(d: WindowDescriptor, r: String)
    requires
        call_ensures(format_descriptor, (&d,), r),
        d.class is Some && d.instance is Some && d.title is Some,
        forall|i: int| 0 <= i < d.class->0@.len() ==> d.class->0@[i] != '\n' && d.class->0@[i] != '\r',
        forall|i: int|
            0 <= i < d.instance->0@.len() ==> d.instance->0@[i] != '\n' && d.instance->0@[i] != '\r',
        forall|i: int| 0 <= i < d.title->0@.len() ==> d.title->0@[i] != '\n' && d.title->0@[i] != '\r',
    ensures
        r@ == "class="@ + d.class->0@ + "\n"@ + "instance="@ + d.instance->0@ + "\n"@ + "title="@
            + d.title->0@ + "\n"@,
{
    reveal_strlit("class");
    reveal_strlit("instance");
    reveal_strlit("title");
    reveal_strlit("=");
    reveal_strlit("\n");
    reveal_strlit("class=");
    reveal_strlit("instance=");
    reveal_strlit("title=");
    law_single_line_is_kept(d.class->0@);
    law_single_line_is_kept(d.instance->0@);
    law_single_line_is_kept(d.title->0@);
    assert("class"@ + "="@ =~= "class="@);
    assert("instance"@ + "="@ =~= "instance="@);
    assert("title"@ + "="@ =~= "title="@);
    assert(r@ =~= "class="@ + d.class->0@ + "\n"@ + "instance="@ + d.instance->0@ + "\n"@ + "title="@
        + d.title->0@ + "\n"@);
}

/// What is written of a descriptor is read back: the same fields are known, and each has
/// its text with every line end turned into a space. A descriptor that knows nothing is
/// read back as none.
pub proof fn law_written_descriptors_are_read(
    d: WindowDescriptor,
    text: String,
    s: &str,
    r: Option<WindowDescriptor>,
    k: int,
)
    requires
        call_ensures(format_descriptor, (&d,), text),
        s@ == text@,
        call_ensures(parse_descriptor, (s,), r),
    ensures
        r is None <==> d.class is None && d.instance is None && d.title is None,
        r matches Some(b) ==> {
            &&& b.class is Some <==> d.class is Some
            &&& b.instance is Some <==> d.instance is Some
            &&& b.title is Some <==> d.title is Some
            &&& d.class is Some ==> b.class->0@.len() == d.class->0@.len()
            &&& d.instance is Some ==> b.instance->0@.len() == d.instance->0@.len()
            &&& d.title is Some ==> b.title->0@.len() == d.title->0@.len()
            &&& d.class is Some && 0 <= k < d.class->0@.len() ==> b.class->0@[k] == (if
            d.class->0@[k] == '\n' || d.class->0@[k] == '\r' {
                ' '
            } else {
                d.class->0@[k]
            })
            &&& d.instance is Some && 0 <= k < d.instance->0@.len() ==> b.instance->0@[k] == (if
            d.instance->0@[k] == '\n' || d.instance->0@[k] == '\r' {
                ' '
            } else {
                d.instance->0@[k]
            })
            &&& d.title is Some && 0 <= k < d.title->0@.len() ==> b.title->0@[k] == (if
            d.title->0@[k] == '\n' || d.title->0@[k] == '\r' {
                ' '
            } else {
                d.title->0@[k]
            })
        },
{
    law_descriptor_reads_back(d@);
    assert(d@.class == opt_text(d.class));
    assert(d@.instance == opt_text(d.instance));
    assert(d@.title == opt_text(d.title));
    if r is Some {
        let b = r->0;
        assert(b@.class == opt_text(b.class));
        assert(b@.instance == opt_text(b.instance));
        assert(b@.title == opt_text(b.title));
    }
}

/// A line sets the field that its key names, in white space or not, to all that follows
/// the first equals sign. A line with another key, or without the sign, says nothing.
pub proof fn law_line_sets_its_field(d: Descriptor, key: Seq<char>, value: Seq<char>)
    requires
        forall|i: int| 0 <= i < key.len() ==> key[i] != '=',
    ensures
        ({
            let read = with_line(d, key + seq!['='] + value);
            &&& trimmed(key) == "class"@ ==> read.class == Some(value) && read.instance
                == d.instance && read.title == d.title
            &&& trimmed(key) == "instance"@ ==> read.instance == Some(value) && read.class
                == d.class && read.title == d.title
            &&& trimmed(key) == "title"@ ==> read.title == Some(value) && read.class == d.class
                && read.instance == d.instance
            &&& trimmed(key) != "class"@ && trimmed(key) != "instance"@ && trimmed(key)
                != "title"@ ==> read == d
        }),
        with_line(d, key) == d,
{
    reveal_strlit("class");
    reveal_strlit("instance");
    reveal_strlit("title");
    let line = key + seq!['='] + value;
    let n = key.len() as int;
    assert(line[n] == '=');
    assert forall|j: int| 0 <= j < n implies line[j] != '=' by {
        assert(line[j] == key[j]);
    }
    lemma_first_at_is(line, '=', n);
    assert(line.take(n) =~= key);
    assert(line.skip(n + 1) =~= value);
    lemma_first_at_is(key, '=', n);
    assert("class"@.len() != "instance"@.len());
    assert("title"@[0] == 't' && "class"@[0] == 'c');
}

/// A text is read line by line, and what no line says is not known.
pub proof fn law_descriptors_are_read_by_lines(
    d: Descriptor,
    line: Seq<char>,
    rest: Seq<Seq<char>>,
    s: &str,
    r: Option<WindowDescriptor>,
)
    requires
        call_ensures(parse_descriptor, (s,), r),
    ensures
        with_lines(d, seq![line] + rest) == with_lines(with_line(d, line), rest),
        with_lines(d, Seq::empty()) == d,
        ({
            let read = with_lines(
                Descriptor { class: None, instance: None, title: None },
                lines_of(s@),
            );
            &&& r is None <==> read.class is None && read.instance is None && read.title is None
            &&& r matches Some(b) ==> {
                &&& read.class is Some <==> b.class is Some
                &&& read.class is Some ==> read.class->0 == b.class->0@
                &&& read.instance is Some <==> b.instance is Some
                &&& read.instance is Some ==> read.instance->0 == b.instance->0@
                &&& read.title is Some <==> b.title is Some
                &&& read.title is Some ==> read.title->0 == b.title->0@
            }
        }),
{
    assert((seq![line] + rest).skip(1) =~= rest);
    if r is Some {
        let b = r->0;
        assert(b@.class == opt_text(b.class));
        assert(b@.instance == opt_text(b.instance));
        assert(b@.title == opt_text(b.title));
    }
}

} // verus!
