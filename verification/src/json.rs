//! The canonical JSON of flat records: compact, with strings escaped the one way
//! that a canonical document allows, so that a record and its text determine each
//! other.
use vstd::prelude::*;

use crate::digest;
use crate::text;
use crate::text::{chars_of, text_of_range};

verus! {

/// A lower-case hexadecimal digit of a number below sixteen.
pub open spec fn nibble_char(d: int) -> char {
    digest::hex_digit(d)
}

/// A character as it stands inside a canonical JSON string.
pub open spec fn escaped_char(c: char) -> Seq<char> {
    if c == '"' {
        seq!['\\', '"']
    } else if c == '\\' {
        seq!['\\', '\\']
    } else if c == '\u{8}' {
        seq!['\\', 'b']
    } else if c == '\u{c}' {
        seq!['\\', 'f']
    } else if c == '\n' {
        seq!['\\', 'n']
    } else if c == '\r' {
        seq!['\\', 'r']
    } else if c == '\t' {
        seq!['\\', 't']
    } else if '\u{0}' <= c && c <= '\u{1f}' {
        seq!['\\', 'u', '0', '0', nibble_char(c as int / 16), nibble_char(c as int % 16)]
    } else {
        seq![c]
    }
}

/// A text as it stands between the quotes of a canonical JSON string.
pub open spec fn escaped(s: Seq<char>) -> Seq<char>
    decreases s.len(),
{
    if s.len() == 0 {
        Seq::empty()
    } else {
        escaped_char(s[0]) + escaped(s.drop_first())
    }
}

/// A text as a canonical JSON string.
pub open spec fn quoted(s: Seq<char>) -> Seq<char> {
    seq!['"'] + escaped(s) + seq!['"']
}

/// What one escaped character at the front of a text stands for, and its length;
/// none at the end of the text, at a quote, and where no character is escaped so.
pub open spec fn first_escaped(t: Seq<char>) -> Option<(char, int)> {
    if t.len() == 0 || t[0] == '"' {
        None
    } else if t[0] != '\\' {
        if '\u{0}' <= t[0] && t[0] <= '\u{1f}' {
            None
        } else {
            Some((t[0], 1))
        }
    } else if t.len() < 2 {
        None
    } else if t[1] == '"' {
        Some(('"', 2))
    } else if t[1] == '\\' {
        Some(('\\', 2))
    } else if t[1] == 'b' {
        Some(('\u{8}', 2))
    } else if t[1] == 'f' {
        Some(('\u{c}', 2))
    } else if t[1] == 'n' {
        Some(('\n', 2))
    } else if t[1] == 'r' {
        Some(('\r', 2))
    } else if t[1] == 't' {
        Some(('\t', 2))
    } else if t[1] == 'u' && t.len() >= 6 && t[2] == '0' && t[3] == '0' && (t[4] == '0' || t[4]
        == '1') && long_escape(t[4], t[5]) is Some {
        Some((long_escape(t[4], t[5])->0, 6))
    } else {
        None
    }
}

/// The control character that two digits stand for; none for those that have a
/// short escape.
pub open spec fn long_escape(hi: char, lo: char) -> Option<char> {
    let low: Option<int> = if '0' <= lo && lo <= '9' {
        Some(lo as int - '0' as int)
    } else if 'a' <= lo && lo <= 'f' {
        Some(lo as int - 'a' as int + 10)
    } else {
        None
    };
    if low is None {
        None
    } else {
        let n = low->0 + (if hi == '1' {
            16int
        } else {
            0
        });
        if n == 8 || n == 9 || n == 10 || n == 12 || n == 13 {
            None
        } else {
            Some(n as char)
        }
    }
}

proof fn lemma_first_escaped_sound(t: Seq<char>)
    ensures
        first_escaped(t) matches Some((c, n)) ==> 1 <= n <= t.len() && t.take(n) == escaped_char(c),
{
    if let Some((c, n)) = first_escaped(t) {
        assert(t.take(n) =~= escaped_char(c));
    }
}

proof fn lemma_first_escaped_complete(t: Seq<char>, c: char)
    requires
        escaped_char(c).len() <= t.len(),
        t.take(escaped_char(c).len() as int) == escaped_char(c),
    ensures
        first_escaped(t) == Some((c, escaped_char(c).len() as int)),
{
    let e = escaped_char(c);
    assert forall|i: int| 0 <= i < e.len() implies t[i] == e[i] by {
        assert(t.take(e.len() as int)[i] == e[i]);
    }
    assert(t[0] == e[0]);
    if e.len() == 6 {
        assert(t[1] == e[1] && t[2] == e[2] && t[3] == e[3] && t[4] == e[4] && t[5] == e[5]);
        assert((c as int) / 16 == 0 || (c as int) / 16 == 1);
        assert(long_escape(t[4], t[5]) == Some(c));
    } else if e.len() == 2 {
        assert(t[1] == e[1]);
    }
}

/// The text of a JSON string whose opening quote has been read, and how far its
/// closing quote reaches.
pub open spec fn string_rest(t: Seq<char>) -> Option<(Seq<char>, int)>
    decreases t.len(),
{
    if t.len() > 0 && t[0] == '"' {
        Some((Seq::empty(), 1))
    } else {
        match first_escaped(t) {
            Some((c, n)) => if 1 <= n <= t.len() {
                match string_rest(t.skip(n)) {
                    Some((s, k)) => Some((seq![c] + s, n + k)),
                    None => None,
                }
            } else {
                None
            },
            None => None,
        }
    }
}

proof fn lemma_string_rest_sound(t: Seq<char>)
    ensures
        string_rest(t) matches Some((s, k)) ==> 1 <= k <= t.len() && t.take(k) == escaped(s)
            + seq!['"'],
    decreases t.len(),
{
    if t.len() > 0 && t[0] == '"' {
        assert(t.take(1) =~= escaped(Seq::empty()) + seq!['"']);
    } else {
        lemma_first_escaped_sound(t);
        if let Some((c, n)) = first_escaped(t) {
            lemma_string_rest_sound(t.skip(n));
            if let Some((s, k)) = string_rest(t.skip(n)) {
                let whole = seq![c] + s;
                assert(whole.drop_first() =~= s);
                assert(t.take(n + k) =~= t.take(n) + t.skip(n).take(k));
                assert(escaped(whole) == escaped_char(c) + escaped(s));
                assert(t.take(n + k) =~= escaped(whole) + seq!['"']);
            }
        }
    }
}

pub proof fn lemma_string_rest_complete(t: Seq<char>, s: Seq<char>)
    requires
        escaped(s).len() + 1 <= t.len(),
        t.take(escaped(s).len() as int + 1) == escaped(s) + seq!['"'],
    ensures
        string_rest(t) == Some((s, escaped(s).len() as int + 1)),
    decreases s.len(),
{
    let e = escaped(s);
    assert forall|i: int| 0 <= i <= e.len() implies t[i] == (e + seq!['"'])[i] by {
        assert(t.take(e.len() as int + 1)[i] == (e + seq!['"'])[i]);
    }
    if s.len() == 0 {
        assert(t[0] == '"');
        assert(s =~= Seq::empty());
    } else {
        let c = s[0];
        let rest = s.drop_first();
        let n = escaped_char(c).len() as int;
        assert(e == escaped_char(c) + escaped(rest));
        assert(t.take(n) =~= escaped_char(c)) by {
            assert forall|i: int| 0 <= i < n implies t[i] == escaped_char(c)[i] by {
                assert(e[i] == escaped_char(c)[i]);
            }
        }
        lemma_first_escaped_complete(t, c);
        assert(t[0] != '"') by {
            assert(t[0] == escaped_char(c)[0]);
        }
        assert(t.skip(n).take(escaped(rest).len() as int + 1) =~= escaped(rest) + seq!['"']) by {
            assert forall|i: int| 0 <= i <= escaped(rest).len() implies t.skip(n)[i] == (escaped(
                rest,
            ) + seq!['"'])[i] by {
                assert(t.skip(n)[i] == t[n + i]);
                assert((e + seq!['"'])[n + i] == (escaped(rest) + seq!['"'])[i]);
            }
        }
        lemma_string_rest_complete(t.skip(n), rest);
        assert(seq![c] + rest =~= s);
    }
}

/// A JSON string read: what it holds and where reading goes on.
fn read_string_rest(chars: &Vec<char>, from: usize) -> (r: Option<(String, usize)>)
    requires
        from <= chars@.len(),
    ensures
        match string_rest(chars@.skip(from as int)) {
            Some((s, k)) => r matches Some((got, next)) && got@ == s && next == from + k && next
                <= chars@.len(),
            None => r is None,
        },
{
    let ghost t = chars@.skip(from as int);
    let total: usize = chars.len();
    let mut out = String::new();
    let mut at: usize = from;
    proof {
        lemma_string_rest_sound(t);
        assert(chars@.skip(at as int) =~= t);
    }
    while at < chars.len() && chars[at] != '"'
        invariant
            from <= at <= chars@.len(),
            chars@.len() == total,
            t == chars@.skip(from as int),
            match string_rest(chars@.skip(at as int)) {
                Some((s, k)) => string_rest(t) == Some((out@ + s, at - from + k)),
                None => string_rest(t) is None,
            },
        ensures
            from <= at <= chars@.len(),
            chars@.len() == total,
            match string_rest(chars@.skip(at as int)) {
                Some((s, k)) => string_rest(t) == Some((out@ + s, at - from + k)),
                None => string_rest(t) is None,
            },
            at < chars@.len() ==> chars@[at as int] == '"',
        decreases chars@.len() - at,
    {
        let ghost here = chars@.skip(at as int);
        let found = read_escaped(chars, at);
        match found {
            None => {
                return None;
            },
            Some((c, n)) => {
                let ghost before = out@;
                out.push(c);
                proof {
                    lemma_first_escaped_sound(here);
                    assert(here.skip(n as int) =~= chars@.skip(at + n));
                    if let Some((s, k)) = string_rest(chars@.skip(at + n)) {
                        assert(before + (seq![c] + s) =~= before.push(c) + s);
                    }
                }
                at = at + n;
            },
        }
    }
    if at < chars.len() {
        assert(chars@.skip(at as int)[0] == '"');
        assert(out@ + Seq::<char>::empty() =~= out@);
        Some((out, at + 1))
    } else {
        assert(chars@.skip(at as int).len() == 0);
        None
    }
}

fn read_escaped(chars: &Vec<char>, at: usize) -> (r: Option<(char, usize)>)
    requires
        at < chars@.len(),
    ensures
        match first_escaped(chars@.skip(at as int)) {
            Some((c, n)) => r == Some((c, n as usize)) && n <= chars@.len() - at,
            None => r is None,
        },
{
    let ghost t = chars@.skip(at as int);
    proof {
        lemma_first_escaped_sound(t);
        assert(t[0] == chars@[at as int]);
    }
    let first: char = chars[at];
    if first == '"' {
        return None;
    }
    if first != '\\' {
        return if '\u{0}' <= first && first <= '\u{1f}' {
            None
        } else {
            Some((first, 1))
        };
    }
    let left: usize = chars.len() - at;
    if left < 2 {
        return None;
    }
    let kind: char = chars[at + 1];
    assert(t[1] == kind);
    if kind == '"' {
        Some(('"', 2))
    } else if kind == '\\' {
        Some(('\\', 2))
    } else if kind == 'b' {
        Some(('\u{8}', 2))
    } else if kind == 'f' {
        Some(('\u{c}', 2))
    } else if kind == 'n' {
        Some(('\n', 2))
    } else if kind == 'r' {
        Some(('\r', 2))
    } else if kind == 't' {
        Some(('\t', 2))
    } else if kind == 'u' && left >= 6 {
        assert(t[2] == chars@[at + 2] && t[3] == chars@[at + 3] && t[4] == chars@[at + 4] && t[5]
            == chars@[at + 5]);
        let hi: char = chars[at + 4];
        let lo: char = chars[at + 5];
        if chars[at + 2] != '0' || chars[at + 3] != '0' || (hi != '0' && hi != '1') {
            return None;
        }
        let low: u8 = if '0' <= lo && lo <= '9' {
            (lo as u8) - 48
        } else if 'a' <= lo && lo <= 'f' {
            (lo as u8) - 87
        } else {
            return None;
        };
        let n: u8 = low + (if hi == '1' {
            16u8
        } else {
            0u8
        });
        if n == 8 || n == 9 || n == 10 || n == 12 || n == 13 {
            None
        } else {
            Some((n as char, 6))
        }
    } else {
        None
    }
}

/// Calls `serde_json::to_string` on a text: the text in quotes, with a quote, a
/// backslash and each control character below the space escaped, by its short escape
/// where it has one and by its code otherwise, and every other character as it is.
#[verifier::external_body]
fn json_string(s: &str) -> (r: String)
    ensures
        r@ == quoted(s@),
{
    serde_json::to_string(s).unwrap()
}

/// Appends a text as it stands between the quotes of a JSON string.
pub fn append_escaped(out: &mut String, s: &str)
    ensures
        final(out)@ == old(out)@ + escaped(s@),
{
    let chars = chars_of(json_string(s).as_str());
    let inner = text_of_range(&chars, 1, chars.len() - 1);
    assert(inner@ =~= escaped(s@));
    out.append(inner.as_str());
}

/// Appends a text as a JSON string.
pub fn append_quoted(out: &mut String, s: &str)
    ensures
        final(out)@ == old(out)@ + quoted(s@),
{
    out.append(json_string(s).as_str());
}

/// The text of a flat record of strings. Each label runs from the end of the
/// previous value up to and including the opening quote of its own.
pub open spec fn record_text(labels: Seq<Seq<char>>, values: Seq<Seq<char>>) -> Seq<char>
    decreases labels.len(),
{
    if labels.len() == 0 {
        seq!['}']
    } else {
        labels[0] + escaped(values[0]) + seq!['"'] + record_text(
            labels.drop_first(),
            values.drop_first(),
        )
    }
}

/// Whether the text goes on with a label at a place.
fn goes_on_with(chars: &Vec<char>, at: usize, label: &str) -> (r: Option<usize>)
    requires
        at <= chars@.len(),
    ensures
        match r {
            Some(next) => next == at + label@.len() && next <= chars@.len() && chars@.subrange(
                at as int,
                next as int,
            ) == label@,
            None => !(at + label@.len() <= chars@.len() && chars@.subrange(
                at as int,
                at + label@.len(),
            ) == label@),
        },
{
    let piece = chars_of(label);
    if piece.len() > chars.len() - at {
        return None;
    }
    for i in 0..piece.len()
        invariant
            piece@ == label@,
            at + piece@.len() <= chars@.len() <= usize::MAX,
            forall|j: int| 0 <= j < i ==> chars@[at + j] == label@[j],
    {
        if chars[at + i] != piece[i] {
            assert(chars@.subrange(at as int, at + label@.len())[i as int] != label@[i as int]);
            return None;
        }
    }
    assert(chars@.subrange(at as int, at + label@.len()) =~= label@);
    Some(at + piece.len())
}

/// The labels of a list of string slices.
pub open spec fn label_texts(labels: Seq<&str>) -> Seq<Seq<char>> {
    Seq::new(labels.len(), |i: int| labels[i]@)
}

/// Writes a flat record of strings.
pub fn write_record(labels: &Vec<&str>, values: &Vec<String>) -> (r: String)
    requires
        labels@.len() == values@.len(),
    ensures
        r@ == record_text(label_texts(labels@), text::texts(values@)),
{
    let ghost names = label_texts(labels@);
    let ghost all = text::texts(values@);
    let mut out = String::new();
    proof {
        assert(names.skip(0) =~= names);
        assert(all.skip(0) =~= all);
        assert(out@ + record_text(names.skip(0), all.skip(0)) =~= record_text(names, all));
    }
    for i in 0..labels.len()
        invariant
            labels@.len() == values@.len(),
            names == label_texts(labels@),
            all == text::texts(values@),
            record_text(names, all) == out@ + record_text(names.skip(i as int), all.skip(i as int)),
    {
        let ghost before = out@;
        out.append(labels[i]);
        append_escaped(&mut out, values[i].as_str());
        out.push('"');
        proof {
            assert(names.skip(i as int)[0] == labels@[i as int]@);
            assert(all.skip(i as int)[0] == values@[i as int]@);
            assert(names.skip(i as int).drop_first() =~= names.skip(i + 1));
            assert(all.skip(i as int).drop_first() =~= all.skip(i + 1));
            assert(out@ + record_text(names.skip(i + 1), all.skip(i + 1)) =~= before + record_text(
                names.skip(i as int),
                all.skip(i as int),
            ));
        }
    }
    out.push('}');
    proof {
        let n = labels@.len() as int;
        assert(record_text(names.skip(n), all.skip(n)) =~= seq!['}']);
    }
    out
}

/// The values of a flat record of strings; none of a text that is not the
/// canonical text of such a record.
pub open spec fn parsed_record(t: Seq<char>, labels: Seq<Seq<char>>) -> Option<Seq<Seq<char>>>
    decreases labels.len(),
{
    if labels.len() == 0 {
        if t == seq!['}'] {
            Some(Seq::empty())
        } else {
            None
        }
    } else {
        let n = labels[0].len() as int;
        if n <= t.len() && t.take(n) == labels[0] {
            match string_rest(t.skip(n)) {
                Some((value, k)) => match parsed_record(t.skip(n + k), labels.drop_first()) {
                    Some(rest) => Some(seq![value] + rest),
                    None => None,
                },
                None => None,
            }
        } else {
            None
        }
    }
}

/// A text that reads as a record is that record's text.
pub proof fn lemma_parsed_record_sound(t: Seq<char>, labels: Seq<Seq<char>>)
    ensures
        parsed_record(t, labels) matches Some(values) ==> values.len() == labels.len()
            && record_text(labels, values) == t,
    decreases labels.len(),
{
    if labels.len() > 0 {
        let n = labels[0].len() as int;
        if n <= t.len() && t.take(n) == labels[0] {
            lemma_string_rest_sound(t.skip(n));
            if let Some((value, k)) = string_rest(t.skip(n)) {
                lemma_parsed_record_sound(t.skip(n + k), labels.drop_first());
                if let Some(rest) = parsed_record(t.skip(n + k), labels.drop_first()) {
                    let values = seq![value] + rest;
                    assert(values.drop_first() =~= rest);
                    assert(t =~= t.take(n) + t.skip(n).take(k) + t.skip(n + k));
                    assert(record_text(labels, values) =~= t);
                }
            }
        }
    }
}

/// A record's text reads as that record.
pub proof fn law_record_round_trip(labels: Seq<Seq<char>>, values: Seq<Seq<char>>)
    requires
        values.len() == labels.len(),
    ensures
        parsed_record(record_text(labels, values), labels) == Some(values),
    decreases labels.len(),
{
    let t = record_text(labels, values);
    if labels.len() == 0 {
        assert(values =~= Seq::empty());
    } else {
        let n = labels[0].len() as int;
        let e = escaped(values[0]);
        let tail = record_text(labels.drop_first(), values.drop_first());
        law_record_round_trip(labels.drop_first(), values.drop_first());
        assert(t.take(n) =~= labels[0]);
        assert(t.skip(n) =~= e + seq!['"'] + tail);
        assert(t.skip(n).take(e.len() as int + 1) =~= e + seq!['"']);
        lemma_string_rest_complete(t.skip(n), values[0]);
        assert(t.skip(n + (e.len() as int + 1)) =~= tail);
        assert(seq![values[0]] + values.drop_first() =~= values);
    }
}

/// Reads a flat record of strings. A text that is not the canonical text of such
/// a record is refused.
pub fn read_record(labels: &Vec<&str>, s: &str) -> (r: Option<Vec<String>>)
    ensures
        match parsed_record(s@, label_texts(labels@)) {
            Some(values) => r matches Some(got) && text::texts(got@) == values,
            None => r is None,
        },
{
    let chars = chars_of(s);
    let ghost names = label_texts(labels@);
    let mut out: Vec<String> = Vec::new();
    let mut at: usize = 0;
    let mut i: usize = 0;
    proof {
        assert(names.skip(0) =~= names);
        assert(s@.skip(0) =~= s@);
        if let Some(rest) = parsed_record(s@, names) {
            assert(text::texts(out@) + rest =~= rest);
        }
    }
    while i < labels.len()
        invariant
            names == label_texts(labels@),
            chars@ == s@,
            i <= labels@.len(),
            at <= chars@.len(),
            match parsed_record(s@.skip(at as int), names.skip(i as int)) {
                Some(rest) => parsed_record(s@, names) == Some(text::texts(out@) + rest),
                None => parsed_record(s@, names) is None,
            },
        decreases labels@.len() - i,
    {
        let label: &str = labels[i];
        let ghost here = s@.skip(at as int);
        let ghost n = label@.len() as int;
        proof {
            assert(names.skip(i as int)[0] == label@);
            assert(names.skip(i as int).drop_first() =~= names.skip(i + 1));
            if n <= here.len() {
                assert(here.take(n) =~= s@.subrange(at as int, at + n));
            }
        }
        let after_label = match goes_on_with(&chars, at, label) {
            Some(next) => next,
            None => {
                return None;
            },
        };
        proof {
            assert(here.skip(n) =~= s@.skip(after_label as int));
            lemma_string_rest_sound(here.skip(n));
        }
        match read_string_rest(&chars, after_label) {
            None => {
                return None;
            },
            Some((value, next)) => {
                let ghost before = text::texts(out@);
                let ghost read = value@;
                out.push(value);
                proof {
                    assert(text::texts(out@) =~= before.push(read));
                    assert(here.skip(n + (next - after_label)) =~= s@.skip(next as int));
                    if let Some(rest) = parsed_record(s@.skip(next as int), names.skip(i + 1)) {
                        assert(before + (seq![read] + rest) =~= text::texts(out@) + rest);
                    }
                }
                at = next;
                i = i + 1;
            },
        }
    }
    proof {
        assert(names.skip(i as int).len() == 0);
        assert(text::texts(out@) + Seq::<Seq<char>>::empty() =~= text::texts(out@));
    }
    if chars.len() - at == 1 && chars[at] == '}' {
        assert(s@.skip(at as int) =~= seq!['}']);
        Some(out)
    } else {
        proof {
            if s@.skip(at as int) == seq!['}'] {
                assert(s@.skip(at as int)[0] == chars@[at as int]);
                assert(s@.skip(at as int).len() == 1);
            }
        }
        None
    }
}

} // verus!
