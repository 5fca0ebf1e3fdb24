//! Text helpers: equality, ordering, blankness and decimal rendering of strings.
//!
//! A string is modelled by its sequence of characters. Ordering is the one of
//! `str`: lexicographic by Unicode scalar value.
use vstd::prelude::*;

verus! {

/// `a` sorts strictly before `b`.
pub open spec fn text_lt(a: Seq<char>, b: Seq<char>) -> bool
    decreases a.len(),
{
    if b.len() == 0 {
        false
    } else if a.len() == 0 {
        true
    } else if a[0] != b[0] {
        (a[0] as u32) < (b[0] as u32)
    } else {
        text_lt(a.drop_first(), b.drop_first())
    }
}

/// The order is irreflexive.
pub proof fn lemma_text_lt_irreflexive(a: Seq<char>)
    ensures
        !text_lt(a, a),
    decreases a.len(),
{
    if a.len() > 0 {
        lemma_text_lt_irreflexive(a.drop_first());
    }
}

/// The order is transitive.
pub proof fn lemma_text_lt_transitive(a: Seq<char>, b: Seq<char>, c: Seq<char>)
    requires
        text_lt(a, b),
        text_lt(b, c),
    ensures
        text_lt(a, c),
    decreases a.len(),
{
    if a.len() > 0 && b.len() > 0 && c.len() > 0 && a[0] == b[0] && b[0] == c[0] {
        lemma_text_lt_transitive(a.drop_first(), b.drop_first(), c.drop_first());
    }
}

/// Two different texts are ordered one way or the other.
pub proof fn lemma_text_lt_total(a: Seq<char>, b: Seq<char>)
    ensures
        text_lt(a, b) || a == b || text_lt(b, a),
    decreases a.len(),
{
    if a.len() > 0 && b.len() > 0 {
        vstd::utf8::char_u32_cast(a[0], a[0] as u32);
        vstd::utf8::char_u32_cast(b[0], b[0] as u32);
    }
    if a.len() > 0 && b.len() > 0 {
        if a[0] == b[0] {
            lemma_text_lt_total(a.drop_first(), b.drop_first());
            if a.drop_first() == b.drop_first() {
                assert(a =~= seq![a[0]] + a.drop_first());
                assert(b =~= seq![b[0]] + b.drop_first());
            }
        }
    } else {
        if a.len() == 0 && b.len() == 0 {
            assert(a =~= b);
        }
    }
}

/// Whether two texts hold the same characters.
pub fn text_eq(a: &str, b: &str) -> (r: bool)
    ensures
        r == (a@ == b@),
{
    let mut left = a.chars();
    let mut right = b.chars();
    let ghost mut done: int = 0;
    loop
        invariant
            0 <= done <= a@.len(),
            done <= b@.len(),
            vstd::std_specs::iter::IteratorSpec::remaining(&left) == a@.skip(done),
            vstd::std_specs::iter::IteratorSpec::remaining(&right) == b@.skip(done),
            vstd::std_specs::iter::IteratorSpec::obeys_prophetic_iter_laws(&left),
            vstd::std_specs::iter::IteratorSpec::obeys_prophetic_iter_laws(&right),
            forall|i: int| 0 <= i < done ==> a@[i] == b@[i],
        decreases a@.len() - done,
    {
        match (left.next(), right.next()) {
            (None, None) => {
                assert(a@ =~= b@);
                return true;
            },
            (Some(x), Some(y)) => {
                if x != y {
                    assert(a@[done] != b@[done]);
                    return false;
                }
                proof {
                    assert(a@.skip(done).drop_first() =~= a@.skip(done + 1));
                    assert(b@.skip(done).drop_first() =~= b@.skip(done + 1));
                    done = done + 1;
                }
            },
            (Some(_), None) => {
                return false;
            },
            (None, Some(_)) => {
                return false;
            },
        }
    }
}

/// Whether `a` sorts strictly before `b`.
pub fn text_less(a: &str, b: &str) -> (r: bool)
    ensures
        r == text_lt(a@, b@),
{
    let mut left = a.chars();
    let mut right = b.chars();
    let ghost mut done: int = 0;
    proof {
        assert(a@.skip(0) =~= a@);
        assert(b@.skip(0) =~= b@);
    }
    loop
        invariant
            0 <= done <= a@.len(),
            done <= b@.len(),
            vstd::std_specs::iter::IteratorSpec::remaining(&left) == a@.skip(done),
            vstd::std_specs::iter::IteratorSpec::remaining(&right) == b@.skip(done),
            vstd::std_specs::iter::IteratorSpec::obeys_prophetic_iter_laws(&left),
            vstd::std_specs::iter::IteratorSpec::obeys_prophetic_iter_laws(&right),
            text_lt(a@, b@) == text_lt(a@.skip(done), b@.skip(done)),
        decreases a@.len() - done,
    {
        match (left.next(), right.next()) {
            (_, None) => {
                return false;
            },
            (None, Some(_)) => {
                return true;
            },
            (Some(x), Some(y)) => {
                if x != y {
                    return (x as u32) < (y as u32);
                }
                proof {
                    assert(a@.skip(done).drop_first() =~= a@.skip(done + 1));
                    assert(b@.skip(done).drop_first() =~= b@.skip(done + 1));
                    done = done + 1;
                }
            },
        }
    }
}

/// The characters of a text, one per element.
pub fn chars_of(s: &str) -> (r: Vec<char>)
    ensures
        r@ == s@,
{
    let mut rest = s.chars();
    let mut out: Vec<char> = Vec::new();
    loop
        invariant
            out@.len() <= s@.len(),
            out@ == s@.take(out@.len() as int),
            vstd::std_specs::iter::IteratorSpec::remaining(&rest) == s@.skip(out@.len() as int),
            vstd::std_specs::iter::IteratorSpec::obeys_prophetic_iter_laws(&rest),
        decreases s@.len() - out@.len(),
    {
        match rest.next() {
            None => {
                assert(s@.take(out@.len() as int) =~= s@);
                return out;
            },
            Some(c) => {
                let ghost done: int = out@.len() as int;
                out.push(c);
                proof {
                    assert(s@.skip(done).drop_first() =~= s@.skip(done + 1));
                    assert(out@ =~= s@.take(done + 1));
                }
            },
        }
    }
}

/// The texts that a sequence of strings holds.
pub open spec fn texts(items: Seq<String>) -> Seq<Seq<char>> {
    Seq::new(items.len(), |i: int| items[i]@)
}

/// The text of an optional string.
pub open spec fn opt_text(value: Option<String>) -> Option<Seq<char>> {
    match value {
        Some(text) => Some(text@),
        None => None,
    }
}

/// Whether two optional strings hold the same text, or both none.
pub fn opt_text_eq(a: &Option<String>, b: &Option<String>) -> (r: bool)
    ensures
        r == (opt_text(*a) == opt_text(*b)),
{
    match (a, b) {
        (Some(x), Some(y)) => text_eq(x.as_str(), y.as_str()),
        (None, None) => true,
        _ => false,
    }
}

/// A copy of an optional string.
pub fn clone_opt_text(value: &Option<String>) -> (r: Option<String>)
    ensures
        opt_text(r) == opt_text(*value),
{
    match value {
        Some(text) => Some(text.clone()),
        None => None,
    }
}

/// A copy of a list of strings.
pub fn clone_texts(items: &Vec<String>) -> (r: Vec<String>)
    ensures
        texts(r@) == texts(items@),
{
    let mut out: Vec<String> = Vec::new();
    for i in 0..items.len()
        invariant
            out@.len() == i,
            forall|j: int| 0 <= j < i ==> out@[j]@ == items@[j]@,
    {
        out.push(items[i].clone());
    }
    assert(texts(out@) =~= texts(items@));
    out
}

/// Whether a list of strings holds a text.
pub fn has_text(items: &Vec<String>, text: &str) -> (r: bool)
    ensures
        r == texts(items@).contains(text@),
{
    for i in 0..items.len()
        invariant
            forall|j: int| 0 <= j < i ==> items@[j]@ != text@,
    {
        if text_eq(items[i].as_str(), text) {
            assert(texts(items@)[i as int] == text@);
            return true;
        }
    }
    proof {
        if texts(items@).contains(text@) {
            let k = choose|k: int| 0 <= k < texts(items@).len() && texts(items@)[k] == text@;
            assert(items@[k]@ == text@);
        }
    }
    false
}

/// Whether two lists of strings hold the same texts in the same order.
pub fn texts_eq(a: &Vec<String>, b: &Vec<String>) -> (r: bool)
    ensures
        r == (texts(a@) == texts(b@)),
{
    if a.len() != b.len() {
        assert(texts(a@).len() != texts(b@).len());
        return false;
    }
    for i in 0..a.len()
        invariant
            a@.len() == b@.len(),
            forall|j: int| 0 <= j < i ==> a@[j]@ == b@[j]@,
    {
        if !text_eq(a[i].as_str(), b[i].as_str()) {
            assert(texts(a@)[i as int] != texts(b@)[i as int]);
            return false;
        }
    }
    assert(texts(a@) =~= texts(b@));
    true
}

/// Whether a character has Unicode's `White_Space` property: the controls from tab to
/// carriage return and next line, the spaces, and the line and paragraph separators.
pub open spec fn unicode_white_space(c: char) -> bool {
    ||| '\u{9}' <= c && c <= '\u{d}'
    ||| c == ' '
    ||| c == '\u{85}'
    ||| c == '\u{a0}'
    ||| c == '\u{1680}'
    ||| '\u{2000}' <= c && c <= '\u{200a}'
    ||| c == '\u{2028}'
    ||| c == '\u{2029}'
    ||| c == '\u{202f}'
    ||| c == '\u{205f}'
    ||| c == '\u{3000}'
}

/// Calls `char::is_whitespace`: whether the character has Unicode's `White_Space`
/// property.
#[verifier::external_body]
fn char_is_white_space(c: char) -> (r: bool)
    ensures
        r == unicode_white_space(c),
{
    c.is_whitespace()
}

/// A text without a single character outside white space.
pub open spec fn blank(s: Seq<char>) -> bool {
    forall|i: int| 0 <= i < s.len() ==> unicode_white_space(s[i])
}

/// Whether trimming the text would leave nothing.
pub fn is_blank(s: &str) -> (r: bool)
    ensures
        r == blank(s@),
{
    let chars = chars_of(s);
    for i in 0..chars.len()
        invariant
            chars@ == s@,
            forall|j: int| 0 <= j < i ==> unicode_white_space(s@[j]),
    {
        if !char_is_white_space(chars[i]) {
            assert(!unicode_white_space(s@[i as int]));
            return false;
        }
    }
    true
}

/// A lower-case hexadecimal digit.
pub open spec fn lower_hex_char(c: char) -> bool {
    ('0' <= c && c <= '9') || ('a' <= c && c <= 'f')
}

/// Exactly 64 lower-case hexadecimal digits: the form of a SHA-256 digest.
pub open spec fn hex64(s: Seq<char>) -> bool {
    s.len() == 64 && forall|i: int| 0 <= i < s.len() ==> lower_hex_char(s[i])
}

/// Whether the text is 64 lower-case hexadecimal digits.
pub fn is_hex64_text(s: &str) -> (r: bool)
    ensures
        r == hex64(s@),
{
    let chars = chars_of(s);
    if chars.len() != 64 {
        return false;
    }
    for i in 0..chars.len()
        invariant
            chars@ == s@,
            forall|j: int| 0 <= j < i ==> lower_hex_char(s@[j]),
    {
        let c: char = chars[i];
        if !(('0' <= c && c <= '9') || ('a' <= c && c <= 'f')) {
            assert(!lower_hex_char(s@[i as int]));
            return false;
        }
    }
    true
}

/// The decimal digit of a number below ten.
pub open spec fn digit_char(d: int) -> char {
    (('0' as int) + d) as char
}

/// The decimal numeral of a natural number, without leading zeros.
pub open spec fn decimal(n: nat) -> Seq<char>
    decreases n,
{
    if n < 10 {
        seq![digit_char(n as int)]
    } else {
        decimal(n / 10).push(digit_char((n % 10) as int))
    }
}

fn digit_text(d: u64) -> (r: &'static str)
    requires
        d < 10,
    ensures
        r@ == seq![digit_char(d as int)],
{
    proof {
        reveal_strlit("0");
        reveal_strlit("1");
        reveal_strlit("2");
        reveal_strlit("3");
        reveal_strlit("4");
        reveal_strlit("5");
        reveal_strlit("6");
        reveal_strlit("7");
        reveal_strlit("8");
        reveal_strlit("9");
    }
    let r: &'static str = if d == 0 {
        "0"
    } else if d == 1 {
        "1"
    } else if d == 2 {
        "2"
    } else if d == 3 {
        "3"
    } else if d == 4 {
        "4"
    } else if d == 5 {
        "5"
    } else if d == 6 {
        "6"
    } else if d == 7 {
        "7"
    } else if d == 8 {
        "8"
    } else {
        "9"
    };
    assert(r@ =~= seq![digit_char(d as int)]);
    r
}

/// Appends the decimal numeral of `n`.
pub fn append_decimal(out: &mut String, n: u64)
    ensures
        final(out)@ == old(out)@ + decimal(n as nat),
    decreases n,
{
    if n >= 10 {
        append_decimal(out, n / 10);
    }
    out.append(digit_text(n % 10));
    proof {
        if n >= 10 {
            assert(old(out)@ + decimal((n / 10) as nat) + seq![digit_char((n % 10) as int)]
                =~= old(out)@ + decimal(n as nat));
        }
    }
}

/// The text of `a` followed by that of `b`.
pub fn join2(a: &str, b: &str) -> (r: String)
    ensures
        r@ == a@ + b@,
{
    let mut out = a.to_string();
    out.append(b);
    out
}

/// `String::push` appends one character.
pub assume_specification[ String::push ](s: &mut String, c: char)
    ensures
        final(s)@ == old(s)@.push(c),
;

/// The text of the characters from `from` to `to`.
pub fn text_of_range(chars: &Vec<char>, from: usize, to: usize) -> (r: String)
    requires
        from <= to <= chars@.len(),
    ensures
        r@ == chars@.subrange(from as int, to as int),
{
    let mut out = String::new();
    let mut i: usize = from;
    while i < to
        invariant
            from <= i <= to <= chars@.len(),
            out@ == chars@.subrange(from as int, i as int),
        decreases to - i,
    {
        out.push(chars[i]);
        assert(chars@.subrange(from as int, i + 1) =~= chars@.subrange(from as int, i as int).push(
            chars@[i as int],
        ));
        i = i + 1;
    }
    out
}

/// A text without its leading white space.
pub open spec fn trimmed_start(s: Seq<char>) -> Seq<char>
    decreases s.len(),
{
    if s.len() > 0 && unicode_white_space(s[0]) {
        trimmed_start(s.drop_first())
    } else {
        s
    }
}

/// A text without its trailing white space.
pub open spec fn trimmed_end(s: Seq<char>) -> Seq<char>
    decreases s.len(),
{
    if s.len() > 0 && unicode_white_space(s.last()) {
        trimmed_end(s.drop_last())
    } else {
        s
    }
}

/// A text without its leading and trailing white space.
pub open spec fn trimmed(s: Seq<char>) -> Seq<char> {
    trimmed_end(trimmed_start(s))
}

/// The text without its leading and trailing white space.
pub fn trim(s: &str) -> (r: String)
    ensures
        r@ == trimmed(s@),
{
    let chars = chars_of(s);
    let mut from: usize = 0;
    assert(s@.skip(0) =~= s@);
    while from < chars.len() && char_is_white_space(chars[from])
        invariant
            chars@ == s@,
            from <= chars@.len(),
            trimmed_start(s@) == trimmed_start(s@.skip(from as int)),
        ensures
            chars@ == s@,
            from <= chars@.len(),
            trimmed_start(s@) == s@.skip(from as int),
        decreases chars@.len() - from,
    {
        assert(s@.skip(from as int).drop_first() =~= s@.skip(from + 1));
        from = from + 1;
    }
    let mut to: usize = chars.len();
    assert(s@.subrange(from as int, to as int) =~= s@.skip(from as int));
    while to > from && char_is_white_space(chars[to - 1])
        invariant
            chars@ == s@,
            from <= to <= chars@.len(),
            trimmed(s@) == trimmed_end(s@.subrange(from as int, to as int)),
        ensures
            chars@ == s@,
            from <= to <= chars@.len(),
            trimmed(s@) == s@.subrange(from as int, to as int),
        decreases to,
    {
        assert(s@.subrange(from as int, to as int).drop_last() =~= s@.subrange(
            from as int,
            to - 1,
        ));
        to = to - 1;
    }
    text_of_range(&chars, from, to)
}

/// The lower-case form of an ASCII letter; any other character is left alone.
pub open spec fn ascii_lower_char(c: char) -> char {
    if 'A' <= c && c <= 'Z' {
        (c as int + 32) as char
    } else {
        c
    }
}

/// A text with its ASCII letters in lower case.
pub open spec fn ascii_lower(s: Seq<char>) -> Seq<char> {
    Seq::new(s.len(), |i: int| ascii_lower_char(s[i]))
}

/// The text with its ASCII letters in lower case.
pub fn to_ascii_lower(s: &str) -> (r: String)
    ensures
        r@ == ascii_lower(s@),
{
    let chars = chars_of(s);
    let mut out = String::new();
    for i in 0..chars.len()
        invariant
            chars@ == s@,
            out@ == ascii_lower(s@).take(i as int),
    {
        let c: char = chars[i];
        let lower: char = if 'A' <= c && c <= 'Z' {
            ((c as u8) + 32u8) as char
        } else {
            c
        };
        out.push(lower);
        assert(ascii_lower(s@).take(i + 1) =~= ascii_lower(s@).take(i as int).push(
            ascii_lower(s@)[i as int],
        ));
    }
    assert(ascii_lower(s@).take(s@.len() as int) =~= ascii_lower(s@));
    out
}

/// `part` occurs in `s`, starting at `at`.
pub open spec fn occurs_at(s: Seq<char>, part: Seq<char>, at: int) -> bool {
    0 <= at && at + part.len() <= s.len() && s.subrange(at, at + part.len()) == part
}

/// `part` occurs somewhere in `s`.
pub open spec fn contains_text(s: Seq<char>, part: Seq<char>) -> bool {
    exists|at: int| occurs_at(s, part, at)
}

fn chars_occur_at(s: &Vec<char>, part: &Vec<char>, at: usize) -> (r: bool)
    ensures
        r == occurs_at(s@, part@, at as int),
{
    if at > s.len() || part.len() > s.len() - at {
        return false;
    }
    for i in 0..part.len()
        invariant
            at + part@.len() <= s@.len() <= usize::MAX,
            forall|j: int| 0 <= j < i ==> s@[at + j] == part@[j],
    {
        if s[at + i] != part[i] {
            assert(s@.subrange(at as int, at + part@.len())[i as int] != part@[i as int]);
            return false;
        }
    }
    assert(s@.subrange(at as int, at + part@.len()) =~= part@);
    true
}

/// Whether `part` occurs in `s`.
pub fn text_contains(s: &str, part: &str) -> (r: bool)
    ensures
        r == contains_text(s@, part@),
{
    let whole = chars_of(s);
    let piece = chars_of(part);
    if piece.len() > whole.len() {
        return false;
    }
    let last: usize = whole.len() - piece.len();
    let mut at: usize = 0;
    loop
        invariant
            whole@ == s@,
            piece@ == part@,
            at <= last,
            last + piece@.len() == whole@.len(),
            forall|k: int| 0 <= k < at ==> !occurs_at(s@, part@, k),
        decreases last - at,
    {
        if chars_occur_at(&whole, &piece, at) {
            return true;
        }
        if at == last {
            return false;
        }
        at = at + 1;
    }
}

/// What follows the last slash of a path; the whole path where there is none.
pub open spec fn file_name(path: Seq<char>) -> Seq<char>
    decreases path.len(),
{
    if path.len() == 0 || path.last() == '/' {
        Seq::empty()
    } else {
        file_name(path.drop_last()).push(path.last())
    }
}

/// What follows the last slash of a path.
pub fn file_name_of(path: &str) -> (r: String)
    ensures
        r@ == file_name(path@),
{
    let chars = chars_of(path);
    let mut from: usize = chars.len();
    assert(path@.take(from as int) =~= path@);
    assert(file_name(path@) =~= file_name(path@.take(from as int)) + path@.skip(from as int));
    while from > 0 && chars[from - 1] != '/'
        invariant
            chars@ == path@,
            from <= chars@.len(),
            file_name(path@) == file_name(path@.take(from as int)) + path@.skip(from as int),
        ensures
            chars@ == path@,
            from <= chars@.len(),
            file_name(path@) == path@.skip(from as int),
        decreases from,
    {
        proof {
            let head = path@.take(from as int);
            assert(head.drop_last() =~= path@.take(from - 1));
            assert(file_name(head) == file_name(path@.take(from - 1)).push(head.last()));
            assert(file_name(path@.take(from - 1)).push(head.last()) + path@.skip(from as int)
                =~= file_name(path@.take(from - 1)) + path@.skip(from - 1));
        }
        from = from - 1;
        proof {
            if from == 0 || path@[from - 1] == '/' {
                assert(file_name(path@.take(from as int)) =~= Seq::empty());
                assert(Seq::<char>::empty() + path@.skip(from as int) =~= path@.skip(from as int));
            }
        }
    }
    proof {
        assert(path@.subrange(from as int, path@.len() as int) =~= path@.skip(from as int));
    }
    text_of_range(&chars, from, chars.len())
}

/// A text without any repetition of `suffix` at its end.
pub open spec fn without_suffixes(s: Seq<char>, suffix: Seq<char>) -> Seq<char>
    decreases s.len(),
{
    if suffix.len() > 0 && occurs_at(s, suffix, s.len() - suffix.len()) {
        without_suffixes(s.take(s.len() - suffix.len()), suffix)
    } else {
        s
    }
}

/// The text without any repetition of `suffix` at its end.
pub fn trim_suffixes(s: &str, suffix: &str) -> (r: String)
    requires
        suffix@.len() > 0,
    ensures
        r@ == without_suffixes(s@, suffix@),
{
    let mut chars = chars_of(s);
    let tail = chars_of(suffix);
    while chars.len() >= tail.len() && chars_occur_at(&chars, &tail, chars.len() - tail.len())
        invariant
            tail@ == suffix@,
            suffix@.len() > 0,
            without_suffixes(s@, suffix@) == without_suffixes(chars@, suffix@),
        decreases chars@.len(),
    {
        let keep: usize = chars.len() - tail.len();
        assert(chars@.subrange(0, keep as int) =~= chars@.take(keep as int));
        chars.truncate(keep);
    }
    assert(chars@.subrange(0, chars@.len() as int) =~= chars@);
    text_of_range(&chars, 0, chars.len())
}

/// The texts of a list with `separator` between neighbours.
pub open spec fn joined(parts: Seq<Seq<char>>, separator: Seq<char>) -> Seq<char>
    decreases parts.len(),
{
    if parts.len() == 0 {
        Seq::empty()
    } else if parts.len() == 1 {
        parts[0]
    } else {
        joined(parts.drop_last(), separator) + separator + parts.last()
    }
}

/// The strings of a list with `separator` between neighbours.
pub fn join_texts(parts: &Vec<String>, separator: &str) -> (r: String)
    ensures
        r@ == joined(texts(parts@), separator@),
{
    let mut out = String::new();
    let ghost all = texts(parts@);
    for i in 0..parts.len()
        invariant
            all == texts(parts@),
            out@ == joined(all.take(i as int), separator@),
    {
        let ghost before = out@;
        if i > 0 {
            out.append(separator);
        }
        out.append(parts[i].as_str());
        proof {
            let head = all.take(i + 1);
            assert(head.drop_last() =~= all.take(i as int));
            assert(head.last() == parts@[i as int]@);
            if i == 0 {
                assert(out@ =~= head[0]);
            }
        }
    }
    assert(all.take(parts@.len() as int) =~= all);
    out
}

/// The decimal numeral of an integer.
pub open spec fn signed_decimal(n: int) -> Seq<char> {
    if n < 0 {
        seq!['-'] + decimal((-n) as nat)
    } else {
        decimal(n as nat)
    }
}

/// Appends the decimal numeral of `n`.
pub fn append_signed(out: &mut String, n: i64)
    ensures
        final(out)@ == old(out)@ + signed_decimal(n as int),
{
    if n < 0 {
        let magnitude: u64 = (-(n as i128)) as u64;
        out.push('-');
        append_decimal(out, magnitude);
        assert(out@ =~= old(out)@ + signed_decimal(n as int));
    } else {
        append_decimal(out, n as u64);
    }
}

/// Three texts in a row.
pub fn join3(a: &str, b: &str, c: &str) -> (r: String)
    ensures
        r@ == a@ + b@ + c@,
{
    let mut out = a.to_string();
    out.append(b);
    out.append(c);
    out
}

/// The text begins with another.
pub open spec fn begins_with(s: Seq<char>, head: Seq<char>) -> bool {
    head.len() <= s.len() && s.take(head.len() as int) == head
}

/// The text ends with another.
pub open spec fn ends_with(s: Seq<char>, tail: Seq<char>) -> bool {
    tail.len() <= s.len() && s.skip(s.len() - tail.len()) == tail
}

/// Whether the text begins with another.
pub fn text_begins_with(s: &str, head: &str) -> (r: bool)
    ensures
        r == begins_with(s@, head@),
{
    let whole = chars_of(s);
    let piece_len: usize = chars_of(head).len();
    if piece_len > whole.len() {
        return false;
    }
    let start = text_of_range(&whole, 0, piece_len);
    assert(start@ =~= s@.take(head@.len() as int));
    text_eq(start.as_str(), head)
}

/// Whether the text ends with another.
pub fn text_ends_with(s: &str, tail: &str) -> (r: bool)
    ensures
        r == ends_with(s@, tail@),
{
    let whole = chars_of(s);
    let piece_len: usize = chars_of(tail).len();
    if piece_len > whole.len() {
        return false;
    }
    let end = text_of_range(&whole, whole.len() - piece_len, whole.len());
    assert(end@ =~= s@.skip(s@.len() - tail@.len()));
    text_eq(end.as_str(), tail)
}


/// Numerals of different numbers differ.
pub proof fn lemma_decimal_injective(a: nat, b: nat)
    requires
        decimal(a) == decimal(b),
    ensures
        a == b,
    decreases a + b,
{
    lemma_decimal_last(a);
    lemma_decimal_last(b);
    assert(decimal(a).last() == decimal(b).last());
    assert(a % 10 == b % 10);
    if a >= 10 || b >= 10 {
        if a < 10 {
            lemma_decimal_len(b / 10);
            assert(decimal(b).len() > 1);
        } else if b < 10 {
            lemma_decimal_len(a / 10);
            assert(decimal(a).len() > 1);
        } else {
            assert(decimal(a).drop_last() =~= decimal(a / 10));
            assert(decimal(b).drop_last() =~= decimal(b / 10));
            lemma_decimal_injective(a / 10, b / 10);
        }
    }
}

proof fn lemma_decimal_last(n: nat)
    ensures
        decimal(n).len() > 0,
        decimal(n).last() == digit_char((n % 10) as int),
{
}

proof fn lemma_decimal_len(n: nat)
    ensures
        decimal(n).len() > 0,
{
}

/// A numeral consists of digits.
pub proof fn lemma_decimal_digits(n: nat)
    ensures
        decimal(n).len() > 0,
        forall|i: int|
            0 <= i < decimal(n).len() ==> '0' <= (#[trigger] decimal(n)[i]) && decimal(n)[i] <= '9',
    decreases n,
{
    if n >= 10 {
        lemma_decimal_digits(n / 10);
        let head = decimal(n / 10);
        assert forall|i: int| 0 <= i < decimal(n).len() implies '0' <= (#[trigger] decimal(n)[i])
            && decimal(n)[i] <= '9' by {
            if i < head.len() {
                assert(decimal(n)[i] == head[i]);
            }
        }
    }
}

/// Numerals of different integers differ.
pub proof fn lemma_signed_decimal_injective(a: int, b: int)
    requires
        signed_decimal(a) == signed_decimal(b),
    ensures
        a == b,
{
    let x: nat = if a < 0 {
        (-a) as nat
    } else {
        a as nat
    };
    let y: nat = if b < 0 {
        (-b) as nat
    } else {
        b as nat
    };
    lemma_decimal_digits(x);
    lemma_decimal_digits(y);
    assert(decimal(x)[0] != '-' && decimal(y)[0] != '-');
    assert((a < 0) == (signed_decimal(a)[0] == '-'));
    assert((b < 0) == (signed_decimal(b)[0] == '-'));
    if a < 0 {
        assert(signed_decimal(a).skip(1) =~= decimal(x));
        assert(signed_decimal(b).skip(1) =~= decimal(y));
    }
    lemma_decimal_injective(x, y);
}

/// A text sorts before whatever continues it.
pub proof fn law_beginnings_sort_first(head: Seq<char>, rest: Seq<char>)
    requires
        rest.len() > 0,
    ensures
        text_lt(head, head + rest),
        !text_lt(head + rest, head),
    decreases head.len(),
{
    let whole = head + rest;
    if head.len() > 0 {
        law_beginnings_sort_first(head.drop_first(), rest);
        assert(whole.drop_first() =~= head.drop_first() + rest);
    }
}

/// Two texts sort by the first character in which they differ, whatever follows it.
pub proof fn law_the_first_difference_decides(
    head: Seq<char>,
    a: char,
    b: char,
    a_rest: Seq<char>,
    b_rest: Seq<char>,
)
    requires
        (a as u32) < (b as u32),
    ensures
        text_lt(head + seq![a] + a_rest, head + seq![b] + b_rest),
        !text_lt(head + seq![b] + b_rest, head + seq![a] + a_rest),
    decreases head.len(),
{
    let left = head + seq![a] + a_rest;
    let right = head + seq![b] + b_rest;
    if head.len() == 0 {
        assert(left[0] == a && right[0] == b);
    } else {
        law_the_first_difference_decides(head.drop_first(), a, b, a_rest, b_rest);
        assert(left.drop_first() =~= head.drop_first() + seq![a] + a_rest);
        assert(right.drop_first() =~= head.drop_first() + seq![b] + b_rest);
    }
}

} // verus!
