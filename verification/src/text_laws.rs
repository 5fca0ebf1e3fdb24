//! What the operations on texts do.
use vstd::prelude::*;

use crate::text;

verus! {

/// The value that a numeral stands for.
pub open spec fn numeral_value(s: Seq<char>) -> int
    decreases s.len(),
{
    if s.len() == 0 {
        0
    } else {
        10 * numeral_value(s.drop_last()) + (s.last() as int - '0' as int)
    }
}

/// A numeral has the value of its number, holds digits only and begins with zero only
/// for zero itself.
pub proof fn law_numerals_have_their_value(n: nat)
    ensures
        numeral_value(text::decimal(n)) == n,
        text::decimal(n).len() > 0,
        forall|i: int|
            0 <= i < text::decimal(n).len() ==> '0' <= #[trigger] text::decimal(n)[i] && text::decimal(
                n,
            )[i] <= '9',
        text::decimal(n)[0] == '0' ==> n == 0,
    decreases n,
{
    if n < 10 {
        let s = text::decimal(n);
        assert(s =~= seq![text::digit_char(n as int)]);
        assert(s.drop_last() =~= Seq::empty());
        assert(numeral_value(Seq::empty()) == 0);
        assert(s.last() == text::digit_char(n as int));
    } else {
        law_numerals_have_their_value(n / 10);
        let s = text::decimal(n);
        let front = text::decimal(n / 10);
        assert(s.drop_last() =~= front);
        assert(s.last() == text::digit_char((n % 10) as int));
        assert forall|i: int| 0 <= i < s.len() implies '0' <= #[trigger] s[i] && s[i] <= '9' by {
            if i < front.len() {
                assert(s[i] == front[i]);
            }
        }
        assert(s[0] == front[0]);
    }
}

proof fn lemma_trimmed_start(s: Seq<char>) -> (cut: int)
    ensures
        0 <= cut <= s.len(),
        text::trimmed_start(s) == s.skip(cut),
        text::blank(s.take(cut)),
        cut < s.len() ==> !text::unicode_white_space(s[cut]),
    decreases s.len(),
{
    if s.len() > 0 && text::unicode_white_space(s[0]) {
        let rest = s.drop_first();
        let cut = lemma_trimmed_start(rest);
        assert(rest.skip(cut) =~= s.skip(cut + 1));
        let head = s.take(cut + 1);
        let short = rest.take(cut);
        assert forall|i: int| 0 <= i < head.len() implies text::unicode_white_space(
            #[trigger] head[i],
        ) by {
            if i > 0 {
                assert(short[i - 1] == s[i]);
                assert(text::unicode_white_space(short[i - 1]));
            }
        }
        cut + 1
    } else {
        assert(s.skip(0) =~= s);
        0
    }
}

proof fn lemma_trimmed_end(s: Seq<char>) -> (end: int)
    ensures
        0 <= end <= s.len(),
        text::trimmed_end(s) == s.take(end),
        text::blank(s.skip(end)),
        end > 0 ==> !text::unicode_white_space(s[end - 1]),
    decreases s.len(),
{
    if s.len() > 0 && text::unicode_white_space(s.last()) {
        let rest = s.drop_last();
        let end = lemma_trimmed_end(rest);
        assert(rest.take(end) =~= s.take(end));
        let tail = s.skip(end);
        let short = rest.skip(end);
        assert forall|i: int| 0 <= i < tail.len() implies text::unicode_white_space(
            #[trigger] tail[i],
        ) by {
            if i + end < rest.len() {
                assert(short[i] == s[i + end]);
                assert(text::unicode_white_space(short[i]));
            }
        }
        end
    } else {
        assert(s.take(s.len() as int) =~= s);
        s.len() as int
    }
}

/// Trimming takes away white space at both ends and nothing else: what is left stands in
/// the text between blanks, and neither begins nor ends with white space.
pub proof fn law_trimming_takes_white_space_only(s: Seq<char>)
    ensures
        exists|before: Seq<char>, behind: Seq<char>|
            text::blank(before) && text::blank(behind) && s == #[trigger] (before + text::trimmed(s)
                + behind),
        text::trimmed(s).len() > 0 ==> !text::unicode_white_space(text::trimmed(s)[0])
            && !text::unicode_white_space(text::trimmed(s).last()),
        text::blank(s) <==> text::trimmed(s).len() == 0,
{
    let cut = lemma_trimmed_start(s);
    let mid = s.skip(cut);
    let end = lemma_trimmed_end(mid);
    let before = s.take(cut);
    let behind = mid.skip(end);
    assert(s =~= before + text::trimmed(s) + behind);
    if text::trimmed(s).len() > 0 {
        assert(text::trimmed(s)[0] == s[cut]);
        assert(text::trimmed(s).last() == mid[end - 1]);
        assert(!text::unicode_white_space(s[cut]));
    } else {
        assert(end == 0);
        assert forall|i: int| 0 <= i < s.len() implies text::unicode_white_space(
            #[trigger] s[i],
        ) by {
            if i < cut {
                assert(before[i] == s[i]);
                assert(text::unicode_white_space(before[i]));
            } else {
                assert(behind[i - cut] == s[i]);
                assert(text::unicode_white_space(behind[i - cut]));
            }
        }
    }
}

/// The name of a file is what stands behind the last slash of its path.
pub proof fn law_file_names_stand_behind_the_last_slash(directory: Seq<char>, name: Seq<char>)
    requires
        !name.contains('/'),
    ensures
        text::file_name(directory + seq!['/'] + name) == name,
        text::file_name(name) == name,
    decreases name.len(),
{
    let path = directory + seq!['/'] + name;
    if name.len() == 0 {
        assert(path.last() == '/');
        assert(text::file_name(path) =~= name);
        assert(text::file_name(name) =~= name);
    } else {
        let shorter = name.drop_last();
        assert(!shorter.contains('/')) by {
            if shorter.contains('/') {
                let i = choose|i: int| 0 <= i < shorter.len() && shorter[i] == '/';
                assert(name[i] == '/');
            }
        }
        law_file_names_stand_behind_the_last_slash(directory, shorter);
        assert(path.drop_last() =~= directory + seq!['/'] + shorter);
        assert(name[name.len() - 1] != '/');
        assert(path.last() == name.last());
        assert(text::file_name(path) =~= name);
        assert(text::file_name(name) =~= name);
    }
}

/// A text is found wherever it stands, at the beginning and at the end in particular.
pub proof fn law_parts_are_found(before: Seq<char>, part: Seq<char>, behind: Seq<char>)
    ensures
        text::contains_text(before + part + behind, part),
        text::begins_with(part + behind, part),
        text::ends_with(before + part, part),
{
    let s = before + part + behind;
    assert(s.subrange(before.len() as int, (before.len() + part.len()) as int) =~= part);
    assert(text::occurs_at(s, part, before.len() as int));
    assert((part + behind).take(part.len() as int) =~= part);
    assert((before + part).skip(before.len() as int) =~= part);
}

/// A text that is found stands somewhere in the other.
pub proof fn law_what_is_found_is_there(s: Seq<char>, part: Seq<char>)
    ensures
        text::contains_text(s, part) ==> exists|before: Seq<char>, behind: Seq<char>|
            s == #[trigger] (before + part + behind),
        text::begins_with(s, part) ==> exists|behind: Seq<char>| s == #[trigger] (part + behind),
        text::ends_with(s, part) ==> exists|before: Seq<char>| s == #[trigger] (before + part),
{
    if text::contains_text(s, part) {
        let at = choose|at: int| text::occurs_at(s, part, at);
        assert(s =~= s.take(at) + part + s.skip(at + part.len())) by {
            assert forall|i: int| 0 <= i < s.len() implies s[i] == (s.take(at) + part + s.skip(
                at + part.len(),
            ))[i] by {
                if at <= i < at + part.len() {
                    assert(s.subrange(at, at + part.len())[i - at] == part[i - at]);
                }
            }
        }
    }
    if text::begins_with(s, part) {
        assert(s =~= s.take(part.len() as int) + s.skip(part.len() as int));
        assert(s == part + s.skip(part.len() as int));
    }
    if text::ends_with(s, part) {
        let at = s.len() - part.len();
        assert(s =~= s.take(at) + s.skip(at));
        assert(s == s.take(at) + part);
    }
}

/// Joining one text more puts the separator before it; one text alone stays as it is.
pub proof fn law_joining_separates_neighbours(
    parts: Seq<Seq<char>>,
    last: Seq<char>,
    separator: Seq<char>,
)
    ensures
        parts.len() > 0 ==> text::joined(parts.push(last), separator) == text::joined(
            parts,
            separator,
        ) + separator + last,
        text::joined(seq![last], separator) == last,
        text::joined(Seq::empty(), separator) == Seq::<char>::empty(),
{
    assert(parts.push(last).drop_last() =~= parts);
}

/// Lower case keeps the length, changes capital ASCII letters only, and leaves what is in
/// lower case.
pub proof fn law_lower_case_changes_capitals_only(s: Seq<char>, i: int)
    requires
        0 <= i < s.len(),
    ensures
        text::ascii_lower(s).len() == s.len(),
        !('A' <= s[i] && s[i] <= 'Z') ==> text::ascii_lower(s)[i] == s[i],
        'A' <= s[i] && s[i] <= 'Z' ==> 'a' <= text::ascii_lower(s)[i] && text::ascii_lower(s)[i]
            <= 'z' && text::ascii_lower(s)[i] as int - 'a' as int == s[i] as int - 'A' as int,
        text::ascii_lower(text::ascii_lower(s)) == text::ascii_lower(s),
{
    assert(text::ascii_lower(text::ascii_lower(s)) =~= text::ascii_lower(s));
}

/// No suffix of the kind is left at the end, and nothing but such suffixes was taken.
pub proof fn law_suffixes_are_taken_off(s: Seq<char>, suffix: Seq<char>)
    requires
        suffix.len() > 0,
    ensures
        !text::ends_with(text::without_suffixes(s, suffix), suffix),
        text::without_suffixes(s + suffix, suffix) == text::without_suffixes(s, suffix),
        !text::ends_with(s, suffix) ==> text::without_suffixes(s, suffix) == s,
    decreases s.len(),
{
    let longer = s + suffix;
    assert(longer.subrange(s.len() as int, longer.len() as int) =~= suffix);
    assert(text::occurs_at(longer, suffix, longer.len() - suffix.len()));
    assert(longer.take(s.len() as int) =~= s);
    if suffix.len() <= s.len() {
        assert(s.skip(s.len() - suffix.len()) =~= s.subrange(
            s.len() - suffix.len(),
            s.len() as int,
        ));
    }
    if text::occurs_at(s, suffix, s.len() - suffix.len()) {
        law_suffixes_are_taken_off(s.take(s.len() - suffix.len()), suffix);
    }
}

} // verus!
