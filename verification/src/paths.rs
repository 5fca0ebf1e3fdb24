//! Paths as text, with slashes between their components.
use vstd::prelude::*;

use crate::text;
use crate::text::{chars_of, file_name_of, text_eq, text_of_range};

verus! {

/// The components of a path that name something: no empty ones and no single dots.
pub open spec fn components(path: Seq<char>) -> Seq<Seq<char>>
    decreases path.len(),
{
    if path.len() == 0 {
        Seq::empty()
    } else {
        let name = text::file_name(path);
        let at = path.len() - name.len();
        let front = if at <= 0 {
            Seq::empty()
        } else {
            components(path.take(at - 1))
        };
        if name.len() == 0 || name == "."@ {
            front
        } else {
            front.push(name)
        }
    }
}

/// The path starts at the root.
pub open spec fn absolute(path: Seq<char>) -> bool {
    path.len() > 0 && path[0] == '/'
}

/// The path starts at the present directory, by name.
pub open spec fn dotted(path: Seq<char>) -> bool {
    path == "."@ || (path.len() >= 2 && path[0] == '.' && path[1] == '/')
}

/// The last component of a path, if it names a file or a directory.
pub open spec fn last_name(path: Seq<char>) -> Option<Seq<char>> {
    if components(path).len() == 0 || components(path).last() == ".."@ {
        None
    } else {
        Some(components(path).last())
    }
}

/// A path below a directory.
pub open spec fn below(parent: Seq<char>, name: Seq<char>) -> Seq<char> {
    if parent.len() == 0 || parent.last() == '/' {
        parent + name
    } else {
        parent + "/"@ + name
    }
}

/// The path leads to the entry of this name in the directory, component by
/// component.
pub open spec fn is_entry_of(path: Seq<char>, parent: Seq<char>, name: Seq<char>) -> bool {
    absolute(path) == absolute(parent) && dotted(path) == dotted(parent) && components(path)
        == components(parent).push(name)
}

proof fn lemma_file_name_len(path: Seq<char>)
    ensures
        text::file_name(path).len() <= path.len(),
        text::file_name(path).len() < path.len() ==> path[path.len() - text::file_name(path).len()
            - 1] == '/',
        path.skip(path.len() - text::file_name(path).len()) == text::file_name(path),
    decreases path.len(),
{
    if path.len() > 0 && path.last() != '/' {
        lemma_file_name_len(path.drop_last());
        let n = text::file_name(path.drop_last());
        assert(text::file_name(path) == n.push(path.last()));
        assert(path.skip(path.len() - n.len() - 1) =~= path.drop_last().skip(
            path.len() - 1 - n.len(),
        ).push(path.last()));
    } else {
        assert(path.skip(path.len() as int) =~= Seq::empty());
    }
}

/// The components of a path.
pub fn components_of(path: &str) -> (r: Vec<String>)
    ensures
        text::texts(r@) == components(path@),
    decreases path@.len(),
{
    let chars = chars_of(path);
    if chars.len() == 0 {
        let out: Vec<String> = Vec::new();
        assert(text::texts(out@) =~= Seq::empty());
        return out;
    }
    let name = file_name_of(path);
    let name_len: usize = chars_of(name.as_str()).len();
    proof {
        lemma_file_name_len(path@);
    }
    let at: usize = chars.len() - name_len;
    let mut out: Vec<String> = Vec::new();
    assert(text::texts(out@) =~= Seq::empty());
    if at > 0 {
        let front = text_of_range(&chars, 0, at - 1);
        assert(front@ =~= path@.take(at - 1));
        out = components_of(front.as_str());
    }
    if name_len > 0 && !text_eq(name.as_str(), ".") {
        let ghost before = out@;
        out.push(name);
        assert(text::texts(out@) =~= text::texts(before).push(name@));
    }
    out
}

fn is_absolute(path: &str) -> (r: bool)
    ensures
        r == absolute(path@),
{
    let chars = chars_of(path);
    chars.len() > 0 && chars[0] == '/'
}

fn is_dotted(path: &str) -> (r: bool)
    ensures
        r == dotted(path@),
{
    let chars = chars_of(path);
    text_eq(path, ".") || (chars.len() >= 2 && chars[0] == '.' && chars[1] == '/')
}

/// The last component of a path, if it names a file or a directory.
pub fn last_name_of(path: &str) -> (r: Option<String>)
    ensures
        text::opt_text(r) == last_name(path@),
{
    let parts = components_of(path);
    let ghost all = components(path@);
    if parts.len() == 0 {
        return None;
    }
    let last = parts[parts.len() - 1].clone();
    assert(last@ == all.last());
    if text_eq(last.as_str(), "..") {
        None
    } else {
        Some(last)
    }
}

/// A path below a directory.
pub fn path_below(parent: &str, name: &str) -> (r: String)
    ensures
        r@ == below(parent@, name@),
{
    let chars = chars_of(parent);
    let mut out = parent.to_string();
    if chars.len() > 0 && chars[chars.len() - 1] != '/' {
        out.append("/");
    }
    out.append(name);
    out
}

/// Whether the path leads to the entry of this name in the directory.
pub fn leads_to_entry(path: &str, parent: &str, name: &str) -> (r: bool)
    ensures
        r == is_entry_of(path@, parent@, name@),
{
    if is_absolute(path) != is_absolute(parent) || is_dotted(path) != is_dotted(parent) {
        return false;
    }
    let got = components_of(path);
    let front = components_of(parent);
    let ghost have = components(path@);
    let ghost want = components(parent@).push(name@);
    if got.len() == 0 || got.len() - 1 != front.len() {
        assert(have.len() != want.len());
        return false;
    }
    for i in 0..front.len()
        invariant
            text::texts(got@) == have,
            have == components(path@),
            text::texts(front@) == components(parent@),
            have.len() == front@.len() + 1,
            want == components(parent@).push(name@),
            forall|j: int| 0 <= j < i ==> have[j] == want[j],
    {
        if !text_eq(got[i].as_str(), front[i].as_str()) {
            assert(have[i as int] != want[i as int]);
            return false;
        }
        assert(have[i as int] == got@[i as int]@);
        assert(want[i as int] == front@[i as int]@);
    }
    let same = text_eq(got[front.len()].as_str(), name);
    assert(have[front@.len() as int] == got@[front@.len() as int]@);
    assert(want[front@.len() as int] == name@);
    if same {
        assert(have =~= want);
    } else {
        assert(have != want);
    }
    same
}

/// A name that stands for itself: not empty, not one of the two dot names, and with
/// no slash in it.
pub open spec fn plain_name(name: Seq<char>) -> bool {
    name.len() > 0 && name != "."@ && name != ".."@ && !name.contains('/')
}

proof fn lemma_file_name_has_no_slash(path: Seq<char>)
    ensures
        !text::file_name(path).contains('/'),
    decreases path.len(),
{
    if path.len() > 0 && path.last() != '/' {
        lemma_file_name_has_no_slash(path.drop_last());
        let front = text::file_name(path.drop_last());
        assert forall|i: int| 0 <= i < front.len() implies front[i] != '/' by {
            assert(front.contains(front[i]));
        }
    }
}

proof fn lemma_components_have_no_slash(path: Seq<char>, i: int)
    requires
        0 <= i < components(path).len(),
    ensures
        components(path)[i].len() > 0,
        components(path)[i] != "."@,
        !components(path)[i].contains('/'),
    decreases path.len(),
{
    if path.len() > 0 {
        let name = text::file_name(path);
        let at = path.len() - name.len();
        lemma_file_name_has_no_slash(path);
        let front = if at <= 0 {
            Seq::empty()
        } else {
            components(path.take(at - 1))
        };
        if i < front.len() {
            lemma_components_have_no_slash(path.take(at - 1), i);
        }
    }
}

/// The last name of a path, if it has one, stands for itself.
pub proof fn law_last_names_are_plain(path: Seq<char>)
    ensures
        last_name(path) matches Some(name) ==> plain_name(name),
{
    if components(path).len() > 0 {
        lemma_components_have_no_slash(path, components(path).len() - 1);
    }
}

/// The file name of a path without a slash is the path.
proof fn lemma_file_name_plain(name: Seq<char>)
    requires
        !name.contains('/'),
    ensures
        text::file_name(name) == name,
    decreases name.len(),
{
    if name.len() > 0 {
        assert(name.contains(name.last()));
        assert forall|c: char| name.drop_last().contains(c) implies name.contains(c) by {
            let i = choose|i: int| 0 <= i < name.len() - 1 && name.drop_last()[i] == c;
            assert(name[i] == c);
        }
        lemma_file_name_plain(name.drop_last());
        assert(name.drop_last().push(name.last()) =~= name);
    } else {
        assert(name =~= Seq::empty());
    }
}

proof fn lemma_file_name_below(front: Seq<char>, name: Seq<char>)
    requires
        !name.contains('/'),
    ensures
        text::file_name(front.push('/') + name) == name,
    decreases name.len(),
{
    let whole = front.push('/') + name;
    if name.len() > 0 {
        assert(name.contains(name.last()));
        assert forall|c: char| name.drop_last().contains(c) implies name.contains(c) by {
            let i = choose|i: int| 0 <= i < name.len() - 1 && name.drop_last()[i] == c;
            assert(name[i] == c);
        }
        lemma_file_name_below(front, name.drop_last());
        assert(whole.drop_last() =~= front.push('/') + name.drop_last());
        assert(whole.last() == name.last());
        assert(name.drop_last().push(name.last()) =~= name);
    } else {
        assert(whole =~= front.push('/'));
        assert(name =~= Seq::empty());
    }
}

/// A path made below a directory leads to the entry of that name in the directory,
/// and its last name is that name.
pub proof fn law_a_path_below_is_an_entry(parent: Seq<char>, name: Seq<char>)
    requires
        plain_name(name),
    ensures
        is_entry_of(below(parent, name), parent, name),
        last_name(below(parent, name)) == Some(name),
{
    reveal_strlit("/");
    reveal_strlit(".");
    let path = below(parent, name);
    if parent.len() == 0 {
        assert(path =~= name);
        lemma_file_name_plain(name);
        assert(components(parent) =~= Seq::empty());
        assert(components(path) =~= components(parent).push(name));
        assert(name.contains(name[0]));
        if name.len() >= 2 {
            assert(name.contains(name[1]));
        }
    } else {
        let front = if parent.last() == '/' {
            parent.drop_last()
        } else {
            parent
        };
        assert(path =~= front.push('/') + name);
        lemma_file_name_below(front, name);
        let at = path.len() - name.len();
        assert(path.take(at - 1) =~= front);
        assert(components(path) =~= components(front).push(name));
        if parent.last() == '/' {
            assert(text::file_name(parent) =~= Seq::empty());
            assert(parent.take(parent.len() - 1) =~= front);
            assert(components(parent) == components(front));
        }
        assert(path[0] == parent[0]);
        if parent.len() >= 2 {
            assert(path[1] == parent[1]);
        } else {
            assert(dotted(path) == dotted(parent)) by {
                if parent[0] == '.' {
                    assert(parent =~= "."@);
                    assert(path[1] == '/');
                }
                assert(path.len() >= 2);
                assert(path != "."@);
            }
        }
    }
}

} // verus!
