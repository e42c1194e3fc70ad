//! Paths, as text.

use vstd::prelude::*;

use crate::text;

verus! {

/// A file's path under a directory: an absolute one stands alone, and the two are parted by one slash
/// unless the directory already ends in one.
pub open spec fn joined(dir: Seq<char>, name: Seq<char>) -> Seq<char> {
    if name.len() > 0 && name[0] == '/' {
        name
    } else if dir.len() == 0 || dir.last() == '/' {
        dir + name
    } else {
        dir + "/"@ + name
    }
}

pub fn join(dir: &str, name: &str) -> (path: String)
    ensures
        path@ == joined(dir@, name@),
{
    let n: usize = dir.unicode_len();
    let absolute = name.unicode_len() > 0 && name.get_char(0) == '/';
    if absolute {
        name.to_owned()
    } else if n == 0 || dir.get_char(n - 1) == '/' {
        dir.to_owned().concat(name)
    } else {
        dir.to_owned().concat("/").concat(name)
    }
}

/// What `std::path::Path::parent` gives for a path.
pub uninterp spec fn parent_text(path: Seq<char>) -> Option<Seq<char>>;

/// What `std::path::Path::file_name` gives for a path.
pub uninterp spec fn file_name_text(path: Seq<char>) -> Option<Seq<char>>;

/// Calls `std::path::Path::parent`. The result is a function of the path's text, and shorter, for it
/// lacks the path's last component.
#[verifier::external_body]
pub(crate) fn parent_of(path: &str) -> (parent: Option<String>)
    ensures
        text::optional(parent) == parent_text(path@),
        parent matches Some(parent) ==> parent@.len() < path@.len(),
{
    std::path::Path::new(path).parent().map(|parent| parent.to_string_lossy().into_owned())
}

/// Calls `std::path::Path::file_name`. The result is a function of the path's text.
#[verifier::external_body]
pub(crate) fn file_name_of(path: &str) -> (name: Option<String>)
    ensures
        text::optional(name) == file_name_text(path@),
{
    std::path::Path::new(path).file_name().map(|name| name.to_string_lossy().into_owned())
}

/// What `std::path::Path::with_file_name` gives for a path.
pub uninterp spec fn renamed_text(path: Seq<char>, name: Seq<char>) -> Seq<char>;

/// Calls `std::path::Path::with_file_name`. The result is a function of the two texts.
#[verifier::external_body]
pub(crate) fn with_file_name(path: &str, name: &str) -> (renamed: String)
    ensures
        renamed@ == renamed_text(path@, name@),
{
    std::path::Path::new(path).with_file_name(name).to_string_lossy().into_owned()
}

/// What stands between a path's slashes.
pub open spec fn names(path: Seq<char>) -> Seq<Seq<char>>
    decreases path.len(),
{
    if path.len() == 0 {
        Seq::empty()
    } else {
        let before = names(path.drop_last());
        if path.last() == '/' {
            before
        } else if path.len() == 1 || path[path.len() - 2] == '/' {
            before.push(seq![path.last()])
        } else {
            before.drop_last().push(before.last().push(path.last()))
        }
    }
}

/// The names that count: a `.` does so only where a path begins with it.
pub open spec fn counted(names: Seq<Seq<char>>, rooted: bool) -> Seq<Seq<char>>
    decreases names.len(),
{
    if names.len() == 0 {
        names
    } else {
        let before = counted(names.drop_last(), rooted);
        if names.last() == "."@ && (rooted || names.len() > 1) {
            before
        } else {
            before.push(names.last())
        }
    }
}

/// Whether a path begins at the root.
pub open spec fn is_rooted(path: Seq<char>) -> bool {
    path.len() > 0 && path[0] == '/'
}

/// A path's components on Unix, the root itself the first where the path begins there. Repeated
/// slashes, one at the end and a `.` behind another component count for nothing.
pub open spec fn components(path: Seq<char>) -> Seq<Seq<char>> {
    if is_rooted(path) {
        seq!["/"@] + counted(names(path), true)
    } else {
        counted(names(path), false)
    }
}

/// Whether two texts are one path.
pub open spec fn same_path(a: Seq<char>, b: Seq<char>) -> bool {
    components(a) == components(b)
}

/// Whether a path is a root's own or below it.
pub open spec fn path_within(path: Seq<char>, root: Seq<char>) -> bool {
    components(root).is_prefix_of(components(path))
}

/// Calls `std::path::Path::starts_with`: whether the root's components are the first ones of the path,
/// with components as `std::path::Path::components` tells them apart on Unix.
#[verifier::external_body]
pub(crate) fn is_under(path: &str, root: &str) -> (within: bool)
    ensures
        within == path_within(path@, root@),
{
    std::path::Path::new(path).starts_with(root)
}

/// Compares two paths.
pub fn same(a: &str, b: &str) -> (same: bool)
    ensures
        same == same_path(a@, b@),
{
    let same = is_under(a, b) && is_under(b, a);
    proof {
        let (of_a, of_b) = (components(a@), components(b@));
        if same {
            assert(of_a =~= of_b.subrange(0, of_a.len() as int));
            assert(of_a =~= of_b);
        } else if of_a == of_b {
            assert(of_a =~= of_b.subrange(0, of_a.len() as int));
            assert(of_b =~= of_a.subrange(0, of_b.len() as int));
        }
    }
    same
}

/// A slash at the end makes no other path.
pub proof fn a_slash_at_the_end_counts_for_nothing(path: Seq<char>)
    requires
        path.len() > 0,
    ensures
        same_path(path.push('/'), path),
{
    assert(path.push('/').drop_last() =~= path);
}

proof fn lemma_extended(a: Seq<char>, b: Seq<char>, rest: Seq<char>)
    requires
        names(a) == names(b),
        a.len() > 0,
        b.len() > 0,
        a.last() == '/',
        b.last() == '/',
    ensures
        names(a + rest) == names(b + rest),
    decreases rest.len(),
{
    if rest.len() == 0 {
        assert(a + rest =~= a && b + rest =~= b);
    } else {
        let before = rest.drop_last();
        lemma_extended(a, b, before);
        assert((a + rest).drop_last() =~= a + before);
        assert((b + rest).drop_last() =~= b + before);
        if rest.len() == 1 {
            assert((a + rest)[(a + rest).len() - 2] == a.last());
            assert((b + rest)[(b + rest).len() - 2] == b.last());
        } else {
            assert((a + rest)[(a + rest).len() - 2] == rest[rest.len() - 2]);
            assert((b + rest)[(b + rest).len() - 2] == rest[rest.len() - 2]);
        }
    }
}

/// A doubled slash counts for one.
pub proof fn a_doubled_slash_counts_for_one(dir: Seq<char>, rest: Seq<char>)
    ensures
        same_path(dir.push('/').push('/') + rest, dir.push('/') + rest),
{
    let one = dir.push('/');
    let two = one.push('/');
    assert(two.drop_last() =~= one);
    lemma_extended(two, one, rest);
    assert(two[0] == one[0]);
    assert((two + rest)[0] == two[0] && (one + rest)[0] == one[0]);
}

/// A name under a directory: an absolute one stands alone, and any other is the directory and the name
/// with a slash between them.
pub proof fn a_name_goes_under_its_directory(dir: Seq<char>, name: Seq<char>)
    ensures
        is_rooted(name) ==> joined(dir, name) == name,
        !is_rooted(name) && dir.len() > 0 && dir.last() != '/' ==> joined(dir, name) == dir + "/"@ + name,
        !is_rooted(name) && dir.len() > 0 && dir.last() == '/' ==> joined(dir, name) == dir + name,
        dir.len() == 0 ==> joined(dir, name) == name,
        name.len() > 0 && name[0] == '/' ==> is_rooted(name),
{
    if dir.len() == 0 {
        assert(dir + name =~= name);
    }
}

proof fn lemma_name_behind_a_slash(dir: Seq<char>, name: Seq<char>)
    requires
        dir.len() == 0 || dir.last() == '/',
        name.len() > 0,
        !name.contains('/'),
    ensures
        names(dir + name) == names(dir).push(name),
    decreases name.len(),
{
    let path = dir + name;
    let shorter = name.drop_last();
    assert(path.drop_last() =~= dir + shorter);
    assert(path.last() == name.last());
    assert(name[name.len() - 1] != '/');
    if name.len() == 1 {
        assert(dir + shorter =~= dir);
        assert(name =~= seq![name.last()]);
        if dir.len() > 0 {
            assert(path[path.len() - 2] == dir.last());
        }
    } else {
        if shorter.contains('/') {
            let k = choose|k: int| 0 <= k < shorter.len() && shorter[k] == '/';
            assert(name[k] == '/');
        }
        lemma_name_behind_a_slash(dir, shorter);
        assert(path[path.len() - 2] == name[name.len() - 2]);
        assert(shorter.push(name.last()) =~= name);
        assert(names(dir).push(shorter).drop_last() =~= names(dir));
    }
}

/// A name behind a slash is one component more, and a `.` there is none; the root is a component of
/// its own, and a lone name, a `.` among them, is the only one.
pub proof fn a_name_is_one_component_more(dir: Seq<char>, name: Seq<char>)
    requires
        name.len() > 0,
        !name.contains('/'),
    ensures
        components(Seq::empty()).len() == 0,
        components("/"@) == seq!["/"@],
        components(name) == seq![name],
        dir.len() > 0 && name != "."@ ==> components(dir.push('/') + name) == components(dir).push(name),
        dir.len() > 0 && name == "."@ ==> components(dir.push('/') + name) == components(dir),
{
    reveal_strlit("/");
    reveal_strlit(".");
    reveal_with_fuel(counted, 2);
    reveal_with_fuel(names, 2);
    assert("/"@.drop_last() =~= Seq::<char>::empty());
    assert(components("/"@) =~= seq!["/"@]);
    lemma_name_behind_a_slash(Seq::empty(), name);
    assert(Seq::<char>::empty() + name =~= name);
    assert(names(name) =~= seq![name]);
    assert(seq![name].drop_last() =~= Seq::<Seq<char>>::empty());
    assert(name[0] != '/');
    assert(components(name) =~= seq![name]);
    if dir.len() > 0 {
        let parted = dir.push('/');
        assert(parted.drop_last() =~= dir);
        lemma_name_behind_a_slash(parted, name);
        assert(names(parted) == names(dir));
        let path = parted + name;
        assert(path[0] == dir[0]);
        let all = names(dir).push(name);
        assert(all.drop_last() =~= names(dir));
        if !is_rooted(dir) {
            lemma_some_name(dir);
        }
        if is_rooted(dir) {
            assert(seq!["/"@] + counted(names(dir), true).push(name) =~= (seq!["/"@] + counted(names(dir), true)).push(
                name,
            ));
        }
    }
}

proof fn lemma_some_name(path: Seq<char>)
    requires
        path.len() > 0,
        path[0] != '/',
    ensures
        names(path).len() > 0,
    decreases path.len(),
{
    if path.len() > 1 {
        lemma_some_name(path.drop_last());
    }
}

/// Two texts are one path where their components are the same, and a path lies within another where it
/// begins with all of that one's.
pub proof fn a_path_is_its_components(a: Seq<char>, b: Seq<char>)
    ensures
        same_path(a, b) <==> components(a) == components(b),
        path_within(a, b) <==> components(b).len() <= components(a).len() && components(b) == components(a).take(
            components(b).len() as int,
        ),
        same_path(a, b) <==> path_within(a, b) && path_within(b, a),
{
    if path_within(a, b) {
        assert(components(b) =~= components(a).take(components(b).len() as int));
    }
    if components(b).len() <= components(a).len() && components(b) == components(a).take(components(b).len() as int) {
        assert(components(b) =~= components(a).subrange(0, components(b).len() as int));
    }
    if path_within(a, b) && path_within(b, a) {
        assert(components(a) =~= components(b));
    }
}

} // verus!
