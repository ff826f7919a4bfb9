use vstd::prelude::*;

use crate::text::{join_chars, join_with, lemma_split_on_nonempty, split_chars, split_on};

verus! {

/// The views of a list of character vectors.
pub open spec fn views(pieces: Seq<Vec<char>>) -> Seq<Seq<char>> {
    pieces.map_values(|p: Vec<char>| p@)
}

/// One step of resolving a relative path: empty and `.` components stay put, `..` leaves the
/// last directory (there must be one), any other component enters a directory.
pub open spec fn step_component(stack: Option<Seq<Seq<char>>>, component: Seq<char>) -> Option<
    Seq<Seq<char>>,
> {
    match stack {
        None => None,
        Some(directories) => if component.len() == 0 || component == seq!['.'] {
            Some(directories)
        } else if component == seq!['.', '.'] {
            if directories.len() == 0 {
                None
            } else {
                Some(directories.drop_last())
            }
        } else {
            Some(directories.push(component))
        },
    }
}

/// The components reached by applying relative components, in order, to a starting list.
pub open spec fn apply_components(start: Seq<Seq<char>>, components: Seq<Seq<char>>) -> Option<
    Seq<Seq<char>>,
>
    decreases components.len(),
{
    if components.len() == 0 {
        Some(start)
    } else {
        step_component(apply_components(start, components.drop_last()), components.last())
    }
}

/// The `/`-separated path that a relative destination reaches from the directory of a current
/// `/`-separated path, or none when it leaves the top or reaches nothing.
pub open spec fn relative_target(current: Seq<char>, destination: Seq<char>) -> Option<Seq<char>> {
    match apply_components(split_on(current, '/').drop_last(), split_on(destination, '/')) {
        Some(components) => if components.len() > 0 {
            Some(join_with(components, seq!['/']))
        } else {
            None
        },
        None => None,
    }
}

fn is_single(component: &Vec<char>, c: char) -> (single: bool)
    ensures
        single == (component@ == seq![c]),
{
    if component.len() == 1 && component[0] == c {
        assert(component@ =~= seq![c]);
        true
    } else {
        false
    }
}

fn is_parent_marker(component: &Vec<char>) -> (parent: bool)
    ensures
        parent == (component@ == seq!['.', '.']),
{
    if component.len() == 2 && component[0] == '.' && component[1] == '.' {
        assert(component@ =~= seq!['.', '.']);
        true
    } else {
        false
    }
}

/// Resolves a relative destination from the directory of a current path.
pub fn resolve_relative(current: &[char], destination: &[char]) -> (target: Option<Vec<char>>)
    ensures
        target matches Some(t) ==> relative_target(current@, destination@) == Some(t@),
        target is None ==> relative_target(current@, destination@) is None,
{
    let mut stack = split_chars(current, '/');
    proof {
        lemma_split_on_nonempty(current@, '/');
    }
    let ghost base = split_on(current@, '/').drop_last();
    stack.pop();
    assert(views(stack@) =~= base);
    let components = split_chars(destination, '/');
    let ghost comps = split_on(destination@, '/');
    assert(views(components@) =~= comps);
    let mut index: usize = 0;
    assert(comps.take(0) =~= Seq::<Seq<char>>::empty());
    while index < components.len()
        invariant
            index <= components@.len(),
            views(components@) == comps,
            comps == split_on(destination@, '/'),
            base == split_on(current@, '/').drop_last(),
            apply_components(base, comps.take(index as int)) == Some(views(stack@)),
        decreases components@.len() - index,
    {
        proof {
            assert(comps.take(index + 1).drop_last() =~= comps.take(index as int));
            assert(comps.take(index + 1).last() == components@[index as int]@);
        }
        let component = &components[index];
        if component.len() == 0 || is_single(component, '.') {
        } else if is_parent_marker(component) {
            if stack.len() == 0 {
                proof {
                    assert(apply_components(base, comps.take(index + 1)) is None);
                    lemma_apply_none_stays(base, comps, index as int + 1);
                    assert(apply_components(base, comps) is None);
                }
                return None;
            }
            stack.pop();
        } else {
            stack.push(component.clone());
        }
        index = index + 1;
        assert(views(stack@) =~= apply_components(base, comps.take(index as int))->Some_0);
    }
    assert(comps.take(comps.len() as int) =~= comps);
    if stack.len() == 0 {
        return None;
    }
    let joined = join_chars(&stack, '/');
    Some(joined)
}

/// Once resolution leaves the top, no later component brings it back.
proof fn lemma_apply_none_stays(start: Seq<Seq<char>>, components: Seq<Seq<char>>, upto: int)
    requires
        0 <= upto <= components.len(),
        apply_components(start, components.take(upto)) is None,
    ensures
        apply_components(start, components) is None,
    decreases components.len() - upto,
{
    if upto < components.len() {
        assert(components.take(upto + 1).drop_last() =~= components.take(upto));
        lemma_apply_none_stays(start, components, upto + 1);
    } else {
        assert(components.take(upto) =~= components);
    }
}

} // verus!

verus! {

/// The last normal component of a `/`-separated path, as `Path::file_name` gives it: empty
/// and `.` pieces are skipped, and a path that ends in `..` has none.
pub open spec fn last_normal(pieces: Seq<Seq<char>>) -> Option<Seq<char>>
    decreases pieces.len(),
{
    if pieces.len() == 0 {
        None
    } else if pieces.last().len() == 0 || pieces.last() == seq!['.'] {
        last_normal(pieces.drop_last())
    } else if pieces.last() == seq!['.', '.'] {
        None
    } else {
        Some(pieces.last())
    }
}

/// The file name of a path.
pub open spec fn file_name(path: Seq<char>) -> Option<Seq<char>> {
    last_normal(split_on(path, '/'))
}

/// The file name of a path.
pub fn file_name_of(path: &str) -> (name: Option<Vec<char>>)
    ensures
        name matches Some(n) ==> file_name(path@) == Some(n@),
        name is None ==> file_name(path@) is None,
{
    let chars = crate::text::chars_of(path);
    let mut pieces = split_chars(chars.as_slice(), '/');
    let ghost all = split_on(path@, '/');
    assert(views(pieces@) =~= all);
    let mut count = pieces.len();
    assert(all.take(all.len() as int) =~= all);
    while count > 0
        invariant
            count <= pieces@.len(),
            views(pieces@) == all,
            all == split_on(path@, '/'),
            last_normal(all) == last_normal(all.take(count as int)),
        decreases count,
    {
        let piece = &pieces[count - 1];
        proof {
            assert(all.take(count as int).last() == piece@);
            assert(all.take(count as int).drop_last() =~= all.take(count - 1));
        }
        if piece.len() == 0 || is_single(piece, '.') {
            count = count - 1;
        } else if is_parent_marker(piece) {
            return None;
        } else {
            let name = piece.clone();
            assert(name@ =~= piece@);
            return Some(name);
        }
    }
    assert(all.take(0) =~= Seq::<Seq<char>>::empty());
    None
}

/// Whether a name is hidden: it starts with `.`.
pub open spec fn is_hidden_name(name: Seq<char>) -> bool {
    name.len() > 0 && name[0] == '.'
}

/// The extension of a file name, as `Path::extension` gives it: the text after its last `.`,
/// unless that `.` starts the name.
pub open spec fn extension_of_name(name: Seq<char>) -> Option<Seq<char>> {
    match crate::markdown::last_dot(name) {
        Some(dot) => if dot > 0 {
            Some(name.skip(dot + 1))
        } else {
            None
        },
        None => None,
    }
}

/// The extension of a path's file name.
pub open spec fn extension(path: Seq<char>) -> Option<Seq<char>> {
    match file_name(path) {
        Some(name) => extension_of_name(name),
        None => None,
    }
}

/// The extension of a file name, by the range of the name it occupies.
pub fn extension_range(name: &[char]) -> (range: Option<usize>)
    ensures
        range matches Some(from) ==> from <= name@.len() && extension_of_name(name@) == Some(
            name@.skip(from as int),
        ),
        range is None ==> extension_of_name(name@) is None,
{
    let mut index: usize = name.len();
    assert(name@.take(name@.len() as int) =~= name@);
    while index > 0 && name[index - 1] != '.'
        invariant
            index <= name@.len(),
            crate::markdown::last_dot(name@) == crate::markdown::last_dot(name@.take(index as int)),
        decreases index,
    {
        assert(name@.take(index as int).drop_last() =~= name@.take(index - 1));
        index = index - 1;
    }
    if index <= 1 {
        if index == 0 {
            assert(name@.take(0) =~= Seq::<char>::empty());
        } else {
            assert(crate::markdown::last_dot(name@.take(1)) == Some(0int));
        }
        return None;
    }
    assert(crate::markdown::last_dot(name@.take(index as int)) == Some(index - 1));
    Some(index)
}

/// The path that a `/`-separated path is below a root by, as `Path::strip_prefix` gives it for
/// normalized absolute paths: empty for the root itself, none outside it.
pub open spec fn relative_to(root: Seq<char>, path: Seq<char>) -> Option<Seq<char>> {
    if path == root {
        Some(Seq::empty())
    } else if root == seq!['/'] && path.len() > 0 && path[0] == '/' {
        Some(path.skip(1))
    } else if path.len() > root.len() && path.take(root.len() as int) == root && path[root.len() as int]
        == '/' {
        Some(path.skip(root.len() as int + 1))
    } else {
        None
    }
}

/// The path of a normalized absolute path below a root.
pub fn relative_path(root: &str, path: &str) -> (relative: Option<String>)
    ensures
        relative matches Some(r) ==> relative_to(root@, path@) == Some(r@),
        relative is None ==> relative_to(root@, path@) is None,
{
    let r = crate::text::chars_of(root);
    let p = crate::text::chars_of(path);
    if crate::text::chars_equal(r.as_slice(), p.as_slice()) {
        return Some(String::new());
    }
    if r.len() == 1 && r[0] == '/' && p.len() > 0 && p[0] == '/' {
        assert(r@ =~= seq!['/']);
        return Some(crate::text::string_of_range(p.as_slice(), 1, p.len()));
    }
    if p.len() > r.len() && crate::text::matches_at(p.as_slice(), r.as_slice(), 0) && p[r.len()]
        == '/' {
        proof {
            assert(p@.subrange(0, r@.len() as int) =~= p@.take(r@.len() as int));
            if r@ == seq!['/'] {
                assert(p@[0] == '/');
            }
        }
        return Some(crate::text::string_of_range(p.as_slice(), r.len() + 1, p.len()));
    }
    proof {
        if r@ == seq!['/'] && p@.len() > 0 {
            assert(r@.len() == 1 && r@[0] == '/');
        }
        if p@.len() > r@.len() && p@.take(r@.len() as int) == r@ {
            assert(p@.subrange(0, r@.len() as int) =~= p@.take(r@.len() as int));
        }
    }
    None
}

/// The parent of a normalized absolute path: the text before its last `/`, or the root.
pub open spec fn parent_of(path: Seq<char>) -> Option<Seq<char>> {
    match last_slash(path) {
        Some(slash) => if path == seq!['/'] {
            None
        } else if slash == 0 {
            Some(seq!['/'])
        } else {
            Some(path.take(slash))
        },
        None => None,
    }
}

/// The index of the last `/` of a text.
pub open spec fn last_slash(path: Seq<char>) -> Option<int>
    decreases path.len(),
{
    if path.len() == 0 {
        None
    } else if path.last() == '/' {
        Some(path.len() - 1)
    } else {
        last_slash(path.drop_last())
    }
}

pub proof fn lemma_last_slash(path: Seq<char>)
    ensures
        last_slash(path) matches Some(i) ==> 0 <= i < path.len() && path[i] == '/',
    decreases path.len(),
{
    if path.len() > 0 && path.last() != '/' {
        lemma_last_slash(path.drop_last());
    }
}

/// The parent of a normalized absolute path.
pub fn parent_path(path: &str) -> (parent: Option<String>)
    ensures
        parent matches Some(p) ==> parent_of(path@) == Some(p@),
        parent is None ==> parent_of(path@) is None,
{
    let chars = crate::text::chars_of(path);
    let mut index: usize = chars.len();
    assert(chars@.take(chars@.len() as int) =~= chars@);
    while index > 0 && chars[index - 1] != '/'
        invariant
            index <= chars@.len(),
            chars@ == path@,
            last_slash(path@) == last_slash(chars@.take(index as int)),
        decreases index,
    {
        assert(chars@.take(index as int).drop_last() =~= chars@.take(index - 1));
        index = index - 1;
    }
    if index == 0 {
        assert(chars@.take(0) =~= Seq::<char>::empty());
        return None;
    }
    assert(last_slash(path@) == Some(index - 1));
    if chars.len() == 1 {
        assert(path@ =~= seq!['/']);
        return None;
    }
    if index == 1 {
        let mut root = String::new();
        crate::text::push_char(&mut root, '/');
        assert(root@ =~= seq!['/']);
        proof {
            if path@ == seq!['/'] {
                assert(path@.len() == 1);
            }
        }
        return Some(root);
    }
    proof {
        if path@ == seq!['/'] {
            assert(path@.len() == 1);
        }
    }
    Some(crate::text::string_of_range(chars.as_slice(), 0, index - 1))
}

} // verus!
