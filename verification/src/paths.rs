//! Telling the primary GPU by its path.
use vstd::prelude::*;
use std::path::Path;

verus! {

/// The stretches of `text` between its slashes.
pub open spec fn stretches(text: Seq<char>) -> Seq<Seq<char>>
    decreases text.len(),
{
    if text.len() == 0 {
        seq![Seq::empty()]
    } else {
        let before = stretches(text.drop_last());
        if text.last() == '/' {
            before.push(Seq::empty())
        } else {
            before.drop_last().push(before.last().push(text.last()))
        }
    }
}

/// What the path `text` leads through: whether it starts at the root, and then its names. Empty
/// stretches and dots for the current directory do not count, except for a leading dot.
pub open spec fn components(text: Seq<char>) -> (bool, Seq<Seq<char>>) {
    let all = stretches(text);
    let dot = seq!['.'];
    let names = all.filter(|stretch: Seq<char>| stretch.len() > 0 && stretch != dot);
    (
        text.len() > 0 && text[0] == '/',
        if all[0] == dot {
            seq![dot] + names
        } else {
            names
        },
    )
}

/// The `==` of `std::path::Path`, for paths of the Unix systems that DRM devices exist on: two
/// paths are the same if they have the same components. Links and `..` are not followed.
#[verifier::external_body]
fn same_path(left: &str, right: &str) -> (same: bool)
    ensures
        same == (components(left@) == components(right@)),
{
    Path::new(left) == Path::new(right)
}

/// The text of a path that may be missing.
pub open spec fn path_text(path: Option<String>) -> Option<Seq<char>> {
    match path {
        Some(path) => Some(path@),
        None => None,
    }
}

/// Whether the device at `path` is the GPU at `primary_gpu`. A missing path is the same as
/// another missing one only.
pub open spec fn names_primary(path: Option<Seq<char>>, primary_gpu: Option<Seq<char>>) -> bool {
    match (path, primary_gpu) {
        (Some(path), Some(primary_gpu)) => components(path) == components(primary_gpu),
        (None, None) => true,
        _ => false,
    }
}

/// Whether the device at `path` is the GPU at `primary_gpu`.
pub fn is_primary(path: &Option<String>, primary_gpu: &Option<String>) -> (primary: bool)
    ensures
        primary == names_primary(path_text(*path), path_text(*primary_gpu)),
{
    match (path, primary_gpu) {
        (Some(path), Some(primary_gpu)) => same_path(path.as_str(), primary_gpu.as_str()),
        (None, None) => true,
        _ => false,
    }
}

/// A GPU is told by its path alone: two paths are that of the same one exactly if they lead through
/// the same components, and a missing path is the same as a missing one only.
pub proof fn gpus_are_told_by_their_paths(
    path: String,
    other: String,
    left: Option<Seq<char>>,
    right: Option<Seq<char>>,
)
    ensures
        path_text(Some(path)) == Some(path@),
        path_text(None) is None,
        names_primary(Some(path@), Some(other@)) <==> components(path@) == components(other@),
        left is None ==> (names_primary(left, right) <==> right is None),
        names_primary(left, right) == names_primary(right, left),
        names_primary(left, left),
{
}

/// Whether `name` can stand between two slashes.
pub open spec fn is_stretch(name: Seq<char>) -> bool {
    forall|i: int| 0 <= i < name.len() ==> #[trigger] name[i] != '/'
}

/// A path that goes on with a slash and a name leads through that name after all others. It leads
/// no further if there is only a slash, or a dot behind it. A name alone starts in the current
/// directory, and a slash alone at the root.
pub proof fn paths_grow_name_by_name(text: Seq<char>, name: Seq<char>)
    requires
        is_stretch(name),
    ensures
        ({
            let grown = text + seq!['/'] + name;
            let counts = name.len() > 0 && name != seq!['.'];
            &&& text.len() > 0 && counts ==> components(grown) == (
                components(text).0,
                components(text).1.push(name),
            )
            &&& text.len() > 0 && !counts ==> components(grown) == components(text)
            &&& text.len() == 0 ==> components(grown) == (
                true,
                if counts {
                    seq![name]
                } else {
                    seq![]
                },
            )
            &&& components(name) == (
                false,
                if name.len() > 0 {
                    seq![name]
                } else {
                    seq![]
                },
            )
        }),
{
    reveal_with_fuel(Seq::filter, 3);
    let dot = seq!['.'];
    let counted = |stretch: Seq<char>| stretch.len() > 0 && stretch != dot;
    let grown = text + seq!['/'] + name;
    let all = stretches(text);
    lemma_stretches_after_slash(text, name);
    lemma_some_stretch(text);
    assert(all.push(name).drop_last() == all);
    assert(text.len() > 0 ==> grown[0] == text[0]);
    if text.len() == 0 {
        assert(grown[0] == '/');
        assert(all.drop_last() == Seq::<Seq<char>>::empty());
    }
    lemma_stretches_of_name(name);
    assert(seq![name].drop_last() == Seq::<Seq<char>>::empty());
    assert(components(name).1 == if name.len() > 0 {
        seq![name]
    } else {
        seq![]
    });
    if text.len() > 0 && counted(name) {
        assert(seq![dot] + all.filter(counted).push(name) == (seq![dot] + all.filter(
            counted,
        )).push(name));
    }
    if text.len() == 0 {
        assert(components(grown).1 == if counted(name) {
            seq![name]
        } else {
            seq![]
        });
    }
}

proof fn lemma_some_stretch(text: Seq<char>)
    ensures
        stretches(text).len() > 0,
    decreases text.len(),
{
    if text.len() > 0 {
        lemma_some_stretch(text.drop_last());
    }
}

proof fn lemma_stretches_after_slash(text: Seq<char>, name: Seq<char>)
    requires
        is_stretch(name),
    ensures
        stretches(text + seq!['/'] + name) == stretches(text).push(name),
    decreases name.len(),
{
    let grown = text + seq!['/'] + name;
    if name.len() == 0 {
        assert(grown.drop_last() == text);
        assert(grown.last() == '/');
        assert(name == Seq::<char>::empty());
    } else {
        let rest = name.drop_last();
        assert(is_stretch(rest));
        lemma_stretches_after_slash(text, rest);
        assert(grown.drop_last() == text + seq!['/'] + rest);
        assert(grown.last() == name[name.len() - 1]);
        assert(rest.push(name.last()) == name);
        assert(stretches(text).push(rest).drop_last() == stretches(text));
    }
}

proof fn lemma_stretches_of_name(name: Seq<char>)
    requires
        is_stretch(name),
    ensures
        stretches(name) == seq![name],
    decreases name.len(),
{
    if name.len() == 0 {
        assert(name == Seq::<char>::empty());
    } else {
        let rest = name.drop_last();
        assert(is_stretch(rest));
        lemma_stretches_of_name(rest);
        assert(name.last() == name[name.len() - 1]);
        assert(rest.push(name.last()) == name);
        assert(seq![rest].drop_last().push(name) == seq![name]);
    }
}

}
