//! Where an archive member lands: prefix stripping of member paths, and the
//! directory name of a project.

use vstd::prelude::*;

verus! {

/// The components of a path, each by its view.
pub open spec fn components_of(path: Seq<String>) -> Seq<Seq<char>> {
    Seq::new(path.len(), |i: int| path[i]@)
}

/// What is left of a path once its first `strip_count` components are
/// dropped; nothing where no component is left.
pub open spec fn stripped(path: Seq<Seq<char>>, strip_count: nat) -> Option<Seq<Seq<char>>> {
    if strip_count >= path.len() {
        None
    } else {
        Some(path.skip(strip_count as int))
    }
}

/// Drops the first `strip_count` components of a member's path. `None` tells
/// the caller to skip the member: its whole path was stripped away.
pub fn apply(entry_path: &Vec<String>, strip_count: usize) -> (r: Option<Vec<String>>)
    ensures
        match r {
            Some(rest) => stripped(components_of(entry_path@), strip_count as nat) == Some(
                components_of(rest@),
            ),
            None => stripped(components_of(entry_path@), strip_count as nat).is_none(),
        },
        r matches Some(rest) ==> rest@.len() == entry_path@.len() - strip_count && forall|j: int|
            0 <= j < rest@.len() ==> (#[trigger] rest@[j])@ == entry_path@[strip_count + j]@,
        strip_count >= entry_path@.len() ==> r.is_none(),
        strip_count == 0 && entry_path@.len() > 0 ==> r.is_some() && components_of(r.unwrap()@)
            == components_of(entry_path@),
{
    let n: usize = entry_path.len();
    if strip_count >= n {
        return None;
    }
    let mut rest: Vec<String> = Vec::new();
    let mut i: usize = strip_count;
    while i < n
        invariant
            n == entry_path@.len(),
            strip_count <= i <= n,
            rest@.len() == i - strip_count,
            forall|j: int| 0 <= j < rest@.len() ==> (#[trigger] rest@[j])@ == entry_path@[j + strip_count]@,
        decreases n - i,
    {
        rest.push(entry_path[i].clone());
        i = i + 1;
    }
    proof {
        assert(components_of(rest@) =~= components_of(entry_path@).skip(strip_count as int));
        if strip_count == 0 {
            assert(components_of(entry_path@).skip(0) =~= components_of(entry_path@));
        }
    }
    Some(rest)
}

/// What `std::path::Path::with_extension` makes of a path and an extension,
/// both taken as text, under the path syntax that the library is built for.
pub uninterp spec fn path_with_extension(path: Seq<char>, extension: Seq<char>) -> Seq<char>;

/// Calls `std::path::Path::with_extension` and hands the new path out as
/// text. Trusted: the result depends on the two texts alone; nothing is
/// claimed about what it is. The extension must hold no path separator, on
/// which the std function panics.
#[verifier::external_body]
pub(crate) fn with_extension(path: &str, extension: &str) -> (r: String)
    requires
        forall|i: int|
            0 <= i < extension@.len() ==> extension@[i] != '/' && extension@[i] != '\\',
    ensures
        r@ == path_with_extension(path@, extension@),
{
    std::path::Path::new(path).with_extension(extension).to_string_lossy().into_owned()
}

/// The place just behind the last `/` of a name, or zero where it has none.
pub open spec fn basename_start(name: Seq<char>) -> int
    decreases name.len(),
{
    if name.len() == 0 {
        0
    } else if name.last() == '/' {
        name.len() as int
    } else {
        basename_start(name.drop_last())
    }
}

/// The directory name of a project: what follows the last `/` of its name.
/// A name without `/`, and one that ends in `/`, is its own directory name.
pub open spec fn dir_name_of(name: Seq<char>) -> Seq<char> {
    if basename_start(name) == name.len() {
        name
    } else {
        name.skip(basename_start(name))
    }
}

/// `basename_start` is the place behind the last `/`: a `/` stands just before
/// it unless it is zero, and none stands at or after it.
pub proof fn lemma_basename_start(name: Seq<char>)
    ensures
        0 <= basename_start(name) <= name.len(),
        basename_start(name) > 0 ==> name[basename_start(name) - 1] == '/',
        forall|j: int| basename_start(name) <= j < name.len() ==> name[j] != '/',
    decreases name.len(),
{
    if name.len() > 0 && name.last() != '/' {
        let head = name.drop_last();
        lemma_basename_start(head);
        assert forall|j: int| basename_start(name) <= j < name.len() implies name[j] != '/' by {
            if j < head.len() {
                assert(head[j] == name[j]);
            }
        }
        if basename_start(name) > 0 {
            assert(head[basename_start(name) - 1] == name[basename_start(name) - 1]);
        }
    }
}

/// The name of the directory that a project is extracted into.
pub fn project_dir_name(project_name: &str) -> (r: String)
    ensures
        r@ == dir_name_of(project_name@),
        (forall|j: int| 0 <= j < project_name@.len() ==> project_name@[j] != '/') ==> r@
            == project_name@,
        project_name@.len() > 0 && project_name@.last() == '/' ==> r@ == project_name@,
        forall|k: int|
            0 <= k < project_name@.len() - 1 && project_name@[k] == '/' && (forall|j: int|
                k < j < project_name@.len() ==> project_name@[j] != '/') ==> r@
                == project_name@.skip(k + 1),
{
    proof {
        lemma_basename_start(project_name@);
        if basename_start(project_name@) == 0 {
            assert(project_name@.skip(0) =~= project_name@);
        }
    }
    let n: usize = project_name.unicode_len();
    let mut i: usize = n;
    let mut found: bool = false;
    proof {
        assert(project_name@.take(n as int) =~= project_name@);
    }
    while i > 0 && !found
        invariant
            n == project_name@.len(),
            i <= n,
            basename_start(project_name@) == basename_start(project_name@.take(i as int)),
            found ==> i > 0 && project_name@[i - 1] == '/',
        decreases i + (if found { 0int } else { 1int }),
    {
        let c: char = project_name.get_char(i - 1);
        if c == '/' {
            found = true;
        } else {
            proof {
                assert(project_name@.take(i as int).drop_last() =~= project_name@.take(i - 1));
            }
            i = i - 1;
        }
    }
    proof {
        assert(project_name@.take(i as int).len() == i);
        if found {
            assert(project_name@.take(i as int).last() == '/');
        }
    }
    if i == n {
        project_name.to_owned()
    } else {
        project_name.substring_char(i, n).to_owned()
    }
}

} // verus!
