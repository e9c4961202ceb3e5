//! Where the output goes: next to the source, under a name of its own.

use vstd::prelude::*;

verus! {

/// What the output of a file with this stem is called.
pub open spec fn output_name_text(stem: Option<Seq<char>>) -> Seq<char> {
    match stem {
        Some(s) => s + "_discord.mp4"@,
        None => "output_discord.mp4"@,
    }
}

/// The directory of the output, given that of the source.
pub open spec fn output_dir_text(parent: Option<Seq<char>>) -> Seq<char> {
    match parent {
        Some(dir) => dir,
        None => "."@,
    }
}

/// `clip` gives `clip_discord.mp4`; a source without a name gives
/// `output_discord.mp4`.
pub fn output_name(stem: Option<&str>) -> (r: String)
    ensures
        r@ == output_name_text(
            match stem {
                Some(s) => Some(s@),
                None => None,
            },
        ),
{
    match stem {
        Some(s) => {
            let mut name = s.to_owned();
            name.append("_discord.mp4");
            name
        },
        None => "output_discord.mp4".to_owned(),
    }
}

/// The directory of the source, or the current one where it has none.
pub fn output_dir(parent: Option<&str>) -> (r: String)
    ensures
        r@ == output_dir_text(
            match parent {
                Some(s) => Some(s@),
                None => None,
            },
        ),
{
    match parent {
        Some(dir) => dir.to_owned(),
        None => ".".to_owned(),
    }
}

/// `part` occurs in `whole`.
pub open spec fn is_part(part: Seq<char>, whole: Seq<char>) -> bool {
    exists|from: int|
        0 <= from && from + part.len() <= whole.len() && part == #[trigger] whole.subrange(
            from,
            from + part.len(),
        )
}

/// What some platform takes for a separator.
pub open spec fn is_separator(c: char) -> bool {
    c == '/' || c == '\\'
}

/// `part` stands at the end of `whole`.
pub open spec fn is_ending(part: Seq<char>, whole: Seq<char>) -> bool {
    part.len() <= whole.len() && whole.subrange(whole.len() - part.len(), whole.len() as int)
        == part
}

/// A name that every platform reads as a single relative component.
pub open spec fn is_plain_name(name: Seq<char>) -> bool {
    &&& name.len() > 0
    &&& !name.contains('/')
    &&& !name.contains('\\')
    &&& !name.contains(':')
    &&& !(name.len() == 1 && name[0] == '.')
    &&& !(name.len() == 2 && name[0] == '.' && name[1] == '.')
}

/// A path, of a file or of a directory, that no platform reads as a network or
/// a verbatim one.
pub open spec fn is_local(path: Seq<char>) -> bool {
    path.len() >= 2 ==> !(is_separator(path[0]) && is_separator(path[1]))
}

/// A directory that ends neither in a separator nor in a drive.
pub open spec fn is_open_ended(dir: Seq<char>) -> bool {
    dir.len() > 0 && !is_separator(dir.last()) && dir.last() != ':'
}

/// A directory that ends in a name, and not in a lone dot behind another one:
/// that stands for the directory before it.
pub open spec fn ends_in_name(dir: Seq<char>) -> bool {
    &&& is_open_ended(dir)
    &&& dir.last() == '.' && dir.len() > 1 ==> is_open_ended(dir.drop_last())
}

/// A component of a path: a plain name, or the two dots that lead back.
pub open spec fn is_component(name: Seq<char>) -> bool {
    is_plain_name(name) || name == seq!['.', '.']
}

/// `path` is the component `name` in the directory `dir`, on every platform: a
/// bare one, with an empty directory; one in the root; or one behind a
/// directory and a slash.
pub open spec fn is_placed(path: Seq<char>, dir: Seq<char>, name: Seq<char>) -> bool {
    &&& is_component(name)
    &&& is_local(path)
    &&& {
        ||| dir.len() == 0 && path == name
        ||| dir == seq!['/'] && path == dir + name
        ||| ends_in_name(dir) && path == dir.push('/') + name
    }
}

/// `path` is `before`, which is empty or ends in something that some platform
/// takes for a separator, and `name` behind it.
pub open spec fn is_last_piece(path: Seq<char>, before: Seq<char>, name: Seq<char>) -> bool {
    &&& is_plain_name(name)
    &&& is_local(path)
    &&& path == before + name
    &&& before.len() > 0 ==> is_separator(before.last())
}

/// And what stands before it is a separator on every platform.
pub open spec fn is_file_name(path: Seq<char>, before: Seq<char>, name: Seq<char>) -> bool {
    is_last_piece(path, before, name) && (before.len() > 0 ==> before.last() == '/')
}

/// `name` is `stem`, a dot, and an extension with no dot of its own.
pub open spec fn is_split_at_dot(name: Seq<char>, stem: Seq<char>, extension: Seq<char>) -> bool {
    stem.len() > 0 && !extension.contains('.') && name == stem.push('.') + extension
}

/// `stem` is what stands before the last dot of `name`.
pub open spec fn has_extension(stem: Seq<char>, name: Seq<char>) -> bool {
    exists|extension: Seq<char>| #[trigger] is_split_at_dot(name, stem, extension)
}

/// There is no dot in `name`, or none but at the start.
pub open spec fn is_all_stem(name: Seq<char>) -> bool {
    forall|i: int| 1 <= i < name.len() ==> name[i] != '.'
}

/// Behind `before`, the file has the name `name` and the stem `stem`, on every
/// platform. A dot in the last piece settles the stem, whether or not a
/// backslash before it separates; without one, a slash has to.
pub open spec fn has_stem(
    path: Seq<char>,
    before: Seq<char>,
    name: Seq<char>,
    stem: Seq<char>,
) -> bool {
    ||| is_last_piece(path, before, name) && has_extension(stem, name)
    ||| is_file_name(path, before, name) && is_all_stem(name) && stem == name
}

/// `path` leads back from the directory `dir`, on every platform.
pub open spec fn leads_back(path: Seq<char>, dir: Seq<char>) -> bool {
    is_placed(path, dir, seq!['.', '.'])
}

/// `path` names no file, on every platform: it is empty or the root, or leads
/// back to a directory.
pub open spec fn is_dead_end(path: Seq<char>) -> bool {
    ||| is_top(path)
    ||| exists|dir: Seq<char>| #[trigger] leads_back(path, dir)
}

/// A path with nothing above it.
pub open spec fn is_top(path: Seq<char>) -> bool {
    path.len() == 0 || path == seq!['/']
}

/// `path` is `name` behind a separator behind `dir`.
pub open spec fn is_behind(path: Seq<char>, dir: Seq<char>, name: Seq<char>) -> bool {
    exists|separator: char| is_separator(separator) && path == #[trigger] dir.push(separator) + name
}

/// `path` is `name` inside `dir`: alone where the directory is empty, behind a
/// separator where it ends in a name. Behind a separator or a drive that the
/// directory itself ends in, another separator may stand or not.
pub open spec fn is_inside(path: Seq<char>, dir: Seq<char>, name: Seq<char>) -> bool {
    if dir.len() == 0 {
        path == name
    } else if is_open_ended(dir) {
        is_behind(path, dir, name)
    } else {
        path == dir + name || is_behind(path, dir, name)
    }
}

/// What is found for a stem is there where the path names a file on every
/// platform, and ends as the stem does; behind a slash it is the stem. It is not
/// there where the path names none.
pub open spec fn is_its_stem(found: Option<String>, path: Seq<char>) -> bool {
    &&& forall|before: Seq<char>, name: Seq<char>, stem: Seq<char>|
        #[trigger] has_stem(path, before, name, stem) ==> (found matches Some(s) && is_ending(
            stem,
            s@,
        ) && (is_file_name(path, before, name) ==> s@ == stem))
    &&& is_dead_end(path) ==> found is None
}

/// What is found for a parent is the directory, where every platform splits the
/// path alike, and there is none above the top.
pub open spec fn is_its_parent(found: Option<String>, path: Seq<char>) -> bool {
    &&& forall|dir: Seq<char>, name: Seq<char>|
        #[trigger] is_placed(path, dir, name) ==> (found matches Some(d) && d@ == dir)
    &&& is_top(path) ==> found is None
}

/// What is found for the extension is what stands behind the last dot.
pub open spec fn is_its_extension(found: Option<String>, path: Seq<char>) -> bool {
    &&& forall|before: Seq<char>, name: Seq<char>, stem: Seq<char>, extension: Seq<char>|
        #[trigger] is_last_piece(path, before, name) && #[trigger] is_split_at_dot(
            name,
            stem,
            extension,
        ) ==> (found matches Some(e) && e@ == extension)
    &&& forall|before: Seq<char>, name: Seq<char>|
        #[trigger] is_file_name(path, before, name) && is_all_stem(name) ==> found is None
    &&& is_dead_end(path) ==> found is None
}

/// What is left without the extension is the path up to its stem's end.
pub open spec fn is_its_beginning(left: Seq<char>, path: Seq<char>) -> bool {
    forall|before: Seq<char>, name: Seq<char>, stem: Seq<char>|
        #[trigger] has_stem(path, before, name, stem) ==> left == before + stem
}

/// Calls `std::path::Path::file_stem`: the final component without its
/// extension, if there is a final component. Where a backslash leaves open how
/// far back that component reaches, it is said how the stem ends; of any path,
/// that a stem is a part of it.
#[verifier::external_body]
fn file_stem(path: &str) -> (r: Option<String>)
    ensures
        r matches Some(s) ==> is_part(s@, path@),
        is_its_stem(r, path@),
{
    match std::path::Path::new(path).file_stem() {
        Some(stem) => Some(stem.to_string_lossy().into_owned()),
        None => None,
    }
}

/// Calls `std::path::Path::extension`: what follows the last dot of the final
/// component, but for a dot at its start. Of a path that platforms split
/// differently, only that an extension is a part of it.
#[verifier::external_body]
pub(crate) fn file_extension(path: &str) -> (r: Option<String>)
    ensures
        r matches Some(e) ==> is_part(e@, path@),
        is_its_extension(r, path@),
{
    match std::path::Path::new(path).extension() {
        Some(extension) => Some(extension.to_string_lossy().into_owned()),
        None => None,
    }
}

/// Calls `std::path::PathBuf::set_extension` with nothing: takes the extension
/// and its dot away from the end of the path, and leaves the rest as it is. Of a
/// path that platforms split differently, only that a beginning of it is left.
#[verifier::external_body]
fn without_extension(path: &str) -> (r: String)
    ensures
        r@.is_prefix_of(path@),
        is_its_beginning(r@, path@),
{
    let mut left = std::path::PathBuf::from(path);
    left.set_extension("");
    left.to_string_lossy().into_owned()
}

/// Calls `std::path::Path::parent`: the path without its final component, if
/// there is one. Of a path that platforms split differently, only that a parent
/// is a beginning of it.
#[verifier::external_body]
fn parent_dir(path: &str) -> (r: Option<String>)
    ensures
        r matches Some(dir) ==> dir@.is_prefix_of(path@),
        is_its_parent(r, path@),
{
    match std::path::Path::new(path).parent() {
        Some(dir) => Some(dir.to_string_lossy().into_owned()),
        None => None,
    }
}

/// Calls `std::path::Path::join`: a plain name is adjoined to the directory. A
/// name that is itself absolute or has a drive replaces the directory, and a
/// verbatim directory is normalized; of those nothing is claimed.
#[verifier::external_body]
fn join(dir: &str, name: &str) -> (r: String)
    ensures
        is_plain_name(name@) && is_local(dir@) ==> is_inside(r@, dir@, name@),
{
    std::path::Path::new(dir).join(name).to_string_lossy().into_owned()
}

/// `out` is where the output of a source without a name goes: into the
/// directory above it, or the current one.
pub open spec fn is_nameless_output(out: Seq<char>, parent: Option<Seq<char>>) -> bool {
    is_local(output_dir_text(parent)) ==> is_inside(
        out,
        output_dir_text(parent),
        output_name_text(None),
    )
}

/// `clip.mp4` gives `clip_discord.mp4`, alongside the source: what stands before
/// the name stays, and the stem gets the suffix. A path that names no file gets
/// `output_discord.mp4` in the directory above. A path that platforms split
/// differently gets the one or the other: the suffix behind a beginning of it,
/// or `output_discord.mp4` inside one.
pub fn output_path(input: &str) -> (r: String)
    ensures
        forall|before: Seq<char>, name: Seq<char>, stem: Seq<char>|
            #[trigger] has_stem(input@, before, name, stem) ==> {
                &&& r@ == before + output_name_text(Some(stem))
                &&& r@ != input@
            },
        forall|dir: Seq<char>|
            #[trigger] leads_back(input@, dir) ==> is_inside(
                r@,
                dir,
                output_name_text(None),
            ),
        is_top(input@) ==> is_inside(r@, "."@, output_name_text(None)),
        (exists|beginning: Seq<char>|
            #[trigger] beginning.is_prefix_of(input@) && r@ == output_name_text(Some(beginning)))
            || (exists|parent: Option<Seq<char>>|
            #[trigger] is_nameless_output(r@, parent) && (parent matches Some(d)
                ==> d.is_prefix_of(input@))),
{
    proof {
        reveal_strlit("output_discord.mp4");
        reveal_strlit(".");
    }
    match file_stem(input) {
        Some(_) => {
            let beginning = without_extension(input);
            let out = output_name(Some(beginning.as_str()));
            proof {
                assert forall|before: Seq<char>, name: Seq<char>, stem: Seq<char>|
                    #[trigger] has_stem(input@, before, name, stem) implies {
                    &&& out@ == before + output_name_text(Some(stem))
                    &&& out@ != input@
                } by {
                    assert(before + stem + "_discord.mp4"@ =~= before + (stem + "_discord.mp4"@));
                    law_original_left_alone(input@, before, name, stem);
                }
                assert forall|dir: Seq<char>|
                    #[trigger] leads_back(input@, dir) implies is_inside(
                    out@,
                    dir,
                    output_name_text(None),
                ) by {
                    assert(is_dead_end(input@));
                }
                assert(!is_top(input@));
                assert(beginning@.is_prefix_of(input@));
            }
            out
        },
        None => {
            let parent = parent_dir(input);
            let name = output_name(None);
            let dir = match &parent {
                Some(d) => output_dir(Some(d.as_str())),
                None => output_dir(None),
            };
            let out = join(dir.as_str(), name.as_str());
            proof {
                let parent_text: Option<Seq<char>> = match parent {
                    Some(d) => Some(d@),
                    None => None,
                };
                assert(is_plain_name(output_name_text(None)));
                assert(is_nameless_output(out@, parent_text));
                assert forall|d: Seq<char>|
                    #[trigger] leads_back(input@, d) implies is_inside(
                    out@,
                    d,
                    output_name_text(None),
                ) by {
                    if d.len() >= 2 {
                        assert(input@[0] == d[0] && input@[1] == d[1]);
                    }
                }
            }
            out
        },
    }
}

/// The original is left alone: the output stands beside the source, behind the
/// same beginning, and under another name.
pub proof fn law_original_left_alone(
    input: Seq<char>,
    before: Seq<char>,
    name: Seq<char>,
    stem: Seq<char>,
)
    requires
        has_stem(input, before, name, stem),
    ensures
        is_last_piece(input, before, name),
        is_plain_name(output_name_text(Some(stem))),
        output_name_text(Some(stem)) != name,
        before + output_name_text(Some(stem)) != input,
{
    reveal_strlit("_discord.mp4");
    let fresh = output_name_text(Some(stem));
    assert(fresh.len() == stem.len() + 12 && fresh[stem.len() as int] == '_');
    if has_extension(stem, name) {
        let extension = choose|extension: Seq<char>| #[trigger]
            is_split_at_dot(name, stem, extension);
        assert(name[stem.len() as int] == '.');
        assert(forall|i: int| 0 <= i < stem.len() ==> name[i] == stem[i]);
    }
    assert forall|i: int| 0 <= i < fresh.len() implies fresh[i] != '/' && fresh[i] != '\\'
        && fresh[i] != ':' by {
        if i < stem.len() {
            assert(fresh[i] == name[i]);
        } else {
            assert(fresh[i] == "_discord.mp4"@[i - stem.len()]);
        }
    }
    let at = before.len() as int;
    let out = before + fresh;
    if out == input {
        assert(out.subrange(at, out.len() as int) =~= fresh);
        assert(input.subrange(at, input.len() as int) =~= name);
    }
}

/// Sources with different stems get different outputs.
pub proof fn law_outputs_are_distinct(a: Seq<char>, b: Seq<char>)
    requires
        output_name_text(Some(a)) == output_name_text(Some(b)),
    ensures
        a == b,
{
    reveal_strlit("_discord.mp4");
    let x = output_name_text(Some(a));
    let y = output_name_text(Some(b));
    assert(a.len() == x.len() - 12 && b.len() == y.len() - 12);
    assert(a =~= x.subrange(0, a.len() as int));
    assert(b =~= y.subrange(0, b.len() as int));
}

/// Every ordinary path is covered. Whatever stands before the name and ends in a
/// slash or a backslash, and whatever the stem and the extension are, the output
/// is the same path with the stem's suffix in place of the extension; without an
/// extension it is the path itself with the suffix.
pub proof fn law_ordinary_paths_have_a_stem(
    before: Seq<char>,
    stem: Seq<char>,
    extension: Seq<char>,
)
    requires
        stem.len() > 0,
        before.len() > 0 ==> before.last() == '/' || before.last() == '\\',
        before.len() > 1 ==> !((before[0] == '/' || before[0] == '\\') && (before[1] == '/'
            || before[1] == '\\')),
        forall|i: int|
            0 <= i < stem.len() ==> #[trigger] stem[i] != '/' && stem[i] != '\\' && stem[i] != ':',
        forall|i: int|
            0 <= i < extension.len() ==> #[trigger] extension[i] != '/' && extension[i] != '\\'
                && extension[i] != ':' && extension[i] != '.',
        !(stem == seq!['.'] && extension.len() == 0),
    ensures
        has_stem(
            before + (stem.push('.') + extension),
            before,
            stem.push('.') + extension,
            stem,
        ),
        (before.len() == 0 || before.last() == '/') && !stem.contains('.') ==> has_stem(
            before + stem,
            before,
            stem,
            stem,
        ),
        before + output_name_text(Some(stem)) == before + stem + "_discord.mp4"@,
        output_name_text(None) == "output_discord.mp4"@,
        output_dir_text(None) == "."@,
{
    let name = stem.push('.') + extension;
    let path = before + name;
    assert(before + output_name_text(Some(stem)) =~= before + stem + "_discord.mp4"@);
    assert(!extension.contains('.'));
    assert(is_split_at_dot(name, stem, extension));
    assert forall|i: int| 0 <= i < name.len() implies name[i] != '/' && name[i] != '\\' && name[i]
        != ':' by {
        if i < stem.len() {
            assert(name[i] == stem[i]);
        } else if i > stem.len() {
            assert(name[i] == extension[i - stem.len() - 1]);
        }
    }
    if name.len() == 2 && name[0] == '.' && name[1] == '.' {
        assert(stem.len() == 1);
        assert(stem[0] == name[0]);
        assert(stem =~= seq!['.']);
    }
    assert(is_plain_name(name));
    assert(is_local(path)) by {
        assert(path[0] == if before.len() > 0 {
            before[0]
        } else {
            name[0]
        });
        assert(path[1] == if before.len() > 1 {
            before[1]
        } else {
            name[1 - before.len()]
        });
    }
    if (before.len() == 0 || before.last() == '/') && !stem.contains('.') {
        let bare = before + stem;
        assert(is_plain_name(stem)) by {
            if stem[0] == '.' {
                assert(stem.contains('.'));
            }
        }
        assert(is_local(bare)) by {
            if bare.len() >= 2 {
                assert(bare[0] == path[0]);
                if before.len() + stem.len() >= 2 {
                    assert(bare[1] == path[1] || bare[1] == stem[1 - before.len()]);
                }
            }
        }
        assert(is_all_stem(stem)) by {
            assert forall|i: int| 1 <= i < stem.len() implies stem[i] != '.' by {
                if stem[i] == '.' {
                    assert(stem.contains('.'));
                }
            }
        }
        assert(is_file_name(bare, before, stem));
    }
}

} // verus!
