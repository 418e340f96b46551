//! Which filesystem changes concern the Harness panel.
//!
//! The file tree reacts to every create and remove, but the Harness panel only
//! depends on conventional skill and instruction roots. Treating an editor's
//! temp-file rename as a Harness change would restart discovery on every save.

use crate::labels::{last_position, lemma_last_position};
use crate::text::{
    chars_of, has_prefix, law_a_prefix_is_followed_by_the_rest, same_text, slashed, starts_with,
    text_of, with_slashes,
};
use vstd::prelude::*;

verus! {

/// `c` in lower case if it is an ASCII letter.
pub open spec fn ascii_lower(c: char) -> char {
    if 'A' <= c && c <= 'Z' {
        ((c as u8 + 32) as u8) as char
    } else {
        c
    }
}

/// `text` with slashes for backslashes and without upper-case ASCII letters.
pub open spec fn normalized(text: Seq<char>) -> Seq<char> {
    with_slashes(text).map_values(|c: char| ascii_lower(c))
}

/// The number of slashes in `text`.
pub open spec fn slashes(text: Seq<char>) -> nat
    decreases text.len(),
{
    if text.len() == 0 {
        0
    } else {
        slashes(text.drop_last()) + (if text.last() == '/' {
            1nat
        } else {
            0
        })
    }
}

/// The number of components of a relative path.
pub open spec fn depth(path: Seq<char>) -> nat {
    slashes(path) + 1
}

/// The last component of a relative path.
pub open spec fn last_component(path: Seq<char>) -> Seq<char> {
    path.skip(last_position(path, '/') + 1)
}

/// The position of the first slash in `text`, or its length.
pub open spec fn first_slash(text: Seq<char>) -> nat
    decreases text.len(),
{
    if text.len() == 0 {
        0
    } else if text[0] == '/' {
        0
    } else {
        first_slash(text.skip(1)) + 1
    }
}

/// The first component of a relative path.
pub open spec fn first_component(path: Seq<char>) -> Seq<char> {
    path.take(first_slash(path) as int)
}

/// Whether a change at `within`, a path inside a skill root, can add, remove or
/// change a skill.
pub open spec fn affects_skills(within: Seq<char>, is_directory: bool) -> bool {
    let name = last_component(within);
    ||| depth(within) <= 4 && name == "skill.md"@
    ||| depth(within) <= 3 && is_directory
    ||| depth(within) <= 4 && (name == "scripts"@ || name == "references"@ || name == "assets"@)
}

/// Whether a change at `within`, a path inside an instruction root, can add,
/// remove or change an instruction.
pub open spec fn affects_instructions(
    within: Seq<char>,
    is_instruction: bool,
    is_directory: bool,
) -> bool {
    let first = first_component(within);
    let nested = first == "rules"@ || first == "instructions"@ || first == "memories"@;
    ||| depth(within) == 1 && (nested || is_instruction)
    ||| nested && depth(within) <= 3 && is_instruction
    ||| nested && depth(within) == 2 && is_directory
}

/// Whether `path` is `root` or a directory above it.
pub open spec fn covers(path: Seq<char>, root: Seq<char>) -> bool {
    starts_with(root, path.push('/')) || path == root
}

/// Whether `path` lies inside `root`.
pub open spec fn lies_in(path: Seq<char>, root: Seq<char>) -> bool {
    starts_with(path, root.push('/'))
}

/// The part of `path` inside `root`.
pub open spec fn inside(path: Seq<char>, root: Seq<char>) -> Seq<char> {
    path.skip(root.len() as int + 1)
}

/// Whether a change at `path` concerns skills below `root`.
pub open spec fn concerns_skill_root(
    path: Seq<char>,
    root: Seq<char>,
    is_directory: bool,
) -> bool {
    covers(path, root) || (lies_in(path, root) && affects_skills(inside(path, root), is_directory))
}

/// Whether a change at `path` concerns instructions below `root`.
pub open spec fn concerns_instruction_root(
    path: Seq<char>,
    root: Seq<char>,
    is_instruction: bool,
    is_directory: bool,
) -> bool {
    covers(path, root) || (lies_in(path, root) && affects_instructions(
        inside(path, root),
        is_instruction,
        is_directory,
    ))
}

/// Whether a change at `relative` concerns the Harness panel.
pub open spec fn affects_harness(
    relative: Seq<char>,
    is_directory: bool,
    is_instruction: bool,
    skill_roots: Seq<String>,
    project_roots: Seq<String>,
) -> bool {
    let path = normalized(relative);
    ||| exists|i: int|
        0 <= i < skill_roots.len() && concerns_skill_root(
            path,
            (#[trigger] skill_roots[i])@.map_values(|c: char| ascii_lower(c)),
            is_directory,
        )
    ||| exists|i: int|
        0 <= i < project_roots.len() && (#[trigger] project_roots[i])@.len() > 0
            && concerns_instruction_root(
            path,
            normalized(project_roots[i]@),
            is_instruction,
            is_directory,
        )
    ||| affects_instructions(path, is_instruction, is_directory)
}

fn lower_char(c: char) -> (lower: char)
    ensures
        lower == ascii_lower(c),
{
    if 'A' <= c && c <= 'Z' {
        (c as u8 + 32) as char
    } else {
        c
    }
}

fn lowered(text: &Vec<char>) -> (lower: Vec<char>)
    ensures
        lower@ == text@.map_values(|c: char| ascii_lower(c)),
{
    let mut lower: Vec<char> = Vec::new();
    let mut i: usize = 0;
    while i < text.len()
        invariant
            i <= text.len(),
            lower@ == text@.take(i as int).map_values(|c: char| ascii_lower(c)),
        decreases text.len() - i,
    {
        lower.push(lower_char(text[i]));
        assert(lower@ =~= text@.take(i + 1).map_values(|c: char| ascii_lower(c)));
        i = i + 1;
    }
    assert(text@.take(text.len() as int) =~= text@);
    lower
}

/// `relative` as paths are compared with roots: with slashes, in lower case.
pub fn harness_text(relative: &str) -> (text: String)
    ensures
        text@ == normalized(relative@),
{
    text_of(&lowered(&slashed(&chars_of(relative))))
}

fn with_slash(path: &Vec<char>) -> (longer: Vec<char>)
    ensures
        longer@ == path@.push('/'),
{
    let mut longer = path.clone();
    longer.push('/');
    longer
}

fn covers_root(path: &Vec<char>, root: &Vec<char>) -> (result: bool)
    ensures
        result == covers(path@, root@),
{
    has_prefix(root, &with_slash(path)) || same_text(path, root)
}

fn part_inside(path: &Vec<char>, root: &Vec<char>) -> (within: Option<Vec<char>>)
    ensures
        within is Some <==> lies_in(path@, root@),
        within matches Some(within) ==> within@ == inside(path@, root@),
{
    if !has_prefix(path, &with_slash(root)) {
        return None;
    }
    let mut within: Vec<char> = Vec::new();
    assert(root@.push('/').len() <= path.len());
    let mut i: usize = root.len() + 1;
    let ghost from = i as int;
    while i < path.len()
        invariant
            0 <= from <= i <= path.len(),
            within@ == path@.subrange(from, i as int),
        decreases path.len() - i,
    {
        within.push(path[i]);
        assert(within@ =~= path@.subrange(from, i + 1));
        i = i + 1;
    }
    assert(within@ =~= inside(path@, root@));
    Some(within)
}

/// The number of components of a relative path, as far as it matters: up to
/// the first depth at which no change concerns the panel.
fn depth_of(path: &Vec<char>) -> (count: u64)
    ensures
        count == (if depth(path@) < 5 {
            depth(path@)
        } else {
            5
        }),
{
    let mut count: u64 = 1;
    let mut i: usize = 0;
    while i < path.len()
        invariant
            i <= path.len(),
            count == (if depth(path@.take(i as int)) < 5 {
                depth(path@.take(i as int))
            } else {
                5
            }),
        decreases path.len() - i,
    {
        assert(path@.take(i + 1).drop_last() =~= path@.take(i as int));
        if path[i] == '/' && count < 5 {
            count = count + 1;
        }
        i = i + 1;
    }
    assert(path@.take(path.len() as int) =~= path@);
    count
}

fn last_part(path: &Vec<char>) -> (name: Vec<char>)
    ensures
        name@ == last_component(path@),
{
    let mut at: usize = path.len();
    assert(path@.take(at as int) =~= path@);
    while at > 0 && path[at - 1] != '/'
        invariant
            at <= path.len(),
            last_position(path@, '/') == last_position(path@.take(at as int), '/'),
        decreases at,
    {
        assert(path@.take(at as int).drop_last() =~= path@.take(at - 1));
        at = at - 1;
    }
    proof {
        if at > 0 {
            assert(path@.take(at as int).last() == '/');
        }
        assert(last_position(path@, '/') + 1 == at);
    }
    let mut name: Vec<char> = Vec::new();
    let mut i: usize = at;
    while i < path.len()
        invariant
            at <= i <= path.len(),
            name@ == path@.subrange(at as int, i as int),
        decreases path.len() - i,
    {
        name.push(path[i]);
        assert(name@ =~= path@.subrange(at as int, i + 1));
        i = i + 1;
    }
    assert(name@ =~= last_component(path@));
    name
}

fn first_part(path: &Vec<char>) -> (name: Vec<char>)
    ensures
        name@ == first_component(path@),
{
    let mut name: Vec<char> = Vec::new();
    let mut i: usize = 0;
    assert(path@.skip(0) =~= path@);
    while i < path.len() && path[i] != '/'
        invariant
            i <= path.len(),
            name@ == path@.take(i as int),
            first_slash(path@) == first_slash(path@.skip(i as int)) + i,
        decreases path.len() - i,
    {
        assert(path@.skip(i as int).skip(1) =~= path@.skip(i + 1));
        assert(path@.skip(i as int)[0] == path@[i as int]);
        name.push(path[i]);
        assert(name@ =~= path@.take(i + 1));
        i = i + 1;
    }
    proof {
        if i < path.len() {
            assert(path@.skip(i as int)[0] == '/');
        } else {
            assert(path@.skip(i as int).len() == 0);
        }
        assert(first_slash(path@) == i);
    }
    name
}

fn touches_skills(within: &Vec<char>, is_directory: bool) -> (result: bool)
    ensures
        result == affects_skills(within@, is_directory),
{
    let depth: u64 = depth_of(within);
    let name = last_part(within);
    (depth <= 4 && same_text(&name, &chars_of("skill.md"))) || (depth <= 3 && is_directory) || (
    depth <= 4 && (same_text(&name, &chars_of("scripts")) || same_text(
        &name,
        &chars_of("references"),
    ) || same_text(&name, &chars_of("assets"))))
}

fn touches_instructions(within: &Vec<char>, is_instruction: bool, is_directory: bool) -> (result:
    bool)
    ensures
        result == affects_instructions(within@, is_instruction, is_directory),
{
    let depth: u64 = depth_of(within);
    let first = first_part(within);
    let nested = same_text(&first, &chars_of("rules")) || same_text(
        &first,
        &chars_of("instructions"),
    ) || same_text(&first, &chars_of("memories"));
    (depth == 1 && (nested || is_instruction)) || (nested && depth <= 3 && is_instruction) || (
    nested && depth == 2 && is_directory)
}

/// Whether a change at `relative`, a path below the workspace root, concerns
/// the Harness panel. `is_instruction` says so of [`harness_text`]; a path
/// without an extension counts as a directory, since it may be gone by now.
pub fn path_affects_harness(
    relative: &str,
    is_dir: bool,
    has_extension: bool,
    is_instruction: bool,
    skill_roots: &Vec<String>,
    project_roots: &Vec<String>,
) -> (affects: bool)
    ensures
        affects == affects_harness(
            relative@,
            is_dir || !has_extension,
            is_instruction,
            skill_roots@,
            project_roots@,
        ),
{
    let path = lowered(&slashed(&chars_of(relative)));
    let is_directory = is_dir || !has_extension;
    assert(path@ == normalized(relative@));
    let mut i: usize = 0;
    while i < skill_roots.len()
        invariant
            i <= skill_roots.len(),
            path@ == normalized(relative@),
            is_directory == (is_dir || !has_extension),
            forall|j: int|
                0 <= j < i ==> !concerns_skill_root(
                    path@,
                    (#[trigger] skill_roots[j])@.map_values(|c: char| ascii_lower(c)),
                    is_directory,
                ),
        decreases skill_roots.len() - i,
    {
        let root = lowered(&chars_of(skill_roots[i].as_str()));
        let affects = if covers_root(&path, &root) {
            true
        } else {
            match part_inside(&path, &root) {
                Some(within) => touches_skills(&within, is_directory),
                None => false,
            }
        };
        assert(affects == concerns_skill_root(
            path@,
            skill_roots[i as int]@.map_values(|c: char| ascii_lower(c)),
            is_directory,
        ));
        if affects {
            return true;
        }
        i = i + 1;
    }
    let mut i: usize = 0;
    while i < project_roots.len()
        invariant
            i <= project_roots.len(),
            path@ == normalized(relative@),
            is_directory == (is_dir || !has_extension),
            forall|j: int|
                0 <= j < i && (#[trigger] project_roots[j])@.len() > 0
                    ==> !concerns_instruction_root(
                    path@,
                    normalized(project_roots[j]@),
                    is_instruction,
                    is_directory,
                ),
        decreases project_roots.len() - i,
    {
        let text = chars_of(project_roots[i].as_str());
        if text.len() > 0 {
            let root = lowered(&slashed(&text));
            let affects = if covers_root(&path, &root) {
                true
            } else {
                match part_inside(&path, &root) {
                    Some(within) => touches_instructions(&within, is_instruction, is_directory),
                    None => false,
                }
            };
            assert(affects == concerns_instruction_root(
                path@,
                normalized(project_roots[i as int]@),
                is_instruction,
                is_directory,
            ));
            if affects {
                return true;
            }
        }
        i = i + 1;
    }
    touches_instructions(&path, is_instruction, is_directory)
}

/// Paths are compared without regard to ASCII case or to the kind of separator,
/// and by nothing less.
pub proof fn law_paths_are_compared_without_case_or_separators(text: Seq<char>, at: int)
    requires
        0 <= at < text.len(),
    ensures
        normalized(text).len() == text.len(),
        text[at] == '\\' ==> normalized(text)[at] == '/',
        'A' <= text[at] <= 'Z' ==> normalized(text)[at] as int == text[at] as int + 32,
        text[at] != '\\' && !('A' <= text[at] <= 'Z') ==> normalized(text)[at] == text[at],
{
}

proof fn lemma_slashes_add(a: Seq<char>, b: Seq<char>)
    ensures
        slashes(a + b) == slashes(a) + slashes(b),
    decreases b.len(),
{
    if b.len() == 0 {
        assert(a + b =~= a);
    } else {
        lemma_slashes_add(a, b.drop_last());
        assert((a + b).drop_last() =~= a + b.drop_last());
    }
}

/// A name is one component deep, and a path inside a directory is as deep as
/// both of them together.
pub proof fn law_depth_counts_components(directory: Seq<char>, within: Seq<char>)
    ensures
        depth(directory.push('/') + within) == depth(directory) + depth(within),
        !within.contains('/') ==> depth(within) == 1,
    decreases within.len(),
{
    lemma_slashes_add(directory.push('/'), within);
    assert(directory.push('/').drop_last() =~= directory);
    if !within.contains('/') && within.len() > 0 {
        let rest = within.drop_last();
        assert forall|i: int| 0 <= i < rest.len() implies rest[i] != '/' by {
            assert(within[i] == rest[i]);
        }
        law_depth_counts_components(directory, rest);
        assert(within[within.len() - 1] == within.last());
    }
}

/// The last component of a path is what follows its last slash.
pub proof fn law_the_last_component_follows_the_last_slash(directory: Seq<char>, name: Seq<char>)
    requires
        !name.contains('/'),
    ensures
        last_component(directory.push('/') + name) == name,
        last_component(name) == name,
{
    let path = directory.push('/') + name;
    lemma_last_position(path, '/');
    lemma_last_position(name, '/');
    assert(path[directory.len() as int] == '/');
    if last_position(path, '/') > directory.len() {
        let at = last_position(path, '/') - directory.len() - 1;
        assert(name[at] == path[last_position(path, '/')]);
    }
    assert(last_component(path) =~= name);
    if last_position(name, '/') >= 0 {
        assert(name[last_position(name, '/')] == '/');
    }
    assert(last_component(name) =~= name);
}

/// The first component of a path is what comes before its first slash.
pub proof fn law_the_first_component_precedes_the_first_slash(name: Seq<char>, rest: Seq<char>)
    requires
        !name.contains('/'),
    ensures
        first_component(name.push('/') + rest) == name,
        first_component(name) == name,
    decreases name.len(),
{
    lemma_first_slash(name, rest);
    assert(first_component(name.push('/') + rest) =~= name);
    assert(first_component(name) =~= name);
}

proof fn lemma_first_slash(name: Seq<char>, rest: Seq<char>)
    requires
        !name.contains('/'),
    ensures
        first_slash(name.push('/') + rest) == name.len(),
        first_slash(name) == name.len(),
    decreases name.len(),
{
    let path = name.push('/') + rest;
    if name.len() > 0 {
        let shorter = name.skip(1);
        assert forall|i: int| 0 <= i < shorter.len() implies shorter[i] != '/' by {
            assert(name[i + 1] == shorter[i]);
        }
        lemma_first_slash(shorter, rest);
        assert(path.skip(1) =~= shorter.push('/') + rest);
        assert(name[0] != '/');
    }
}

/// A change of a skill is noticed wherever the skill can be found: its entry
/// document and the directories beside it up to four components inside a skill
/// root, and any directory up to three.
pub proof fn law_a_skill_is_noticed(
    relative: Seq<char>,
    is_directory: bool,
    is_instruction: bool,
    skill_roots: Seq<String>,
    project_roots: Seq<String>,
    at: int,
    within: Seq<char>,
)
    requires
        0 <= at < skill_roots.len(),
        normalized(relative) == skill_roots[at]@.map_values(|c: char| ascii_lower(c)).push('/')
            + within,
        (slashes(within) <= 3 && (last_component(within) == "skill.md"@ || last_component(within)
            == "scripts"@ || last_component(within) == "references"@ || last_component(within)
            == "assets"@)) || (slashes(within) <= 2 && is_directory),
    ensures
        affects_harness(relative, is_directory, is_instruction, skill_roots, project_roots),
{
    let path = normalized(relative);
    let root = skill_roots[at]@.map_values(|c: char| ascii_lower(c));
    law_a_prefix_is_followed_by_the_rest(path, root.push('/'));
    assert(inside(path, root) =~= within);
    assert(concerns_skill_root(path, root, is_directory));
}

/// A root that comes or goes is noticed, and so is any directory above it.
pub proof fn law_a_root_is_noticed(
    relative: Seq<char>,
    is_directory: bool,
    is_instruction: bool,
    skill_roots: Seq<String>,
    project_roots: Seq<String>,
    at: int,
    below: Seq<char>,
)
    requires
        ({
            let path = normalized(relative);
            ||| 0 <= at < skill_roots.len() && {
                let root = skill_roots[at]@.map_values(|c: char| ascii_lower(c));
                path == root || path.push('/') + below == root
            }
            ||| 0 <= at < project_roots.len() && project_roots[at]@.len() > 0 && {
                let root = normalized(project_roots[at]@);
                path == root || path.push('/') + below == root
            }
        }),
    ensures
        affects_harness(relative, is_directory, is_instruction, skill_roots, project_roots),
{
    let path = normalized(relative);
    if 0 <= at < skill_roots.len() && {
        let root = skill_roots[at]@.map_values(|c: char| ascii_lower(c));
        path == root || path.push('/') + below == root
    } {
        let root = skill_roots[at]@.map_values(|c: char| ascii_lower(c));
        law_a_prefix_is_followed_by_the_rest(root, path.push('/'));
        assert(concerns_skill_root(path, root, is_directory));
    } else {
        let root = normalized(project_roots[at]@);
        law_a_prefix_is_followed_by_the_rest(root, path.push('/'));
        assert(concerns_instruction_root(path, root, is_instruction, is_directory));
    }
}

/// A change of an instruction is noticed wherever it is read: directly in the
/// folder or in one of the project's roots, and up to three components deep in
/// one of the directories that hold instructions; so is one of those
/// directories, and a directory directly in it.
pub proof fn law_an_instruction_is_noticed(
    relative: Seq<char>,
    is_directory: bool,
    is_instruction: bool,
    skill_roots: Seq<String>,
    project_roots: Seq<String>,
    at: int,
    within: Seq<char>,
)
    requires
        normalized(relative) == within || (0 <= at < project_roots.len()
            && project_roots[at]@.len() > 0 && normalized(relative) == normalized(
            project_roots[at]@,
        ).push('/') + within),
        ({
            let first = first_component(within);
            let nested = first == "rules"@ || first == "instructions"@ || first == "memories"@;
            ||| slashes(within) == 0 && (nested || is_instruction)
            ||| nested && slashes(within) <= 2 && is_instruction
            ||| nested && slashes(within) == 1 && is_directory
        }),
    ensures
        affects_harness(relative, is_directory, is_instruction, skill_roots, project_roots),
{
    let path = normalized(relative);
    if path != within {
        let root = normalized(project_roots[at]@);
        law_a_prefix_is_followed_by_the_rest(path, root.push('/'));
        assert(inside(path, root) =~= within);
        assert(concerns_instruction_root(path, root, is_instruction, is_directory));
    }
}

/// An ordinary file is not taken for one of the harness: a file that is neither
/// an instruction nor called like a part of one, nor like a part of a skill, and
/// in whose place no root can be.
pub proof fn law_an_ordinary_file_is_not_noticed(
    relative: Seq<char>,
    skill_roots: Seq<String>,
    project_roots: Seq<String>,
)
    requires
        ({
            let name = last_component(normalized(relative));
            &&& name != "skill.md"@ && name != "scripts"@ && name != "references"@ && name
                != "assets"@
            &&& name != "rules"@ && name != "instructions"@ && name != "memories"@
        }),
        forall|i: int|
            0 <= i < skill_roots.len() ==> !covers(
                normalized(relative),
                (#[trigger] skill_roots[i])@.map_values(|c: char| ascii_lower(c)),
            ),
        forall|i: int|
            0 <= i < project_roots.len() ==> !covers(
                normalized(relative),
                normalized((#[trigger] project_roots[i])@),
            ),
    ensures
        !affects_harness(relative, false, false, skill_roots, project_roots),
{
    let path = normalized(relative);
    assert forall|i: int| 0 <= i < skill_roots.len() implies !concerns_skill_root(
        path,
        (#[trigger] skill_roots[i])@.map_values(|c: char| ascii_lower(c)),
        false,
    ) by {
        let root = skill_roots[i]@.map_values(|c: char| ascii_lower(c));
        if lies_in(path, root) {
            lemma_last_component_inside(path, root);
        }
    }
    assert forall|i: int|
        0 <= i < project_roots.len() && (#[trigger] project_roots[i])@.len()
            > 0 implies !concerns_instruction_root(
        path,
        normalized(project_roots[i]@),
        false,
        false,
    ) by {
        let root = normalized(project_roots[i]@);
        if lies_in(path, root) {
            lemma_last_component_inside(path, root);
            lemma_one_component(inside(path, root));
        }
    }
    lemma_one_component(path);
}

/// A path of one component is its own first and last component.
proof fn lemma_one_component(path: Seq<char>)
    ensures
        depth(path) == 1 ==> first_component(path) == last_component(path),
    decreases path.len(),
{
    if depth(path) == 1 {
        lemma_no_slash(path);
        law_the_first_component_precedes_the_first_slash(path, Seq::empty());
        law_the_last_component_follows_the_last_slash(Seq::empty(), path);
    }
}

proof fn lemma_no_slash(path: Seq<char>)
    requires
        slashes(path) == 0,
    ensures
        !path.contains('/'),
    decreases path.len(),
{
    if path.len() > 0 {
        lemma_no_slash(path.drop_last());
        assert forall|i: int| 0 <= i < path.len() implies path[i] != '/' by {
            if i < path.len() - 1 {
                assert(path.drop_last()[i] == path[i]);
            }
        }
    }
}

/// Inside a root, the last component stays the last.
proof fn lemma_last_component_inside(path: Seq<char>, root: Seq<char>)
    requires
        lies_in(path, root),
    ensures
        last_component(inside(path, root)) == last_component(path),
{
    let within = inside(path, root);
    let from = root.len() as int + 1;
    lemma_last_position(path, '/');
    lemma_last_position(within, '/');
    assert(root.push('/')[root.len() as int] == '/');
    assert(path[root.len() as int] == path.take(from)[root.len() as int]);
    let last = last_position(path, '/');
    let inner = last_position(within, '/');
    assert(last >= root.len());
    if inner >= 0 {
        assert(path[from + inner] == within[inner]);
        assert(last >= from + inner);
    }
    if last > root.len() {
        assert(within[last - from] == path[last]);
    }
    assert(last == from + inner);
    assert(last_component(within) =~= last_component(path));
}

} // verus!
