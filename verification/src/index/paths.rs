//! The paths that `file` headers report.
//!
//! A consumer matches records against scripts it loaded from the engine, and
//! the engine knows nothing but `res://` paths, so a file inside a Godot
//! project is reported by its `res://` path. A run never mixes `res://` paths
//! with file system paths: every case that would is an error naming its fix,
//! because a half-resolved run joins nothing on the consumer side and reads
//! exactly like a clean project.

use crate::text::{push_char, push_str, str_to_chars};
use vstd::prelude::*;

verus! {

/// `c` with the Windows separator turned into the one `res://` paths use.
pub open spec fn res_separator(c: char) -> char {
    if c == '\\' {
        '/'
    } else {
        c
    }
}

/// The `res://` path of a file at `relative_path` under the project root.
pub open spec fn res_path_of(relative_path: Seq<char>) -> Seq<char> {
    "res://"@ + relative_path.map_values(|c: char| res_separator(c))
}

pub fn res_path(relative_path: &str) -> (path: String)
    ensures
        path@ == res_path_of(relative_path@),
{
    let characters = str_to_chars(relative_path);
    let mut path = String::new();
    push_str(&mut path, "res://");
    let ghost prefix = path@;
    let mut index: usize = 0;
    while index < characters.len()
        invariant
            index <= characters@.len(),
            characters@ == relative_path@,
            path@ == prefix + characters@.subrange(0, index as int).map_values(|c: char| res_separator(c)),
        decreases characters@.len() - index,
    {
        let c = characters[index];
        push_char(&mut path, if c == '\\' { '/' } else { c });
        index = index + 1;
        assert(characters@.subrange(0, index as int).map_values(|c: char| res_separator(c)) =~= characters@.subrange(
            0,
            index - 1,
        ).map_values(|c: char| res_separator(c)).push(res_separator(c)));
    }
    assert(characters@.subrange(0, characters@.len() as int) =~= characters@);
    path
}

/// Why the inputs of a run have no one project root.
#[derive(Debug, Clone, Copy, PartialEq, Eq, Structural)]
pub enum ProjectRootConflict {
    /// Two different `project.godot` files lie above the inputs.
    SeveralProjects,
    /// Some inputs are inside a project and some are not.
    MixedForms,
}

/// The message shown for each conflict, naming its fix.
pub open spec fn conflict_message(conflict: ProjectRootConflict) -> Seq<char> {
    match conflict {
        ProjectRootConflict::SeveralProjects => "the inputs belong to more than one Godot project; pass --project-root to choose the one the res:// paths are relative to"@,
        ProjectRootConflict::MixedForms => "some inputs are inside a Godot project and some are not, and a run does not mix res:// paths with file system paths; pass --project-root or index them separately"@,
    }
}

impl ProjectRootConflict {
    pub fn message(&self) -> (message: &'static str)
        ensures
            message@ == conflict_message(*self),
    {
        match self {
            ProjectRootConflict::SeveralProjects => "the inputs belong to more than one Godot project; pass --project-root to choose the one the res:// paths are relative to",
            ProjectRootConflict::MixedForms => "some inputs are inside a Godot project and some are not, and a run does not mix res:// paths with file system paths; pass --project-root or index them separately",
        }
    }
}

/// The project root of a run, from the root found above each input (None
/// for an input inside no project): the one root they share, or None when
/// no input is inside a project.
pub open spec fn shared_project_root(found: Seq<Option<Seq<char>>>) -> Result<Option<Seq<char>>, ProjectRootConflict> {
    if forall|i: int| 0 <= i < found.len() ==> #[trigger] found[i] is None {
        Ok(None)
    } else if exists|i: int| 0 <= i < found.len() && #[trigger] found[i] is None {
        Err(ProjectRootConflict::MixedForms)
    } else if forall|i: int| 0 <= i < found.len() ==> #[trigger] found[i] == found[0] {
        Ok(found[0])
    } else {
        Err(ProjectRootConflict::SeveralProjects)
    }
}

pub open spec fn optional_views(found: Seq<Option<String>>) -> Seq<Option<Seq<char>>> {
    found.map_values(|f: Option<String>| match f {
        Some(s) => Some(s@),
        None => None,
    })
}

/// Decides the project root of a run from the root found above each input.
pub fn choose_project_root(found: &Vec<Option<String>>) -> (root: Result<Option<String>, ProjectRootConflict>)
    ensures
        match root {
            Ok(Some(r)) => shared_project_root(optional_views(found@)) == Ok::<Option<Seq<char>>, ProjectRootConflict>(Some(r@)),
            Ok(None) => shared_project_root(optional_views(found@)) == Ok::<Option<Seq<char>>, ProjectRootConflict>(None),
            Err(conflict) => shared_project_root(optional_views(found@)) == Err::<Option<Seq<char>>, ProjectRootConflict>(conflict),
        },
{
    let ghost views = optional_views(found@);
    let mut any_inside = false;
    let mut any_outside = false;
    let mut index: usize = 0;
    while index < found.len()
        invariant
            index <= found@.len(),
            views == optional_views(found@),
            any_inside <==> exists|i: int| 0 <= i < index && #[trigger] views[i] is Some,
            any_outside <==> exists|i: int| 0 <= i < index && #[trigger] views[i] is None,
        decreases found@.len() - index,
    {
        if found[index].is_some() {
            assert(views[index as int] is Some);
            any_inside = true;
        } else {
            assert(views[index as int] is None);
            any_outside = true;
        }
        index = index + 1;
    }
    if !any_inside {
        assert forall|i: int| 0 <= i < views.len() implies #[trigger] views[i] is None by {
            if views[i] is Some {
                assert(exists|j: int| 0 <= j < index && #[trigger] views[j] is Some);
            }
        }
        return Ok(None);
    }
    if any_outside {
        return Err(ProjectRootConflict::MixedForms);
    }
    assert forall|i: int| 0 <= i < views.len() implies #[trigger] views[i] is Some by {
        if views[i] is None {
            assert(exists|j: int| 0 <= j < index && #[trigger] views[j] is None);
        }
    }
    let first = match &found[0] {
        Some(root) => root,
        None => {
            assert(views[0] is None);
            return Err(ProjectRootConflict::MixedForms);
        },
    };
    let first_chars = str_to_chars(first.as_str());
    let mut index: usize = 1;
    while index < found.len()
        invariant
            1 <= index <= found@.len(),
            views == optional_views(found@),
            views[0] == Some(first_chars@),
            forall|i: int| 0 <= i < views.len() ==> #[trigger] views[i] is Some,
            forall|i: int| 0 <= i < index ==> #[trigger] views[i] == views[0],
        decreases found@.len() - index,
    {
        let same = match &found[index] {
            Some(root) => {
                let chars = str_to_chars(root.as_str());
                crate::text::chars_equal(chars.as_slice(), first_chars.as_slice())
            },
            None => false,
        };
        if !same {
            assert(views[index as int] != views[0]);
            assert(!(forall|i: int| 0 <= i < views.len() ==> #[trigger] views[i] == views[0]));
            return Err(ProjectRootConflict::SeveralProjects);
        }
        index = index + 1;
    }
    Ok(Some(first.clone()))
}

/// A run never mixes the two forms of path: when it has a project root,
/// every input lies under that one root, and when it has none, no input lies
/// under any.
pub proof fn lemma_run_never_mixes_path_forms(found: Seq<Option<Seq<char>>>)
    ensures
        shared_project_root(found) matches Ok(Some(root)) ==> forall|i: int|
            0 <= i < found.len() ==> #[trigger] found[i] == Some(root),
        shared_project_root(found) matches Ok(None) ==> forall|i: int|
            0 <= i < found.len() ==> #[trigger] found[i] is None,
{
}

} // verus!
