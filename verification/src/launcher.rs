//! Decisions of the launcher: the record of a new project and the check that the
//! chosen plugins bring along the plugins they need.
use vstd::prelude::*;

use crate::general_data::{Plugin, Project};
use crate::text::string_views;

verus! {

/// What the new-project dialog asks for: the project's name, the directory that
/// will hold it, and whether to create a virtual environment, and where.
#[derive(Debug, Clone)]
pub struct Ret {
    pub name: String,
    pub directory: String,
    pub use_env: bool,
    pub env_dir: String,
}

/// The record of the project that a new-project request creates.
pub fn project_for(request: Ret, id: i32) -> (p: Project)
    ensures
        p.id == id,
        p.dev_name == request.name,
        p.dir == request.directory,
{
    Project { id, dev_name: request.name, dir: request.directory }
}

/// Why a choice of plugins was refused.
#[derive(Debug, Clone, Copy, PartialEq, Eq, Structural)]
pub enum DependencyError {
    /// Some plugin needs a plugin that was not chosen.
    Unmet,
}

impl DependencyError {
    /// The message shown to the user.
    pub fn message(&self) -> (s: &'static str)
        ensures
            s@ == "Кажется, вы не учли зависимости плагинов"@,
    {
        "Кажется, вы не учли зависимости плагинов"
    }
}

/// Every plugin that any of `plugins` needs is among the chosen names.
pub open spec fn dependencies_covered(plugins: Seq<Plugin>, selected: Seq<Seq<char>>) -> bool {
    forall|i: int, j: int|
        0 <= i < plugins.len() && 0 <= j < plugins[i].dependencies@.len() ==> selected.contains(
            #[trigger] plugins[i].dependencies@[j]@,
        )
}

fn contains_name(names: &Vec<String>, name: &String) -> (b: bool)
    ensures
        b == string_views(names@).contains(name@),
{
    let mut k: usize = 0;
    while k < names.len()
        invariant
            k <= names.len(),
            forall|m: int| 0 <= m < k ==> names@[m]@ != name@,
        decreases names.len() - k,
    {
        if names[k] == *name {
            assert(string_views(names@)[k as int] == name@);
            return true;
        }
        k = k + 1;
    }
    assert forall|m: int| 0 <= m < string_views(names@).len() implies string_views(names@)[m]
        != name@ by {
        assert(string_views(names@)[m] == names@[m]@);
    }
    false
}

/// Accepts a choice of plugins only when it holds every plugin that a stored
/// plugin needs; `plugins` are the stored plugins that could be read.
pub fn dependencies_check(plugins: &Vec<Plugin>, selected: &Vec<String>) -> (r: Result<
    (),
    DependencyError,
>)
    ensures
        r is Ok <==> dependencies_covered(plugins@, string_views(selected@)),
        r is Err ==> r == Err::<(), DependencyError>(DependencyError::Unmet),
{
    let ghost sel = string_views(selected@);
    let mut i: usize = 0;
    while i < plugins.len()
        invariant
            i <= plugins.len(),
            sel == string_views(selected@),
            forall|a: int, b: int|
                0 <= a < i && 0 <= b < plugins@[a].dependencies@.len() ==> sel.contains(
                    #[trigger] plugins@[a].dependencies@[b]@,
                ),
        decreases plugins.len() - i,
    {
        let deps = &plugins[i].dependencies;
        let mut j: usize = 0;
        while j < deps.len()
            invariant
                i < plugins.len(),
                deps == &plugins@[i as int].dependencies,
                j <= deps.len(),
                sel == string_views(selected@),
                forall|a: int, b: int|
                    0 <= a < i && 0 <= b < plugins@[a].dependencies@.len() ==> sel.contains(
                        #[trigger] plugins@[a].dependencies@[b]@,
                    ),
                forall|b: int| 0 <= b < j ==> sel.contains(#[trigger] deps@[b]@),
            decreases deps.len() - j,
        {
            if !contains_name(selected, &deps[j]) {
                return Err(DependencyError::Unmet);
            }
            j = j + 1;
        }
        i = i + 1;
    }
    Ok(())
}

/// Choosing more plugins never makes a covered choice uncovered.
pub proof fn lemma_more_selected_still_covered(
    plugins: Seq<Plugin>,
    selected: Seq<Seq<char>>,
    more: Seq<Seq<char>>,
)
    requires
        dependencies_covered(plugins, selected),
        forall|k: int| 0 <= k < selected.len() ==> more.contains(#[trigger] selected[k]),
    ensures
        dependencies_covered(plugins, more),
{
    assert forall|i: int, j: int|
        0 <= i < plugins.len() && 0 <= j < plugins[i].dependencies@.len() implies more.contains(
        #[trigger] plugins[i].dependencies@[j]@,
    ) by {
        let k = choose|k: int| 0 <= k < selected.len() && selected[k] == plugins[i].dependencies@[j]@;
        assert(more.contains(selected[k]));
    }
}

} // verus!
