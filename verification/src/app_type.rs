//! Whether the program runs as the launcher or as the editor of a project.
use vstd::prelude::*;

verus! {

/// The two ways the program runs.
#[allow(non_camel_case_types)]
#[derive(Debug, Clone)]
pub enum AppType {
    /// Started without a project: the launcher.
    LAUNCHER,
    /// Started with a project's directory: the editor of that project.
    EDITOR(String),
}

/// The way the program runs for its command line (the program's name first):
/// no further argument starts the launcher, one further argument, a project
/// directory, starts the editor. Any other count is a usage error, which the
/// caller reports before asking.
pub fn define_app_type(args: &Vec<String>) -> (t: AppType)
    requires
        args.len() == 1 || args.len() == 2,
    ensures
        args.len() == 1 ==> t is LAUNCHER,
        args.len() == 2 ==> (t matches AppType::EDITOR(dir) && dir@ == args@[1]@),
{
    if args.len() == 1 {
        AppType::LAUNCHER
    } else {
        AppType::EDITOR(args[1].clone())
    }
}

/// The application identifier of each way the program runs.
pub open spec fn app_id_of(t: AppType) -> Seq<char> {
    match t {
        AppType::LAUNCHER => "EnCode.launcher"@,
        AppType::EDITOR(_) => "EnCode.editor"@,
    }
}

/// The application identifier under which the program registers itself.
pub fn define_app_id(t: &AppType) -> (id: String)
    ensures
        id@ == app_id_of(*t),
{
    match t {
        AppType::LAUNCHER => String::from_str("EnCode.launcher"),
        AppType::EDITOR(_) => String::from_str("EnCode.editor"),
    }
}

} // verus!
