//! Which plugin libraries the editor loads, and under which file names.
use vstd::prelude::*;

use crate::general_data::Plugin;
use crate::text::string_views;

verus! {

/// The names of the plugins that are switched on, in the order of `plugins`.
pub open spec fn enabled_names(plugins: Seq<Plugin>) -> Seq<Seq<char>>
    decreases plugins.len(),
{
    if plugins.len() == 0 {
        Seq::empty()
    } else {
        let before = enabled_names(plugins.drop_last());
        if plugins.last().will_be_used {
            before.push(plugins.last().dev_name@)
        } else {
            before
        }
    }
}

/// The names of the plugins whose libraries the editor loads.
pub fn plugins_to_load(plugins: &Vec<Plugin>) -> (names: Vec<String>)
    ensures
        string_views(names@) == enabled_names(plugins@),
{
    let mut names: Vec<String> = Vec::new();
    let mut i: usize = 0;
    while i < plugins.len()
        invariant
            i <= plugins.len(),
            string_views(names@) == enabled_names(plugins@.take(i as int)),
        decreases plugins.len() - i,
    {
        assert(plugins@.take(i + 1).drop_last() =~= plugins@.take(i as int));
        if plugins[i].will_be_used {
            let ghost before = string_views(names@);
            let name = plugins[i].dev_name.clone();
            names.push(name);
            assert(string_views(names@) =~= before.push(plugins@[i as int].dev_name@));
        }
        i = i + 1;
    }
    assert(plugins@.take(i as int) =~= plugins@);
    names
}

/// The file name of a plugin's shared library: the platform's prefix, the
/// plugin's name and the platform's suffix.
pub fn library_file_name(prefix: &str, dev_name: &str, suffix: &str) -> (name: String)
    ensures
        name@ == prefix@ + dev_name@ + suffix@,
{
    let mut name = String::from_str(prefix);
    name.append(dev_name);
    name.append(suffix);
    name
}

} // verus!
