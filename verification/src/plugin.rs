//! Plugins (a named system prompt) and prompt overrides from the config.
use vstd::prelude::*;

use crate::config::Config;
use crate::text::{
    append_chars, chars_eq, extension_of, from_chars, has_extension, join, join_chars,
    str_to_string, to_chars, views,
};

verus! {

broadcast use vstd::string::group_string_axioms;

/// A plugin: a named task with its own system prompt.
pub struct Plugin {
    pub name: String,
    pub description: String,
    pub system_prompt: String,
}

/// The prompt configured for `command`: the value of the first entry with
/// that name.
pub open spec fn prompt_for(prompts: Seq<(String, String)>, command: Seq<char>) -> Option<Seq<char>>
    decreases prompts.len(),
{
    if prompts.len() == 0 {
        None
    } else if prompts[0].0@ == command {
        Some(prompts[0].1@)
    } else {
        prompt_for(prompts.drop_first(), command)
    }
}

/// Resolve system prompt for a built-in command.
/// Checks config.prompts first, falls back to default.
pub fn resolve_prompt(config: &Config, command: &str, default: &str) -> (r: String)
    ensures
        r@ == match prompt_for(config.prompts@, command@) {
            Some(p) => p,
            None => default@,
        },
{
    let c = to_chars(command);
    let ps = &config.prompts;
    let mut i: usize = 0;
    assert(ps@.skip(0) =~= ps@);
    while i < ps.len()
        invariant
            i <= ps@.len(),
            c@ == command@,
            ps@ == config.prompts@,
            prompt_for(ps@, command@) == prompt_for(ps@.skip(i as int), command@),
        decreases ps.len() - i,
    {
        assert(ps@.skip(i as int)[0] == ps@[i as int]);
        if chars_eq(&to_chars(ps[i].0.as_str()), &c) {
            assert(ps@.skip(i as int).len() > 0);
            assert(prompt_for(ps@.skip(i as int), command@) == Some(ps@[i as int].1@));
            return str_to_string(ps[i].1.as_str());
        }
        assert(ps@.skip(i as int).drop_first() =~= ps@.skip(i as int + 1));
        i = i + 1;
    }
    str_to_string(default)
}

/// Whether a file in the plugins directory defines a plugin: its extension is `toml`.
pub fn is_plugin_file(file_name: &str) -> (r: bool)
    ensures
        r == (extension_of(file_name@) == Some("toml"@)),
{
    has_extension(file_name, "toml")
}

pub open spec fn plugin_names(ps: Seq<Plugin>) -> Seq<Seq<char>> {
    ps.map_values(|p: Plugin| p.name@)
}

/// What is said when no plugin has the name asked for.
pub open spec fn plugin_missing_message(name: Seq<char>, available: Seq<Seq<char>>) -> Seq<char> {
    if available.len() == 0 {
        "Plugin '"@ + name
            + "' not found. No plugins in .dumbcoder/plugins/. Create a .toml file there to define a plugin."@
    } else {
        "Plugin '"@ + name + "' not found. Available plugins: "@ + join(available, ", "@)
    }
}

/// The position of the first plugin called `name`, or the message that says
/// none is and lists the plugins there are.
pub fn find_plugin(plugins: &Vec<Plugin>, name: &str) -> (r: Result<usize, String>)
    ensures
        match r {
            Ok(i) => i < plugins@.len() && plugins@[i as int].name@ == name@ && forall|j: int|
                0 <= j < i ==> plugins@[j].name@ != name@,
            Err(m) => (forall|j: int| 0 <= j < plugins@.len() ==> plugins@[j].name@ != name@) && m@
                == plugin_missing_message(name@, plugin_names(plugins@)),
        },
{
    let n = to_chars(name);
    let mut names: Vec<Vec<char>> = Vec::new();
    let mut i: usize = 0;
    while i < plugins.len()
        invariant
            i <= plugins@.len(),
            n@ == name@,
            views(names@) == plugin_names(plugins@).take(i as int),
            forall|j: int| 0 <= j < i ==> plugins@[j].name@ != name@,
        decreases plugins.len() - i,
    {
        let p = to_chars(plugins[i].name.as_str());
        if chars_eq(&p, &n) {
            return Ok(i);
        }
        let ghost before = views(names@);
        let ghost pv = p@;
        names.push(p);
        assert(views(names@) =~= before.push(pv));
        i = i + 1;
        assert(views(names@) =~= plugin_names(plugins@).take(i as int));
    }
    assert(plugin_names(plugins@).take(i as int) =~= plugin_names(plugins@));
    let mut m = to_chars("Plugin '");
    append_chars(&mut m, &n);
    if names.len() == 0 {
        append_chars(
            &mut m,
            &to_chars(
                "' not found. No plugins in .dumbcoder/plugins/. Create a .toml file there to define a plugin.",
            ),
        );
    } else {
        append_chars(&mut m, &to_chars("' not found. Available plugins: "));
        append_chars(&mut m, &join_chars(&names, &to_chars(", ")));
    }
    Err(from_chars(&m))
}

} // verus!
