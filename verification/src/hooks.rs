//! Hook preparation: which configured command list an event selects, and
//! the textual `${name}` substitution applied to each command before the
//! shell runs it. Running the commands is I/O and lives outside the
//! library; hook failures there are reported and never abort the
//! operation that triggered them.
use vstd::prelude::*;
use crate::config::{GitWorktreeConfig, Hooks};
use crate::strutil::{replace_substr, spec_replace_substr, str_eq, views_of};

verus! {

/// The views of a list of `(name, value)` pairs.
pub open spec fn pair_views(v: Seq<(String, String)>) -> Seq<(Seq<char>, Seq<char>)> {
    v.map_values(|p: (String, String)| (p.0@, p.1@))
}

/// A command with each `${name}` replaced by its value, the variables
/// applied in order.
pub open spec fn spec_substitute(cmd: Seq<char>, vars: Seq<(Seq<char>, Seq<char>)>) -> Seq<char>
    decreases vars.len(),
{
    if vars.len() == 0 {
        cmd
    } else {
        spec_substitute(
            spec_replace_substr(cmd, "${"@ + vars[0].0 + "}"@, vars[0].1),
            vars.skip(1),
        )
    }
}

/// Substitute `${name}` tokens into one hook command.
pub fn substitute_hook_variables(command: &str, variables: &Vec<(String, String)>) -> (r: String)
    ensures
        r@ == spec_substitute(command@, pair_views(variables@)),
{
    let ghost all = pair_views(variables@);
    let n = variables.len();
    let mut cur: String = command.to_owned();
    let mut i: usize = 0;
    proof {
        assert(all.skip(0) =~= all);
    }
    while i < n
        invariant
            n == variables@.len(),
            all == pair_views(variables@),
            i <= n,
            spec_substitute(command@, all) == spec_substitute(cur@, all.skip(i as int)),
        decreases n - i,
    {
        let ghost rem = all.skip(i as int);
        let (name, value) = (&variables[i].0, &variables[i].1);
        let pattern = "${".to_owned().concat(name.as_str()).concat("}");
        proof {
            assert(rem[0] == (variables@[i as int].0@, variables@[i as int].1@));
            assert(pattern@ =~= "${"@ + rem[0].0 + "}"@);
            assert(rem.skip(1) =~= all.skip(i + 1));
        }
        cur = replace_substr(cur.as_str(), pattern.as_str(), value.as_str());
        i = i + 1;
    }
    proof {
        assert(all.skip(n as int) =~= Seq::<(Seq<char>, Seq<char>)>::empty());
    }
    cur
}

/// The command list an event name selects: `postAdd`, `preRemove` or
/// `postRemove`; any other event selects nothing.
pub open spec fn spec_selected_hooks(hooks: Hooks, hook_type: Seq<char>) -> Option<Vec<String>> {
    if hook_type == "postAdd"@ {
        hooks.post_add
    } else if hook_type == "preRemove"@ {
        hooks.pre_remove
    } else if hook_type == "postRemove"@ {
        hooks.post_remove
    } else {
        None
    }
}

/// The command list an event selects from the configured hooks: `postAdd`,
/// `preRemove` or `postRemove`; any other event selects nothing.
pub fn hook_commands<'a>(hooks: &'a Hooks, hook_type: &str) -> (r: Option<&'a Vec<String>>)
    ensures
        ({
            let selected = spec_selected_hooks(*hooks, hook_type@);
            match (r, selected) {
                (Some(v), Some(w)) => v@ == w@,
                (None, None) => true,
                _ => false,
            }
        }),
{
    if str_eq(hook_type, "postAdd") {
        match &hooks.post_add {
            Some(v) => Some(v),
            None => None,
        }
    } else if str_eq(hook_type, "preRemove") {
        match &hooks.pre_remove {
            Some(v) => Some(v),
            None => None,
        }
    } else if str_eq(hook_type, "postRemove") {
        match &hooks.post_remove {
            Some(v) => Some(v),
            None => None,
        }
    } else {
        None
    }
}

/// The commands an event runs, after substitution.
pub open spec fn spec_prepared(
    cmds: Seq<Seq<char>>,
    vars: Seq<(Seq<char>, Seq<char>)>,
) -> Seq<Seq<char>> {
    cmds.map_values(|c: Seq<char>| spec_substitute(c, vars))
}

/// Prepare the hook commands an event runs for a configuration: the
/// selected list with the variables substituted into each command, empty
/// when the configuration names no hooks or none for this event.
pub fn prepare_hook_commands(
    config: &GitWorktreeConfig,
    hook_type: &str,
    variables: &Vec<(String, String)>,
) -> (r: Vec<String>)
    ensures
        match config.hooks {
            None => r@.len() == 0,
            Some(h) => match spec_selected_hooks(h, hook_type@) {
                Some(cmds) => views_of(r@) == spec_prepared(
                    views_of(cmds@),
                    pair_views(variables@),
                ),
                None => r@.len() == 0,
            },
        },
{
    let hooks = match &config.hooks {
        Some(h) => h,
        None => {
            return Vec::new();
        },
    };
    let cmds = match hook_commands(hooks, hook_type) {
        Some(v) => v,
        None => {
            return Vec::new();
        },
    };
    let n = cmds.len();
    let mut out: Vec<String> = Vec::new();
    let mut i: usize = 0;
    while i < n
        invariant
            n == cmds@.len(),
            i <= n,
            out@.len() == i,
            views_of(out@) =~= spec_prepared(views_of(cmds@), pair_views(variables@)).take(
                i as int,
            ),
        decreases n - i,
    {
        let prepared = substitute_hook_variables(cmds[i].as_str(), variables);
        proof {
            assert(views_of(cmds@)[i as int] == cmds@[i as int]@);
            assert(prepared@ == spec_prepared(views_of(cmds@), pair_views(variables@))[i as int]);
        }
        let ghost old_out = out@;
        out.push(prepared);
        proof {
            let rhs = spec_prepared(views_of(cmds@), pair_views(variables@));
            assert(views_of(cmds@).len() == cmds@.len());
            assert(rhs.len() == n);
            assert(out@.len() == i + 1);
            assert(views_of(out@).len() == i + 1);
            assert forall|j: int| 0 <= j < i + 1 implies views_of(out@)[j] == rhs.take(i + 1)[j] by {
                if j < i {
                    assert(views_of(out@)[j] == views_of(old_out)[j]);
                    assert(views_of(old_out)[j] == rhs.take(i as int)[j]);
                } else {
                    assert(views_of(out@)[j] == prepared@);
                }
            }
            assert(views_of(out@) =~= rhs.take(i + 1));
        }
        i = i + 1;
    }
    proof {
        assert(spec_prepared(views_of(cmds@), pair_views(variables@)).take(n as int)
            =~= spec_prepared(views_of(cmds@), pair_views(variables@)));
    }
    out
}

} // verus!
