//! Git hook scripts: turns the hooks configuration into one shell script
//! per hook, rejecting names that are not git hooks.

use vstd::prelude::*;
use vstd::string::*;

use crate::chars::seq_views;
use crate::error::Error;

verus! {

/// Hooks configuration: each git hook name with the commands it runs.
pub type HooksConfig = Vec<(String, Vec<String>)>;

/// Whether a name is one of the git hooks the tool accepts.
pub open spec fn spec_is_git_hook(k: Seq<char>) -> bool {
    ||| k == "pre-commit"@
    ||| k == "prepare-commit-msg"@
    ||| k == "commit-msg"@
    ||| k == "post-commit"@
    ||| k == "pre-push"@
}

/// The commands block of a hook script: each command followed by a newline.
pub open spec fn spec_cmds_block(cmds: Seq<Seq<char>>) -> Seq<char>
    decreases cmds.len(),
{
    if cmds.len() == 0 {
        Seq::empty()
    } else {
        cmds[0] + seq!['\n'] + spec_cmds_block(cmds.drop_first())
    }
}

/// The shell script of a hook: the shebang, an echo naming the hook, and
/// the commands.
pub open spec fn spec_hook_script(key: Seq<char>, cmds: Seq<Seq<char>>) -> Seq<char> {
    "#!/bin/sh"@ + seq!['\n', '\n'] + "echo 'i Running "@ + key + " hook'"@ + seq!['\n', '\n']
        + spec_cmds_block(cmds)
}

fn is_git_hook(key: &String) -> (r: bool)
    ensures
        r == spec_is_git_hook(key@),
{
    let k1: String = "pre-commit".to_owned();
    let k2: String = "prepare-commit-msg".to_owned();
    let k3: String = "commit-msg".to_owned();
    let k4: String = "post-commit".to_owned();
    let k5: String = "pre-push".to_owned();
    *key == k1 || *key == k2 || *key == k3 || *key == k4 || *key == k5
}

/// Creates the git hook shell scripts: one `(hook, script)` pair per
/// configured hook, in order, or an error when a configured name is not a
/// git hook.
pub fn create_git_hooks_scripts(config: &HooksConfig) -> (r: Result<Vec<(String, String)>, Error>)
    ensures
        match r {
            Ok(scripts) => (forall|i: int|
                0 <= i < config@.len() ==> spec_is_git_hook((#[trigger] config@[i]).0@))
                && scripts@.len() == config@.len() && forall|i: int|
                0 <= i < config@.len() ==> (#[trigger] scripts@[i]).0@ == config@[i].0@
                    && scripts@[i].1@ == spec_hook_script(
                    config@[i].0@,
                    seq_views(config@[i].1@),
                ),
            Err(e) => exists|i: int|
                0 <= i < config@.len() && !spec_is_git_hook((#[trigger] config@[i]).0@),
        },
{
    let n = config.len();
    let mut scripts: Vec<(String, String)> = Vec::new();
    let mut i: usize = 0;
    while i < n
        invariant
            i <= n,
            n == config@.len(),
            scripts@.len() == i,
            forall|k: int| 0 <= k < i ==> spec_is_git_hook((#[trigger] config@[k]).0@),
            forall|k: int|
                0 <= k < i ==> (#[trigger] scripts@[k]).0@ == config@[k].0@ && scripts@[k].1@
                    == spec_hook_script(config@[k].0@, seq_views(config@[k].1@)),
        decreases n - i,
    {
        let key = &config[i].0;
        if !is_git_hook(key) {
            return Err(Error::msg("invalid git hook"));
        }
        proof {
            reveal_strlit("\n\n");
            reveal_strlit("\n");
        }
        let mut script: String = "#!/bin/sh".to_owned();
        script.append("\n\n");
        script.append("echo 'i Running ");
        script.append(key.as_str());
        script.append(" hook'");
        script.append("\n\n");
        let ghost hdr = script@;
        assert(hdr =~= "#!/bin/sh"@ + seq!['\n', '\n'] + "echo 'i Running "@ + key@ + " hook'"@
            + seq!['\n', '\n']);
        let cmds = &config[i].1;
        let ghost cv = seq_views(cmds@);
        let m = cmds.len();
        proof {
            assert(script@.skip(hdr.len() as int) =~= Seq::<char>::empty());
            assert(cv.skip(0) =~= cv);
            assert(script@.take(hdr.len() as int) =~= hdr);
        }
        let mut j: usize = 0;
        while j < m
            invariant
                j <= m,
                m == cmds@.len(),
                cv == seq_views(cmds@),
                spec_cmds_block(cv) == script@.skip(hdr.len() as int) + spec_cmds_block(
                    cv.skip(j as int),
                ),
                script@.len() >= hdr.len(),
                script@.take(hdr.len() as int) == hdr,
            decreases m - j,
        {
            proof {
                reveal_strlit("\n");
                assert(cv.skip(j as int)[0] == cv[j as int]);
                assert(cv[j as int] == cmds@[j as int]@);
                assert(cv.skip(j as int).drop_first() =~= cv.skip(j as int + 1));
            }
            let ghost pre = script@;
            script.append(cmds[j].as_str());
            script.append("\n");
            proof {
                assert(script@.skip(hdr.len() as int) =~= pre.skip(hdr.len() as int)
                    + cv[j as int] + seq!['\n']);
                assert(script@.take(hdr.len() as int) =~= hdr);
                assert(pre.skip(hdr.len() as int) + (cv[j as int] + seq!['\n']
                    + spec_cmds_block(cv.skip(j as int + 1))) =~= (pre.skip(hdr.len() as int)
                    + cv[j as int] + seq!['\n']) + spec_cmds_block(cv.skip(j as int + 1)));
            }
            j = j + 1;
        }
        proof {
            assert(cv.skip(m as int) =~= Seq::<Seq<char>>::empty());
            assert(script@.skip(hdr.len() as int) + spec_cmds_block(cv.skip(m as int))
                =~= script@.skip(hdr.len() as int));
            assert(script@ =~= hdr + script@.skip(hdr.len() as int));
            assert(script@ =~= spec_hook_script(config@[i as int].0@, cv));
        }
        scripts.push((key.clone(), script));
        i = i + 1;
    }
    Ok(scripts)
}

} // verus!
