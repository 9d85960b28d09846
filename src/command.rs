//! Commands prepared for the user's shell.
use vstd::prelude::*;

use crate::error::ErrorKind;
use crate::strmap::StringMap;
use crate::template::{make_safe, safe_text, substitute, var_string_replace};

verus! {

/// A script ready to run through the user's shell with `-c`: its variables substituted and
/// its quotes made safe, with the variables it is to see in its environment.
#[derive(Debug)]
pub struct ShellCommand {
    script: String,
    vars: StringMap,
}

impl ShellCommand {
    /// Substitutes `vars` into `script_template`, then escapes its quotes.
    pub fn prepare(script_template: &str, vars: &StringMap) -> (r: ShellCommand)
        ensures
            r.script_text() == safe_text(substitute(script_template@, vars@)),
            r.vars_map() == vars@,
            r.var_pairs() == vars.pairs(),
    {
        let script = make_safe(var_string_replace(script_template, vars).as_str());
        ShellCommand { script, vars: vars.clone() }
    }

    pub closed spec fn script_text(&self) -> Seq<char> {
        self.script@
    }

    pub closed spec fn vars_map(&self) -> Map<Seq<char>, Seq<char>> {
        self.vars@
    }

    pub closed spec fn var_pairs(&self) -> Seq<(Seq<char>, Seq<char>)> {
        self.vars.pairs()
    }

    /// The script to hand to the shell.
    pub fn script(&self) -> (r: &String)
        ensures
            r@ == self.script_text(),
    {
        &self.script
    }

    /// The variables the script sees.
    pub fn vars(&self) -> (r: &StringMap)
        ensures
            r@ == self.vars_map(),
            r.pairs() == self.var_pairs(),
    {
        &self.vars
    }
}

/// How a command ended: it could not be started, or it exited successfully, or it exited
/// with a failure status (`code` is `None` when a signal ended it).
pub fn command_outcome(program: &str, started: bool, success: bool, code: Option<i32>) -> (r: Result<
    (),
    ErrorKind,
>)
    ensures
        !started ==> (r matches Err(ErrorKind::CommandExecutionFailed(p, None)) && p@ == program@),
        started && success ==> r is Ok,
        started && !success ==> (r matches Err(ErrorKind::CommandExecutionFailed(p, c)) && p@
            == program@ && c == code),
{
    if !started {
        Err(ErrorKind::CommandExecutionFailed(String::from_str(program), None))
    } else if success {
        Ok(())
    } else {
        Err(ErrorKind::CommandExecutionFailed(String::from_str(program), code))
    }
}

} // verus!
