//! The directory of configuration files, opened in a development environment.

use crate::fault::{Fault, FaultView};
use crate::utils::{Invocation, InvocationView};
use crate::ides::{ides, list, GOLAND};
use crate::pattern::{captures, compiles, describe, groups_in};
use crate::text::{lex_lt, order, to_chars, Order};
use regex::Regex;
use vstd::prelude::*;
use vstd::string::StringExecFns;

verus! {

/// The form of the name under which an environment of JetBrains runs a terminal.
pub const JETBRAINS: &'static str = r"application\.com\.jetbrains\.(\w+)(?:-.+)?(?:\.\d+)*";

/// The environment that the parts `groups` of a service name tell: the first group after the
/// whole match, and the empty name where that group is missing.
pub open spec fn environment_of(groups: Seq<Option<Seq<char>>>) -> Seq<char> {
    if groups.len() >= 2 && groups[1] is Some {
        groups[1].unwrap()
    } else {
        Seq::empty()
    }
}

/// How many of the listed environments come before `name`.
pub open spec fn place_of(name: Seq<char>, upto: int) -> int
    decreases upto,
{
    if upto <= 0 {
        0
    } else {
        place_of(name, upto - 1) + if lex_lt(ides()[upto - 1], name) {
            1int
        } else {
            0int
        }
    }
}

/// The environment that the parts `groups` of a service name tell.
pub fn environment<'a>(groups: &Vec<Option<&'a str>>) -> (r: &'a str)
    ensures
        r@ == environment_of(groups.deep_view()),
{
    if groups.len() >= 2 {
        assert(groups.deep_view()[1] == groups[1].deep_view());
        match groups[1] {
            Some(name) => name,
            None => {
                proof {
                    reveal_strlit("");
                    assert(""@ =~= Seq::<char>::empty());
                }
                ""
            },
        }
    } else {
        proof {
            reveal_strlit("");
            assert(""@ =~= Seq::<char>::empty());
        }
        ""
    }
}

/// The environment in which the terminal with the service name `xpc_service_name` runs, where
/// the name has the form of such an environment.
pub fn running_ide(xpc_service_name: &str) -> (r: Result<Option<String>, Fault>)
    ensures
        !compiles(JETBRAINS@) ==> r is Err && r.unwrap_err()@ is Pattern,
        compiles(JETBRAINS@) ==> r is Ok && r.unwrap().deep_view() == (match groups_in(
            JETBRAINS@,
            xpc_service_name@,
        ) {
            Some(groups) => Some(environment_of(groups)),
            None => None,
        }),
{
    match Regex::new(JETBRAINS) {
        Ok(regex) => match captures(&regex, xpc_service_name) {
            Some(groups) => Ok(Some(String::from_str(environment(&groups)))),
            None => Ok(None),
        },
        Err(e) => Err(Fault::Pattern { reason: describe(&e) }),
    }
}

/// Where the environment `name` is listed.
pub fn position(name: &str) -> (r: Result<usize, Fault>)
    ensures
        is_place(name@, placed(r)),
{
    let all = list();
    let wanted = to_chars(name);
    let mut before: usize = 0;
    let mut i: usize = 0;
    while i < all.len()
        invariant
            i <= all.len(),
            all.deep_view() == ides(),
            wanted@ == name@,
            before == place_of(name@, i as int),
            before <= i,
            forall|j: int| 0 <= j < i ==> ides()[j] != name@,
        decreases all.len() - i,
    {
        let this = to_chars(all[i]);
        assert(this@ == ides()[i as int]) by {
            assert(all.deep_view()[i as int] == all[i as int]@);
        }
        match order(&this, &wanted) {
            Order::Same => {
                return Ok(i);
            },
            Order::Before => {
                before += 1;
            },
            Order::After => {},
        }
        i += 1;
    }
    Err(Fault::UnknownIde { place: before })
}

/// Whether `r` is where the environment `name` is listed: its place in the list, or the
/// fault that says where it would be listed.
pub open spec fn is_place(name: Seq<char>, r: Result<usize, FaultView>) -> bool {
    match r {
        Ok(i) => i < ides().len() && ides()[i as int] == name,
        Err(fault) => !ides().contains(name) && fault == (FaultView::UnknownIde {
            place: place_of(name, ides().len() as int) as usize,
        }),
    }
}

/// A place or a fault, the fault with its texts as sequences of characters.
pub open spec fn placed(r: Result<usize, Fault>) -> Result<usize, FaultView> {
    match r {
        Ok(i) => Ok(i),
        Err(fault) => Err(fault@),
    }
}

/// The place of the environment to open: that of `detected` where one was detected, and else
/// that of `fallback`.
pub fn select(detected: Option<&str>, fallback: &str) -> (r: Result<usize, Fault>)
    ensures
        is_place(
            match detected {
                Some(name) => name@,
                None => fallback@,
            },
            placed(r),
        ),
{
    match detected {
        Some(name) => position(name),
        None => position(fallback),
    }
}

/// What is run, or the fault, with the texts as sequences of characters.
pub open spec fn planned(r: Result<Option<Invocation>, Fault>) -> Result<
    Option<InvocationView>,
    FaultView,
> {
    match r {
        Ok(invocation) => Ok(invocation.deep_view()),
        Err(fault) => Err(fault@),
    }
}

/// Whether `r` is what is run to open the directory `path` from the terminal with the
/// service name `xpc_service_name`: the environment in which the terminal runs, and `goland`
/// where it runs in none, with the directory as its argument; nothing where no directory is
/// given. An environment that is not listed is a fault, and so is a pattern that does not
/// compile.
pub open spec fn opens(
    path: Option<Seq<char>>,
    xpc_service_name: Seq<char>,
    r: Result<Option<InvocationView>, FaultView>,
) -> bool {
    if !compiles(JETBRAINS@) {
        r is Err && r->Err_0 is Pattern
    } else {
        let name = match groups_in(JETBRAINS@, xpc_service_name) {
            Some(groups) => environment_of(groups),
            None => "goland"@,
        };
        if !ides().contains(name) {
            r == Err::<Option<InvocationView>, FaultView>(
                FaultView::UnknownIde { place: place_of(name, ides().len() as int) as usize },
            )
        } else {
            r == Ok::<Option<InvocationView>, FaultView>(
                match path {
                    Some(path) => Some(InvocationView { program: name, args: seq![path] }),
                    None => None,
                },
            )
        }
    }
}

/// The directory of configuration files, to be opened in an environment.
#[derive(Debug, Clone)]
pub struct Ide {
    /// The directory, where one is given.
    pub path: Option<String>,
}

/// What can be done with the directory of configuration files.
#[derive(Debug, Clone)]
pub enum DotCommands {
    /// Open it in an environment.
    Ide(Ide),
}

/// The directory of configuration files with what is to be done with it: `command` where one
/// is named, and else the opening in an environment.
#[derive(Debug, Clone)]
pub struct Dot {
    pub command: Option<DotCommands>,
    pub ide: Ide,
}

impl Ide {
    /// What is to be run to open the directory: the environment in which the terminal with
    /// the service name `xpc_service_name` runs, and `goland` where it runs in none, with the
    /// directory as its argument; nothing where no directory is given. An environment that is
    /// not listed is a fault.
    pub fn run(&self, xpc_service_name: &str) -> (r: Result<Option<Invocation>, Fault>)
        ensures
            opens(self.path.deep_view(), xpc_service_name@, planned(r)),
    {
        let detected = match running_ide(xpc_service_name) {
            Ok(d) => d,
            Err(e) => {
                return Err(e);
            },
        };
        let found = match &detected {
            Some(name) => select(Some(name.as_str()), GOLAND),
            None => select(None, GOLAND),
        };
        let index = match found {
            Ok(i) => i,
            Err(e) => {
                return Err(e);
            },
        };
        let all = list();
        assert(all.deep_view()[index as int] == all[index as int]@);
        match &self.path {
            Some(path) => {
                let mut args: Vec<String> = Vec::new();
                args.push(path.clone());
                assert(args.deep_view() =~= seq![path@]);
                Ok(Some(Invocation { program: String::from_str(all[index]), args }))
            },
            None => Ok(None),
        }
    }
}

impl Dot {
    /// What is to be run for the command that is named, or for the opening in an environment
    /// where none is named.
    pub fn run(&self, xpc_service_name: &str) -> (r: Result<Option<Invocation>, Fault>)
        ensures
            opens(
                match self.command {
                    Some(DotCommands::Ide(args)) => args.path.deep_view(),
                    None => self.ide.path.deep_view(),
                },
                xpc_service_name@,
                planned(r),
            ),
    {
        match &self.command {
            Some(DotCommands::Ide(args)) => args.run(xpc_service_name),
            None => self.ide.run(xpc_service_name),
        }
    }
}

} // verus!
