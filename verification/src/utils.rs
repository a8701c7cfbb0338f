//! The forms in which the address of a repository is given.

use crate::fault::{Fault, FaultView};
use crate::pattern::{captures, compiles, describe, groups_in, matches_in};
use crate::text::{replace, replaced, trim, trim_end_matches, trimmed, without_suffixes};
use regex::Regex;
use vstd::prelude::*;
use vstd::string::StringExecFns;

verus! {

/// The form that `ssh` takes: `git@<host>:<org>/<repo>.git`.
pub const SSH_FORM: &'static str = r"^git@([^/]+):([^/]+)/([^/]+)\.git$";

/// The form that a browser takes: `http[s]://<host>/<org>/<repo>[/...]`.
pub const HTTP_FORM: &'static str = r"^https?://([^/]+)/([^/]+)/([^/]+)(?:/.*?)?$";

/// The form that a browser takes, for taking host, organisation and repository from it.
pub const HTTP_PARTS: &'static str = r"^https?://([^/]+)/([^/]+)/([^/]+)(?:/.*)?$";

/// A program to be run with arguments.
#[derive(Debug, Clone)]
pub struct Invocation {
    pub program: String,
    pub args: Vec<String>,
}

/// An [`Invocation`] with its texts as sequences of characters.
pub struct InvocationView {
    pub program: Seq<char>,
    pub args: Seq<Seq<char>>,
}

impl View for Invocation {
    type V = InvocationView;

    open spec fn view(&self) -> InvocationView {
        InvocationView { program: self.program@, args: self.args.deep_view() }
    }
}

impl DeepView for Invocation {
    type V = InvocationView;

    open spec fn deep_view(&self) -> InvocationView {
        self@
    }
}

/// A result with its texts as sequences of characters.
pub open spec fn outcome(r: Result<String, Fault>) -> Result<Seq<char>, FaultView> {
    match r {
        Ok(text) => Ok(text@),
        Err(fault) => Err(fault@),
    }
}

/// Whether `r` is what `repository` is read as: the address without the whitespace around it
/// where that has the form that `ssh` takes or the form that a browser takes. The forms are
/// tried in this order, and one that does not compile ends the reading.
pub open spec fn is_parsed(repository: Seq<char>, r: Result<Seq<char>, FaultView>) -> bool {
    let address = trimmed(repository);
    if !compiles(SSH_FORM@) {
        r is Err && r->Err_0 is Pattern
    } else if matches_in(SSH_FORM@, address) {
        r == Ok::<Seq<char>, FaultView>(address)
    } else if !compiles(HTTP_FORM@) {
        r is Err && r->Err_0 is Pattern
    } else if matches_in(HTTP_FORM@, address) {
        r == Ok::<Seq<char>, FaultView>(address)
    } else {
        r == Err::<Seq<char>, FaultView>(FaultView::UnsupportedRepository)
    }
}

/// Whether `r` is what `repository` is converted to: the address without the whitespace
/// around it where that has the form that `ssh` takes, and else what is made of its parts
/// where it has the form that a browser takes.
pub open spec fn is_converted(repository: Seq<char>, r: Result<Seq<char>, FaultView>) -> bool {
    let address = trimmed(repository);
    if !compiles(SSH_FORM@) {
        r is Err && r->Err_0 is Pattern
    } else if matches_in(SSH_FORM@, address) {
        r == Ok::<Seq<char>, FaultView>(address)
    } else if !compiles(HTTP_PARTS@) {
        r is Err && r->Err_0 is Pattern
    } else {
        match groups_in(HTTP_PARTS@, address) {
            Some(groups) if ssh_address(groups) is Some => r == Ok::<Seq<char>, FaultView>(
                ssh_address(groups).unwrap(),
            ),
            _ => r == Err::<Seq<char>, FaultView>(FaultView::NotConvertible),
        }
    }
}

/// The address that is taken from `repository`, given whether it has the form that `ssh`
/// takes and whether it has the form that a browser takes: the address itself where it has
/// one of them.
pub fn accept_repository(repository: &str, ssh: bool, http: bool) -> (r: Result<String, Fault>)
    ensures
        ssh || http ==> r is Ok && r.unwrap()@ == repository@,
        !ssh && !http ==> r is Err && r.unwrap_err()@ == FaultView::UnsupportedRepository,
{
    if ssh || http {
        Ok(String::from_str(repository))
    } else {
        Err(Fault::UnsupportedRepository)
    }
}

/// Whether `text` has the form `form`.
pub fn has_form(form: &str, text: &str) -> (r: Result<bool, Fault>)
    ensures
        compiles(form@) ==> r is Ok && r.unwrap() == matches_in(form@, text@),
        !compiles(form@) ==> r is Err && r.unwrap_err()@ is Pattern,
{
    match Regex::new(form) {
        Ok(regex) => Ok(regex.is_match(text)),
        Err(e) => Err(Fault::Pattern { reason: describe(&e) }),
    }
}

/// The address of a repository that `repository` holds: `repository` without the whitespace
/// around it, where that has the form that `ssh` takes or the form that a browser takes.
pub fn parse_repository(repository: &str) -> (r: Result<String, Fault>)
    ensures
        is_parsed(repository@, outcome(r)),
{
    let repo = trim(repository);
    let ssh = match has_form(SSH_FORM, repo) {
        Ok(b) => b,
        Err(e) => {
            return Err(e);
        },
    };
    let http = if ssh {
        false
    } else {
        match has_form(HTTP_FORM, repo) {
            Ok(b) => b,
            Err(e) => {
                return Err(e);
            },
        }
    };
    accept_repository(repo, ssh, http)
}

/// Whether `repository` holds the address of a repository.
pub fn validate_repository(repository: &str) -> (r: Result<(), Fault>)
    ensures
        exists|parsed: Result<Seq<char>, FaultView>| #[trigger]
            is_parsed(repository@, parsed) && (r is Ok <==> parsed is Ok) && (r is Err ==> parsed
                == Err::<Seq<char>, FaultView>(r.unwrap_err()@)),
{
    let parsed = parse_repository(repository);
    assert(is_parsed(repository@, outcome(parsed)));
    match parsed {
        Ok(_) => Ok(()),
        Err(e) => Err(e),
    }
}

/// The address in the form that `ssh` takes, made of the parts `groups` of an address in the
/// form that a browser takes: of host, organisation and repository, the last without any
/// `.git` at its end. None where one of the three is missing.
pub open spec fn ssh_address(groups: Seq<Option<Seq<char>>>) -> Option<Seq<char>> {
    if groups.len() >= 4 && groups[1] is Some && groups[2] is Some && groups[3] is Some {
        Some(
            "git@"@ + groups[1].unwrap() + ":"@ + groups[2].unwrap() + "/"@ + without_suffixes(
                groups[3].unwrap(),
                ".git"@,
            ) + ".git"@,
        )
    } else {
        None
    }
}

/// The address in the form that `ssh` takes, made of the parts `groups` of an address in the
/// form that a browser takes.
pub fn ssh_form(groups: &Vec<Option<&str>>) -> (r: Option<String>)
    ensures
        r.deep_view() == ssh_address(groups.deep_view()),
{
    if groups.len() < 4 {
        return None;
    }
    assert(groups.deep_view()[1] == groups[1].deep_view());
    assert(groups.deep_view()[2] == groups[2].deep_view());
    assert(groups.deep_view()[3] == groups[3].deep_view());
    match (groups[1], groups[2], groups[3]) {
        (Some(host), Some(org), Some(repo)) => Some(
            String::from_str("git@").concat(host).concat(":").concat(org).concat("/").concat(
                trim_end_matches(repo, ".git"),
            ).concat(".git"),
        ),
        _ => None,
    }
}

/// The address of the repository that `repository` holds, in the form that `ssh` takes:
/// `repository` without the whitespace around it where it has that form, and else what is
/// made of its parts where it has the form that a browser takes.
pub fn convert_to_ssh(repository: &str) -> (r: Result<String, Fault>)
    ensures
        is_converted(repository@, outcome(r)),
{
    let repo = trim(repository);
    match has_form(SSH_FORM, repo) {
        Ok(true) => {
            return Ok(String::from_str(repo));
        },
        Ok(false) => {},
        Err(e) => {
            return Err(e);
        },
    }
    let parts = match Regex::new(HTTP_PARTS) {
        Ok(regex) => captures(&regex, repo),
        Err(e) => {
            return Err(Fault::Pattern { reason: describe(&e) });
        },
    };
    match parts {
        Some(groups) => match ssh_form(&groups) {
            Some(address) => Ok(address),
            None => Err(Fault::NotConvertible),
        },
        None => Err(Fault::NotConvertible),
    }
}

/// The path `directory` as it is shown: with `~` in the place of each occurrence of `home`.
pub fn format_directory(directory: &str, home: &str) -> (r: String)
    ensures
        r@ == replaced(directory@, home@, "~"@),
{
    replace(directory, home, "~")
}

} // verus!
