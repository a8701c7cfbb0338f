//! The cloning of a project: what is cloned, where to, and what is asked on the way.

use crate::dot::{environment_of, is_place, running_ide, select, JETBRAINS};
use crate::pattern::{compiles, groups_in};
use crate::fault::{Fault, FaultView};
use crate::ides::CLION;
use crate::path::{join, joined};
use crate::repo::Repo;
use crate::utils::{
    convert_to_ssh, is_converted, is_parsed, outcome, parse_repository, validate_repository,
};
use crate::text::{trim, trimmed};
use vstd::prelude::*;

verus! {

/// The cloning of a project, as it was asked for.
#[derive(Debug, Clone)]
pub struct CloneProject {
    /// The address of the repository, where it is given.
    pub repository_url: Option<String>,
    /// Whether the clone is opened in an environment.
    pub open_ide: bool,
    /// Whether a clean repository in the way is removed without a question.
    pub force: bool,
    /// The directory under which the clone is put, by organisation and name.
    pub root_directory: Option<String>,
    /// The directory into which the clone is put, whatever `root_directory` says.
    pub directory: Option<String>,
    /// Whether the remote `origin` is renamed to `upstream` after the cloning.
    pub rename_origin: bool,
    /// Whether an address in the form that a browser takes is brought into the form that
    /// `ssh` takes.
    pub convert_to_ssh: bool,
}

/// What is asked before a directory in the way is removed.
#[derive(Debug, Clone, Copy, PartialEq, Eq, Structural)]
pub enum Question {
    /// The directory holds a repository with changes that are not committed.
    Dirty,
    /// The directory holds a repository without such changes.
    Clean,
}

/// What stands where the clone is to go.
#[derive(Debug, Clone, Copy, PartialEq, Eq, Structural)]
pub struct Site {
    /// Whether a directory that is not empty stands there.
    pub occupied: bool,
    /// Whether that directory holds a repository.
    pub repository: bool,
    /// Whether that repository has changes that are not committed.
    pub dirty: bool,
}

/// What is done before the cloning.
#[derive(Debug, Clone, Copy, PartialEq, Eq, Structural)]
pub struct Clearing {
    /// What is asked first, where anything is asked: on the answer no, nothing is removed and
    /// nothing is cloned.
    pub question: Option<Question>,
    /// Whether the directory in the way is removed.
    pub remove: bool,
}

/// What is done after the cloning.
#[derive(Debug, Clone, Copy, PartialEq, Eq, Structural)]
pub struct Followup {
    /// Whether the remote `origin` is renamed to `upstream`.
    pub rename_origin: bool,
    /// Whether the clone is opened in an environment.
    pub open_ide: bool,
}

/// The commands of `git` that the tool adds.
#[derive(Debug, Clone)]
pub enum Git {
    /// Clone a project.
    CloneProject(CloneProject),
}

/// Whether `r` is what the text `s` is read as: converted to the form that `ssh` takes with
/// `convert`, and else as it is parsed.
pub open spec fn is_read(convert: bool, s: Seq<char>, r: Result<Seq<char>, FaultView>) -> bool {
    if convert {
        is_converted(s, r)
    } else {
        is_parsed(s, r)
    }
}

/// Whether `r` offers the place of the environment `name` in the list, or is the fault that
/// says that `name` is not listed.
pub open spec fn is_offered(name: Seq<char>, r: Result<Option<usize>, Fault>) -> bool {
    match r {
        Ok(place) => place is Some && is_place(name, Ok::<usize, FaultView>(place.unwrap())),
        Err(fault) => is_place(name, Err::<usize, FaultView>(fault@)),
    }
}

impl CloneProject {
    /// The address of the repository that `s` holds: converted to the form that `ssh` takes
    /// where that is asked for, and else as it is read.
    pub fn parse_repository(&self, s: &str) -> (r: Result<String, Fault>)
        ensures
            is_read(self.convert_to_ssh, s@, outcome(r)),
    {
        if !self.convert_to_ssh {
            return parse_repository(s);
        }
        convert_to_ssh(s)
    }

    /// The address that is offered when the address is asked for: what the clipboard holds,
    /// without the whitespace around it, where that is the address of a repository.
    pub fn offered(&self, clipboard: &str) -> (r: Result<Option<String>, Fault>)
        ensures
            match r {
                Ok(Some(address)) => is_read(
                    self.convert_to_ssh,
                    trimmed(clipboard@),
                    Ok::<Seq<char>, FaultView>(address@),
                ),
                Ok(None) => exists|parsed: Result<Seq<char>, FaultView>| #[trigger]
                    is_parsed(trimmed(clipboard@), parsed) && parsed is Err,
                Err(fault) => is_read(
                    self.convert_to_ssh,
                    trimmed(clipboard@),
                    Err::<Seq<char>, FaultView>(fault@),
                ),
            },
    {
        let clipboard = trim(clipboard);
        if validate_repository(clipboard).is_ok() {
            match self.parse_repository(clipboard) {
                Ok(address) => Ok(Some(address)),
                Err(e) => Err(e),
            }
        } else {
            Ok(None)
        }
    }

    /// Where the clone of `repo` goes: into `directory` where that is given, and else under
    /// `root_directory`, by organisation and name. A fault where neither is given.
    pub fn target(&self, repo: &Repo) -> (r: Result<String, Fault>)
        ensures
            match (self.directory, self.root_directory) {
                (Some(directory), _) => r is Ok && r.unwrap()@ == directory@,
                (None, Some(root)) => r is Ok && r.unwrap()@ == joined(
                    joined(root@, repo@.org),
                    repo@.name,
                ),
                (None, None) => r is Err && r.unwrap_err()@ == FaultView::NoDirectory,
            },
    {
        match &self.directory {
            Some(directory) => Ok(directory.clone()),
            None => match &self.root_directory {
                Some(root) => {
                    let org = join(root.as_str(), repo.org);
                    Ok(join(org.as_str(), repo.name))
                },
                None => Err(Fault::NoDirectory),
            },
        }
    }

    /// What is done before the cloning, given what stands where the clone is to go: a
    /// directory that is not empty is removed, after a question where it holds a repository
    /// that has changes, or that has none while `force` is not set.
    pub fn clearing(&self, site: Site) -> (r: Clearing)
        ensures
            r.remove == site.occupied,
            r.question == (if site.occupied && site.repository && site.dirty {
                Some(Question::Dirty)
            } else if site.occupied && site.repository && !self.force {
                Some(Question::Clean)
            } else {
                None
            }),
    {
        if !site.occupied {
            return Clearing { question: None, remove: false };
        }
        let question = if site.repository {
            if site.dirty {
                Some(Question::Dirty)
            } else if !self.force {
                Some(Question::Clean)
            } else {
                None
            }
        } else {
            None
        };
        Clearing { question, remove: true }
    }

    /// What is done after the cloning: where the project was cloned, `origin` is renamed
    /// where that is asked for, and the clone is opened where that is asked for; where the
    /// cloning was called off, nothing is renamed, and the directory is opened where that is
    /// asked for and `confirmed`.
    pub fn followup(&self, cloned: bool, confirmed: bool) -> (r: Followup)
        ensures
            r.rename_origin == (cloned && self.rename_origin),
            r.open_ide == (self.open_ide && (cloned || confirmed)),
    {
        if cloned {
            Followup { rename_origin: self.rename_origin, open_ide: self.open_ide }
        } else {
            Followup { rename_origin: false, open_ide: confirmed && self.open_ide }
        }
    }

    /// The place in the list of environments that is offered first when the environment for
    /// the clone is chosen: that of `found`, the environment for the languages of the
    /// project, where there is one; else that of the environment in which the terminal with
    /// the service name `xpc_service_name` runs; else the first.
    pub fn open_ide_maybe(&self, found: Option<&str>, xpc_service_name: &str) -> (r: Result<
        Option<usize>,
        Fault,
    >)
        ensures
            !self.open_ide ==> r is Ok && r.unwrap() is None,
            self.open_ide && found is Some ==> is_offered(found.unwrap()@, r),
            self.open_ide && found is None && !compiles(JETBRAINS@) ==> r is Err
                && r.unwrap_err()@ is Pattern,
            self.open_ide && found is None && compiles(JETBRAINS@) ==> is_offered(
                match groups_in(JETBRAINS@, xpc_service_name@) {
                    Some(groups) => environment_of(groups),
                    None => "clion"@,
                },
                r,
            ),
    {
        if !self.open_ide {
            return Ok(None);
        }
        let first = CLION;
        let chosen = match found {
            Some(ide) => select(Some(ide), first),
            None => match running_ide(xpc_service_name) {
                Ok(Some(name)) => select(Some(name.as_str()), first),
                Ok(None) => select(None, first),
                Err(e) => Err(e),
            },
        };
        match chosen {
            Ok(place) => Ok(Some(place)),
            Err(e) => Err(e),
        }
    }
}

} // verus!
