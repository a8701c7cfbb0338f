//! A repository, as its address in the form that `ssh` takes names it.

use crate::fault::{Fault, FaultView};
use crate::ides::{get, ide_for};
use crate::pattern::{captures, compiles, describe, groups_in};
use crate::text::{holds, lowercase, to_lowercase};
use regex::Regex;
use vstd::prelude::*;
use vstd::string::StringExecFns;

verus! {

/// The name under which every repository is reached.
pub const GIT: &'static str = "git";

/// The form of the address of a repository: `git@<host>:<org>/<name>.git`.
pub const ADDRESS: &'static str = r"^git@([^:]+):([^/]+)/(.+?)\.git$";

/// A repository: who reaches it, on which host it lies, and which organisation holds it under
/// which name.
#[derive(Debug)]
pub struct Repo<'a> {
    pub username: &'a str,
    pub host: &'a str,
    pub org: &'a str,
    pub name: &'a str,
}

/// A [`Repo`] with its texts as sequences of characters.
pub struct RepoView {
    pub username: Seq<char>,
    pub host: Seq<char>,
    pub org: Seq<char>,
    pub name: Seq<char>,
}

impl<'a> View for Repo<'a> {
    type V = RepoView;

    open spec fn view(&self) -> RepoView {
        RepoView { username: self.username@, host: self.host@, org: self.org@, name: self.name@ }
    }
}

impl<'a> DeepView for Repo<'a> {
    type V = RepoView;

    open spec fn deep_view(&self) -> RepoView {
        self@
    }
}

/// The repository that the parts `groups` of an address name: host, organisation and name are
/// the first three groups after the whole match. None where one of the three is missing.
pub open spec fn repo_of(groups: Seq<Option<Seq<char>>>) -> Option<RepoView> {
    if groups.len() >= 4 && groups[1] is Some && groups[2] is Some && groups[3] is Some {
        Some(
            RepoView {
                username: "git"@,
                host: groups[1].unwrap(),
                org: groups[2].unwrap(),
                name: groups[3].unwrap(),
            },
        )
    } else {
        None
    }
}

impl RepoView {
    /// Host, organisation and name, with `/` between them.
    pub open spec fn short_format(self) -> Seq<char> {
        self.host + "/"@ + self.org + "/"@ + self.name
    }
}

/// A language with the number of bytes written in it.
#[derive(Debug, Clone)]
pub struct Share {
    pub bytes: i64,
    pub language: String,
}

/// A [`Share`] with its language as a sequence of characters.
pub struct ShareView {
    pub bytes: i64,
    pub language: Seq<char>,
}

impl View for Share {
    type V = ShareView;

    open spec fn view(&self) -> ShareView {
        ShareView { bytes: self.bytes, language: self.language@ }
    }
}

impl DeepView for Share {
    type V = ShareView;

    open spec fn deep_view(&self) -> ShareView {
        self@
    }
}

/// The share that is entered for the share `listed`: the same number of bytes, and the
/// language in lowercase.
pub open spec fn entered(listed: ShareView) -> ShareView {
    ShareView { bytes: listed.bytes, language: lowercase(listed.language) }
}

/// The shares `listed`, each as it is entered.
pub open spec fn all_entered(listed: Seq<ShareView>) -> Seq<ShareView> {
    Seq::new(listed.len(), |i: int| entered(listed[i]))
}

/// Whether `out` is the ranking of the shares `listed`: its numbers of bytes ascend, each of
/// its shares is the last of `listed` with that number of bytes, and every number of bytes of
/// `listed` has its share in it.
pub open spec fn is_ranking(listed: Seq<ShareView>, out: Seq<ShareView>) -> bool {
    &&& forall|i: int, j: int|
        0 <= i < j < out.len() ==> (#[trigger] out[i]).bytes < (#[trigger] out[j]).bytes
    &&& forall|i: int| 0 <= i < out.len() ==> is_entered(listed, #[trigger] out[i])
    &&& forall|j: int| 0 <= j < listed.len() ==> has_size(out, (#[trigger] listed[j]).bytes)
}

/// Whether `share` is the last of `listed` with its number of bytes.
pub open spec fn is_entered(listed: Seq<ShareView>, share: ShareView) -> bool {
    exists|j: int| #[trigger] is_last_of_size(listed, j) && share == listed[j]
}

/// Whether one of `out` has the number of bytes `bytes`.
pub open spec fn has_size(out: Seq<ShareView>, bytes: i64) -> bool {
    exists|i: int| 0 <= i < out.len() && (#[trigger] out[i]).bytes == bytes
}

/// Whether no share after `listed[j]` has its number of bytes.
pub open spec fn is_last_of_size(listed: Seq<ShareView>, j: int) -> bool {
    &&& 0 <= j < listed.len()
    &&& forall|k: int| j < k < listed.len() ==> (#[trigger] listed[k]).bytes != listed[j].bytes
}

/// A ranking into which a share of a new size is entered at the place of its size is the
/// ranking of what was listed with that share after it.
proof fn lemma_rank_new(listed: Seq<ShareView>, out: Seq<ShareView>, s: ShareView, p: int)
    requires
        is_ranking(listed, out),
        0 <= p <= out.len(),
        forall|q: int| 0 <= q < p ==> (#[trigger] out[q]).bytes < s.bytes,
        p < out.len() ==> s.bytes < out[p].bytes,
    ensures
        is_ranking(listed.push(s), out.insert(p, s)),
{
    let l2 = listed.push(s);
    let o2 = out.insert(p, s);
    assert forall|q: int| p <= q < out.len() implies s.bytes < (#[trigger] out[q]).bytes by {
        if q > p {
            assert(out[p].bytes < out[q].bytes);
        }
    }
    assert forall|i: int, j: int| 0 <= i < j < o2.len() implies (#[trigger] o2[i]).bytes < (
    #[trigger] o2[j]).bytes by {
        let x = if i < p {
            i
        } else {
            i - 1
        };
        let y = if j < p {
            j
        } else {
            j - 1
        };
        if i != p {
            assert(o2[i] == out[x]);
        }
        if j != p {
            assert(o2[j] == out[y]);
        }
    }
    assert forall|j: int| 0 <= j < listed.len() implies (#[trigger] listed[j]).bytes
        != s.bytes by {
        assert(has_size(out, listed[j].bytes));
        let x = choose|x: int| 0 <= x < out.len() && (#[trigger] out[x]).bytes == listed[j].bytes;
        if x < p {
            assert(out[x].bytes < s.bytes);
        } else {
            assert(s.bytes < out[x].bytes);
        }
    }
    assert forall|i: int| 0 <= i < o2.len() implies is_entered(l2, #[trigger] o2[i]) by {
        if i == p {
            assert(l2[listed.len() as int] == s);
            assert(is_last_of_size(l2, listed.len() as int));
        } else {
            let x = if i < p {
                i
            } else {
                i - 1
            };
            assert(o2[i] == out[x]);
            assert(is_entered(listed, out[x]));
            let j = choose|j: int| #[trigger] is_last_of_size(listed, j) && out[x] == listed[j];
            assert(l2[j] == listed[j]);
            assert forall|k: int| j < k < l2.len() implies (#[trigger] l2[k]).bytes
                != l2[j].bytes by {
                if k < listed.len() {
                    assert(l2[k] == listed[k]);
                }
            }
            assert(is_last_of_size(l2, j));
        }
    }
    assert forall|j: int| 0 <= j < l2.len() implies has_size(o2, (#[trigger] l2[j]).bytes) by {
        if j == listed.len() {
            assert(o2[p].bytes == s.bytes);
        } else {
            assert(l2[j] == listed[j]);
            assert(has_size(out, listed[j].bytes));
            let x = choose|x: int| 0 <= x < out.len() && (#[trigger] out[x]).bytes
                == listed[j].bytes;
            let y = if x < p {
                x
            } else {
                x + 1
            };
            assert(o2[y] == out[x]);
            assert(o2[y].bytes == l2[j].bytes);
        }
    }
}

/// A ranking in which a further share takes the place of the share of its size is the
/// ranking of what was listed with that share after it.
proof fn lemma_rank_known(listed: Seq<ShareView>, out: Seq<ShareView>, s: ShareView, p: int)
    requires
        is_ranking(listed, out),
        0 <= p < out.len(),
        out[p].bytes == s.bytes,
    ensures
        is_ranking(listed.push(s), out.update(p, s)),
{
    let l2 = listed.push(s);
    let o2 = out.update(p, s);
    assert forall|i: int| 0 <= i < o2.len() implies (#[trigger] o2[i]).bytes == out[i].bytes by {}
    assert forall|i: int, j: int| 0 <= i < j < o2.len() implies (#[trigger] o2[i]).bytes < (
    #[trigger] o2[j]).bytes by {
        assert(out[i].bytes < out[j].bytes);
    }
    assert forall|i: int| 0 <= i < o2.len() implies is_entered(l2, #[trigger] o2[i]) by {
        if i == p {
            assert(l2[listed.len() as int] == s);
            assert(is_last_of_size(l2, listed.len() as int));
        } else {
            assert(o2[i] == out[i]);
            assert(is_entered(listed, out[i]));
            let j = choose|j: int| #[trigger] is_last_of_size(listed, j) && out[i] == listed[j];
            assert(l2[j] == listed[j]);
            if i < p {
                assert(out[i].bytes < out[p].bytes);
            } else {
                assert(out[p].bytes < out[i].bytes);
            }
            assert forall|k: int| j < k < l2.len() implies (#[trigger] l2[k]).bytes
                != l2[j].bytes by {
                if k < listed.len() {
                    assert(l2[k] == listed[k]);
                }
            }
            assert(is_last_of_size(l2, j));
        }
    }
    assert forall|j: int| 0 <= j < l2.len() implies has_size(o2, (#[trigger] l2[j]).bytes) by {
        if j == listed.len() {
            assert(o2[p].bytes == s.bytes);
        } else {
            assert(l2[j] == listed[j]);
            assert(has_size(out, listed[j].bytes));
            let x = choose|x: int| 0 <= x < out.len() && (#[trigger] out[x]).bytes
                == listed[j].bytes;
            assert(o2[x].bytes == l2[j].bytes);
        }
    }
}

/// The environment for the language of the greatest share that has one among `installed`:
/// the shares are gone through from the last to the first.
pub open spec fn preferred_ide(ranking: Seq<ShareView>, installed: Seq<Seq<char>>) -> Option<
    Seq<char>,
>
    decreases ranking.len(),
{
    if ranking.len() == 0 {
        None
    } else {
        match ide_for(ranking.last().language) {
            Some(ide) if installed.contains(ide) => Some(ide),
            _ => preferred_ide(ranking.drop_last(), installed),
        }
    }
}

/// The ranking of `shares`: in the order of their numbers of bytes. Of shares of one size
/// the last stays.
pub fn rank(shares: &Vec<Share>) -> (r: Vec<Share>)
    ensures
        is_ranking(shares.deep_view(), r.deep_view()),
{
    let mut out: Vec<Share> = Vec::new();
    let mut i: usize = 0;
    assert(shares.deep_view().take(0) =~= Seq::<ShareView>::empty());
    while i < shares.len()
        invariant
            i <= shares.len(),
            is_ranking(shares.deep_view().take(i as int), out.deep_view()),
        decreases shares.len() - i,
    {
        let bytes = shares[i].bytes;
        let share = Share { bytes, language: shares[i].language.clone() };
        let ghost before = out.deep_view();
        let ghost seen = shares.deep_view().take(i as int);
        let ghost s = shares[i as int]@;
        assert(shares.deep_view().take(i + 1) =~= seen.push(s));
        assert(share@ == s);
        let mut p: usize = 0;
        while p < out.len() && out[p].bytes < bytes
            invariant
                p <= out.len(),
                out.deep_view() == before,
                forall|q: int| 0 <= q < p ==> (#[trigger] before[q]).bytes < bytes,
            decreases out.len() - p,
        {
            assert(before[p as int] == out[p as int]@);
            p += 1;
        }
        if p < out.len() {
            assert(before[p as int] == out[p as int]@);
        }
        if p < out.len() && out[p].bytes == bytes {
            proof {
                lemma_rank_known(seen, before, s, p as int);
            }
            out.set(p, share);
            assert(out.deep_view() =~= before.update(p as int, s));
        } else {
            proof {
                lemma_rank_new(seen, before, s, p as int);
            }
            out.insert(p, share);
            assert(out.deep_view() =~= before.insert(p as int, s));
        }
        i += 1;
    }
    assert(shares.deep_view().take(shares.deep_view().len() as int) =~= shares.deep_view());
    out
}

impl<'a> Repo<'a> {
    /// The repository that the parts `groups` of an address name.
    pub fn from_groups(groups: &Vec<Option<&'a str>>) -> (r: Option<Repo<'a>>)
        ensures
            r.deep_view() == repo_of(groups.deep_view()),
    {
        if groups.len() < 4 {
            return None;
        }
        assert(groups.deep_view()[1] == groups[1].deep_view());
        assert(groups.deep_view()[2] == groups[2].deep_view());
        assert(groups.deep_view()[3] == groups[3].deep_view());
        match (groups[1], groups[2], groups[3]) {
            (Some(host), Some(org), Some(name)) => Some(Repo { username: GIT, host, org, name }),
            _ => None,
        }
    }

    /// The repository that the address `url` names.
    pub fn parse(url: &'a str) -> (r: Result<Repo<'a>, Fault>)
        ensures
            !compiles(ADDRESS@) ==> r is Err && r.unwrap_err()@ is Pattern,
            compiles(ADDRESS@) ==> match groups_in(ADDRESS@, url@) {
                Some(groups) if repo_of(groups) is Some => r is Ok && r.unwrap()@ == repo_of(
                    groups,
                ).unwrap(),
                _ => r is Err && r.unwrap_err()@ == (FaultView::InvalidRepository { url: url@ }),
            },
    {
        let parts = match Regex::new(ADDRESS) {
            Ok(regex) => captures(&regex, url),
            Err(e) => {
                return Err(Fault::Pattern { reason: describe(&e) });
            },
        };
        let found = match parts {
            Some(groups) => Repo::from_groups(&groups),
            None => None,
        };
        match found {
            Some(repo) => Ok(repo),
            None => Err(Fault::InvalidRepository { url: String::from_str(url) }),
        }
    }

    /// Host, organisation and name, with `/` between them.
    pub fn short_format(&self) -> (r: String)
        ensures
            r@ == self@.short_format(),
    {
        String::from_str(self.host).concat("/").concat(self.org).concat("/").concat(self.name)
    }

    /// The ranking of the languages of a repository: the shares `listed`, each language in
    /// lowercase, in the order of their numbers of bytes. Of shares of one size the last
    /// stays.
    pub fn get_languages(&self, listed: &Vec<Share>) -> (r: Vec<Share>)
        ensures
            is_ranking(all_entered(listed.deep_view()), r.deep_view()),
    {
        let mut lowered: Vec<Share> = Vec::new();
        let mut i: usize = 0;
        while i < listed.len()
            invariant
                i <= listed.len(),
                lowered.deep_view() == all_entered(listed.deep_view().take(i as int)),
            decreases listed.len() - i,
        {
            let ghost before = lowered.deep_view();
            let share = Share {
                bytes: listed[i].bytes,
                language: to_lowercase(listed[i].language.as_str()),
            };
            let ghost s = share@;
            lowered.push(share);
            assert(lowered.deep_view() =~= before.push(s));
            assert(before.push(s) =~= all_entered(listed.deep_view().take(i + 1)));
            i += 1;
        }
        assert(listed.deep_view().take(listed.deep_view().len() as int) =~= listed.deep_view());
        rank(&lowered)
    }

    /// The environment in which the repository is opened: that of the language of the greatest
    /// share in `ranking` whose environment is among `installed`.
    pub fn find_ide(&self, ranking: &Vec<Share>, installed: &Vec<String>) -> (r: Option<
        &'static str,
    >)
        ensures
            r.deep_view() == preferred_ide(ranking.deep_view(), installed.deep_view()),
    {
        let mut i: usize = ranking.len();
        assert(ranking.deep_view().take(i as int) =~= ranking.deep_view());
        while i > 0
            invariant
                i <= ranking.len(),
                preferred_ide(ranking.deep_view(), installed.deep_view()) == preferred_ide(
                    ranking.deep_view().take(i as int),
                    installed.deep_view(),
                ),
            decreases i,
        {
            proof {
                let t = ranking.deep_view().take(i as int);
                assert(t.drop_last() =~= ranking.deep_view().take(i - 1));
                assert(t.last() == ranking[i - 1]@);
            }
            i -= 1;
            match get(ranking[i].language.as_str()) {
                Some(ide) => {
                    if holds(installed, ide) {
                        return Some(ide);
                    }
                },
                None => {},
            }
        }
        None
    }
}

} // verus!
