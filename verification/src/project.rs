//! The project that a session belongs to.

use vstd::prelude::*;

use crate::connector::parts::text_or;
use crate::paths::{file_name, name_of};
use crate::text::{
    begins_with, chars_of, find_char, index_of_char, is_space, lemma_index_of_char, split,
    split_text, string_of, strip_prefix, trim, trim_end_matches, trim_text, without_suffix,
};

pub mod laws;

verus! {

/// A project: a directory, and the repository that it is a working copy of.
#[derive(Clone, Debug)]
pub struct Project<S = String> {
    pub root_path: S,
    pub git_remote: Option<S>,
    pub git_owner: Option<S>,
    pub git_repo: Option<S>,
    pub slug: S,
}

pub type ProjectView = Project<Seq<char>>;

impl DeepView for Project {
    type V = ProjectView;

    open spec fn deep_view(&self) -> ProjectView {
        Project {
            root_path: self.root_path@,
            git_remote: self.git_remote.deep_view(),
            git_owner: self.git_owner.deep_view(),
            git_repo: self.git_repo.deep_view(),
            slug: self.slug@,
        }
    }
}

/// An owner and a repository.
pub type OwnerRepo = (Option<Seq<char>>, Option<Seq<char>>);

/// The index of the first two slashes in a row, or the length of `s`.
pub open spec fn scheme_end(s: Seq<char>) -> int
    decreases s.len(),
{
    if s.len() < 2 {
        s.len() as int
    } else if s[0] == '/' && s[1] == '/' {
        0
    } else {
        1 + scheme_end(s.drop_first())
    }
}

/// The text without the slashes at its beginning.
pub open spec fn without_leading(s: Seq<char>) -> Seq<char>
    decreases s.len(),
{
    if s.len() > 0 && s[0] == '/' {
        without_leading(s.drop_first())
    } else {
        s
    }
}

/// The text without the slashes at its end.
pub open spec fn without_trailing(s: Seq<char>) -> Seq<char>
    decreases s.len(),
{
    if s.len() > 0 && s.last() == '/' {
        without_trailing(s.drop_last())
    } else {
        s
    }
}

/// `git@github.com:owner/repo.git`.
pub open spec fn ssh_remote(url: Seq<char>) -> Option<OwnerRepo> {
    let prefix = "git@github.com:"@;
    if begins_with(url, prefix) {
        let parts = split_text(without_suffix(url.skip(prefix.len() as int), ".git"@), '/');
        if parts.len() == 2 {
            Some((Some(parts[0]), Some(parts[1])))
        } else {
            None
        }
    } else {
        None
    }
}

/// `scheme://host/owner/repo.git`: the first two parts of the path.
pub open spec fn url_remote(url: Seq<char>) -> OwnerRepo {
    let at = scheme_end(url);
    if at < url.len() {
        let host = url.skip(at + 2);
        let slash = index_of_char(host, '/');
        if slash < host.len() {
            let parts = split_text(without_trailing(without_leading(host.skip(slash))), '/');
            if parts.len() >= 2 {
                (Some(parts[0]), Some(without_suffix(parts[1], ".git"@)))
            } else {
                (None, None)
            }
        } else {
            (None, None)
        }
    } else {
        (None, None)
    }
}

/// The owner and the repository of a remote.
pub open spec fn owner_and_repo(url: Seq<char>) -> OwnerRepo {
    let trimmed = trim_text(url);
    match ssh_remote(trimmed) {
        Some(found) => found,
        None => url_remote(trimmed),
    }
}

proof fn lemma_scheme_end(s: Seq<char>)
    ensures
        0 <= scheme_end(s) <= s.len(),
        scheme_end(s) < s.len() ==> scheme_end(s) + 2 <= s.len(),
    decreases s.len(),
{
    if s.len() >= 2 && !(s[0] == '/' && s[1] == '/') {
        lemma_scheme_end(s.drop_first());
    }
}

fn find_scheme_end(s: &Vec<char>) -> (r: usize)
    ensures
        r == scheme_end(s@),
        r <= s@.len(),
        r < s@.len() ==> r + 2 <= s@.len(),
{
    let mut i: usize = 0;
    proof {
        assert(s@.skip(0) =~= s@);
        lemma_scheme_end(s@);
    }
    while s.len() - i >= 2
        invariant
            i <= s@.len(),
            scheme_end(s@) == i + scheme_end(s@.skip(i as int)),
        decreases s@.len() - i,
    {
        if s[i] == '/' && s[i + 1] == '/' {
            return i;
        }
        proof {
            assert(s@.skip(i as int).drop_first() =~= s@.skip(i as int + 1));
        }
        i = i + 1;
    }
    s.len()
}

fn trim_slashes(s: &Vec<char>, start: usize) -> (r: String)
    requires
        start <= s@.len(),
    ensures
        r@ == without_trailing(without_leading(s@.skip(start as int))),
{
    let ghost all = s@;
    let mut from: usize = start;
    let mut to: usize = s.len();
    while from < to && s[from] == '/'
        invariant
            start <= from <= to == s@.len(),
            all == s@,
            without_leading(all.skip(start as int)) == without_leading(all.skip(from as int)),
        decreases to - from,
    {
        proof {
            assert(all.skip(from as int).drop_first() =~= all.skip(from as int + 1));
        }
        from = from + 1;
    }
    let ghost rest = all.skip(from as int);
    proof {
        assert(without_leading(all.skip(start as int)) == rest);
        assert(all.subrange(from as int, to as int) =~= rest);
    }
    while to > from && s[to - 1] == '/'
        invariant
            from <= to <= s@.len(),
            all == s@,
            without_trailing(rest) == without_trailing(all.subrange(from as int, to as int)),
        decreases to - from,
    {
        proof {
            assert(all.subrange(from as int, to as int).drop_last() =~= all.subrange(
                from as int,
                to as int - 1,
            ));
        }
        to = to - 1;
    }
    string_of(s, from, to)
}

/// The owner and the repository of a remote.
pub fn parse_git_remote(url: &str) -> (r: (Option<String>, Option<String>))
    ensures
        r.deep_view() == owner_and_repo(url@),
{
    let trimmed = trim(url);
    if let Some(rest) = strip_prefix(trimmed.as_str(), "git@github.com:") {
        let parts = split(trim_end_matches(rest.as_str(), ".git").as_str(), '/');
        proof {
            assert(parts.deep_view().len() == parts@.len());
        }
        if parts.len() == 2 {
            return (Some(parts[0].clone()), Some(parts[1].clone()));
        }
    }
    let chars = chars_of(trimmed.as_str());
    let at: usize = find_scheme_end(&chars);
    if at < chars.len() {
        let host_text = string_of(&chars, at + 2, chars.len());
        let host = chars_of(host_text.as_str());
        proof {
            assert(host@ =~= chars@.skip(at as int + 2));
        }
        let slash: usize = find_char(&host, '/');
        if slash < host.len() {
            let path = trim_slashes(&host, slash);
            let parts = split(path.as_str(), '/');
            proof {
                assert(parts.deep_view().len() == parts@.len());
            }
            if parts.len() >= 2 {
                return (
                    Some(parts[0].clone()),
                    Some(trim_end_matches(parts[1].as_str(), ".git")),
                );
            }
        }
    }
    (None, None)
}

/// The project at a directory; `origin` is what git says of its remote.
pub open spec fn project_at(root: Seq<char>, origin: Option<Seq<char>>) -> ProjectView {
    let remote = match origin {
        Some(origin) => Some(trim_text(origin)),
        None => None,
    };
    let (git_owner, git_repo) = match remote {
        Some(url) => owner_and_repo(url),
        None => (None, None),
    };
    Project {
        root_path: root,
        git_remote: remote,
        git_owner,
        git_repo,
        slug: text_or(name_of(root), "unknown"@),
    }
}

/// The project at a directory, given as an absolute path without links; `origin` is what
/// git says of its remote.
pub fn resolve(root_path: &str, origin: Option<&str>) -> (r: Project)
    ensures
        r.deep_view() == project_at(root_path@, origin.deep_view()),
{
    let slug = match file_name(root_path) {
        Some(name) => name,
        None => "unknown".to_owned(),
    };
    let (git_remote, git_owner, git_repo) = match origin {
        Some(origin) => {
            let url = trim(origin);
            let (owner, repo) = parse_git_remote(url.as_str());
            (Some(url), owner, repo)
        },
        None => (None, None, None),
    };
    Project { root_path: root_path.to_owned(), git_remote, git_owner, git_repo, slug }
}

proof fn lemma_split_plain(s: Seq<char>, c: char)
    requires
        !s.contains(c),
    ensures
        split_text(s, c) == seq![s],
    decreases s.len(),
{
    if s.len() == 0 {
        assert(s =~= Seq::empty());
        assert(split_text(s, c) =~= seq![s]);
    } else {
        let rest = s.drop_last();
        assert(!rest.contains(c)) by {
            if rest.contains(c) {
                let k = choose|k: int| 0 <= k < rest.len() && rest[k] == c;
                assert(s[k] == c);
            }
        }
        assert(s[s.len() - 1] != c);
        lemma_split_plain(rest, c);
        assert(rest.push(s.last()) =~= s);
        assert(split_text(s, c) =~= seq![s]);
    }
}

pub(crate) proof fn lemma_split_two(a: Seq<char>, b: Seq<char>, c: char)
    requires
        !a.contains(c),
        !b.contains(c),
    ensures
        split_text(a.push(c) + b, c) == seq![a, b],
    decreases b.len(),
{
    let s = a.push(c) + b;
    if b.len() == 0 {
        assert(s =~= a.push(c));
        assert(s.drop_last() =~= a);
        lemma_split_plain(a, c);
        assert(b =~= Seq::empty());
        assert(split_text(s, c) =~= seq![a, b]);
    } else {
        let rest = b.drop_last();
        assert(!rest.contains(c)) by {
            if rest.contains(c) {
                let k = choose|k: int| 0 <= k < rest.len() && rest[k] == c;
                assert(b[k] == c);
            }
        }
        assert(b[b.len() - 1] != c);
        lemma_split_two(a, rest, c);
        assert(s.drop_last() =~= a.push(c) + rest);
        assert(rest.push(b.last()) =~= b);
        assert(split_text(s, c) =~= seq![a, b]);
    }
}

/// The text ends with `.git`.
pub open spec fn ends_with_git(s: Seq<char>) -> bool {
    without_suffix(s, ".git"@) != s
}

pub(crate) proof fn lemma_git_cut(s: Seq<char>)
    requires
        !ends_with_git(s),
    ensures
        without_suffix(s + ".git"@, ".git"@) == s,
{
    reveal_strlit(".git");
    let whole = s + ".git"@;
    assert(whole.take(whole.len() - 4) =~= s);
    assert(whole.skip(whole.len() - 4) =~= ".git"@);
}

proof fn lemma_no_git_end(owner: Seq<char>, repo: Seq<char>)
    requires
        repo.len() > 0,
        !ends_with_git(repo),
    ensures
        !ends_with_git(owner + "/"@ + repo),
{
    reveal_strlit("/");
    reveal_strlit(".git");
    let whole = owner + "/"@ + repo;
    if whole.len() >= 4 && whole.skip(whole.len() - 4) == ".git"@ {
        let tail = whole.skip(whole.len() - 4);
        if repo.len() >= 4 {
            assert(repo.skip(repo.len() - 4) =~= tail);
            assert(without_suffix(repo, ".git"@).len() <= repo.len() - 4) by {
                lemma_cut_is_shorter(repo.take(repo.len() - 4));
            }
        } else {
            let slash = owner.len() - (whole.len() - 4);
            assert(whole[owner.len() as int] == '/');
            assert(tail[slash] == '/');
            assert(".git"@[slash] != '/');
        }
    }
}

proof fn lemma_cut_is_shorter(s: Seq<char>)
    ensures
        without_suffix(s, ".git"@).len() <= s.len(),
    decreases s.len(),
{
    reveal_strlit(".git");
    if s.len() >= 4 {
        lemma_cut_is_shorter(s.take(s.len() - 4));
    }
}

proof fn lemma_untrimmed(s: Seq<char>)
    requires
        s.len() > 0,
        !is_space(s[0]),
        !is_space(s.last()),
    ensures
        trim_text(s) == s,
{
}

proof fn lemma_ssh_remote(owner: Seq<char>, repo: Seq<char>)
    requires
        !owner.contains('/'),
        repo.len() > 0 && !repo.contains('/'),
        !ends_with_git(repo),
    ensures
        owner_and_repo("git@github.com:"@ + (owner + "/"@ + repo + ".git"@)) == (
            Some(owner),
            Some(repo),
        ),
{
    let prefix = "git@github.com:"@;
    let path = owner + "/"@ + repo;
    let url = prefix + (path + ".git"@);
    lemma_no_git_end(owner, repo);
    lemma_git_cut(path);
    assert(path =~= owner.push('/') + repo) by {
        reveal_strlit("/");
    }
    lemma_split_two(owner, repo, '/');
    assert(url[0] == 'g' && url.last() == 't') by {
        reveal_strlit("git@github.com:");
        reveal_strlit(".git");
    }
    lemma_untrimmed(url);
    assert(url.take(prefix.len() as int) =~= prefix);
    assert(url.skip(prefix.len() as int) =~= path + ".git"@);
}

proof fn lemma_host_end(path: Seq<char>)
    requires
        path.len() > 0,
        path[0] == '/',
    ensures
        ({
            let url = "https://github.com"@ + path;
            &&& scheme_end(url) == 6
            &&& index_of_char(url.skip(8), '/') == 10
            &&& url.skip(8).skip(10) == path
            &&& url.len() > 18 && url[0] == 'h'
        }),
{
    reveal_strlit("https://github.com");
    let url = "https://github.com"@ + path;
    reveal_with_fuel(scheme_end, 8);
    assert(url.skip(8).skip(10) =~= path);
    let host = url.skip(8);
    lemma_index_of_char(host, '/');
    assert(host[10] == '/');
}

proof fn lemma_url_remote(owner: Seq<char>, repo: Seq<char>)
    requires
        owner.len() > 0 && !owner.contains('/'),
        !repo.contains('/'),
        !ends_with_git(repo),
    ensures
        url_remote("https://github.com"@ + ("/"@ + owner + "/"@ + repo + ".git"@)) == (
            Some(owner),
            Some(repo),
        ),
{
    let path = "/"@ + owner + "/"@ + repo + ".git"@;
    let name = repo + ".git"@;
    let inner = owner.push('/') + name;
    reveal_strlit("/");
    reveal_strlit(".git");
    lemma_host_end(path);
    assert(path.drop_first() =~= inner);
    assert(inner[0] == owner[0]);
    assert(without_leading(inner) == inner);
    assert(without_leading(path) == inner);
    assert(inner.last() == 't');
    assert(without_trailing(inner) == inner);
    assert(!name.contains('/')) by {
        if name.contains('/') {
            let k = choose|k: int| 0 <= k < name.len() && name[k] == '/';
            if k < repo.len() {
                assert(repo[k] == '/');
            }
        }
    }
    lemma_split_two(owner, name, '/');
    lemma_git_cut(repo);
    let url = "https://github.com"@ + path;
    assert(without_trailing(without_leading(url.skip(8).skip(10))) == inner);
    assert(url.skip(8).len() > 10);
}

/// A repository at the host is found under its owner and its name, whichever way its
/// remote is written.
pub proof fn law_both_remotes_name_the_repository(owner: Seq<char>, repo: Seq<char>)
    requires
        owner.len() > 0 && !owner.contains('/'),
        repo.len() > 0 && !repo.contains('/'),
        !ends_with_git(repo),
    ensures
        owner_and_repo("git@github.com:"@ + (owner + "/"@ + repo + ".git"@)) == (
            Some(owner),
            Some(repo),
        ),
        owner_and_repo("https://github.com"@ + ("/"@ + owner + "/"@ + repo + ".git"@)) == (
            Some(owner),
            Some(repo),
        ),
{
    let path = "/"@ + owner + "/"@ + repo + ".git"@;
    let url = "https://github.com"@ + path;
    lemma_ssh_remote(owner, repo);
    lemma_url_remote(owner, repo);
    assert(path[0] == '/' && path.last() == 't') by {
        reveal_strlit("/");
        reveal_strlit(".git");
    }
    lemma_host_end(path);
    lemma_untrimmed(url);
    let prefix = "git@github.com:"@;
    assert(!begins_with(url, prefix)) by {
        reveal_strlit("git@github.com:");
        if begins_with(url, prefix) {
            assert(url.take(prefix.len() as int)[0] == 'h');
        }
    }
}

}
