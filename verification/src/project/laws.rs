//! What a project is known by.

use vstd::prelude::*;

use super::{
    ends_with_git, lemma_git_cut, lemma_split_two, owner_and_repo, project_at, scheme_end,
    url_remote, without_leading, without_trailing,
};
use crate::paths::name_of;
use crate::text::{
    begins_with, index_of_char, is_space, lemma_index_of_char, trim_text, without_suffix,
};

verus! {

/// A project is known by its directory and by the name of that; and, where it has a remote, by
/// the remote, without the space around it, and by the owner and the repository that it names.
pub proof fn law_what_a_project_is_known_by(root: Seq<char>, origin: Seq<char>)
    ensures
        project_at(root, None).root_path == root,
        project_at(root, None).git_remote is None,
        project_at(root, None).git_owner is None && project_at(root, None).git_repo is None,
        project_at(root, None).slug == if name_of(root) is Some {
            name_of(root)->0
        } else {
            "unknown"@
        },
        ({
            let p = project_at(root, Some(origin));
            &&& p.root_path == root
            &&& p.slug == project_at(root, None).slug
            &&& p.git_remote == Some(trim_text(origin))
            &&& p.git_owner == owner_and_repo(trim_text(origin)).0
            &&& p.git_repo == owner_and_repo(trim_text(origin)).1
        }),
{
}

proof fn lemma_scheme(scheme: Seq<char>, rest: Seq<char>)
    requires
        !scheme.contains('/'),
    ensures
        scheme_end(scheme + seq!['/', '/'] + rest) == scheme.len(),
    decreases scheme.len(),
{
    let url = scheme + seq!['/', '/'] + rest;
    if scheme.len() > 0 {
        let fewer = scheme.drop_first();
        assert(!fewer.contains('/')) by {
            if fewer.contains('/') {
                let k = choose|k: int| 0 <= k < fewer.len() && fewer[k] == '/';
                assert(scheme[k + 1] == '/');
            }
        }
        lemma_scheme(fewer, rest);
        assert(url.drop_first() =~= fewer + seq!['/', '/'] + rest);
        assert(url[0] == scheme[0]);
        assert(scheme.contains(scheme[0]));
    }
}

proof fn lemma_path_of(owner: Seq<char>, name: Seq<char>)
    requires
        owner.len() > 0 && !owner.contains('/'),
        name.len() > 0 && !name.contains('/'),
    ensures
        without_trailing(without_leading(seq!['/'] + (owner.push('/') + name))) == owner.push('/')
            + name,
{
    let inner = owner.push('/') + name;
    let path = seq!['/'] + inner;
    assert(path.drop_first() =~= inner);
    assert(inner[0] == owner[0]);
    assert(owner.contains(owner[0]));
    assert(inner.last() == name.last());
    assert(name.contains(name[name.len() - 1]));
    assert(without_leading(inner) == inner);
}

/// A remote at any host and of any scheme names the owner and the repository in its path, with
/// or without the ending that git gives it.
pub proof fn law_remotes_name_the_repository(
    scheme: Seq<char>,
    host: Seq<char>,
    owner: Seq<char>,
    repo: Seq<char>,
)
    requires
        scheme.len() > 0 && !scheme.contains('/') && !is_space(scheme[0]),
        !host.contains('/'),
        owner.len() > 0 && !owner.contains('/'),
        repo.len() > 0 && !repo.contains('/') && !is_space(repo.last()),
        !ends_with_git(repo),
        !begins_with(scheme + seq!['/', '/'] + host, "git@github.com:"@),
        "git@github.com:"@.len() <= scheme.len() + 2 + host.len(),
    ensures
        ({
            let start = scheme + seq!['/', '/'] + host + seq!['/'] + owner + seq!['/'];
            &&& owner_and_repo(start + repo) == (Some(owner), Some(repo))
            &&& owner_and_repo(start + (repo + ".git"@)) == (Some(owner), Some(repo))
        }),
{
    reveal_strlit(".git");
    let git = repo + ".git"@;
    assert(!git.contains('/')) by {
        if git.contains('/') {
            let k = choose|k: int| 0 <= k < git.len() && git[k] == '/';
            if k < repo.len() {
                assert(repo[k] == '/');
            }
        }
    }
    lemma_git_cut(repo);
    lemma_remote(scheme, host, owner, repo);
    lemma_remote(scheme, host, owner, git);
}

proof fn lemma_remote(scheme: Seq<char>, host: Seq<char>, owner: Seq<char>, name: Seq<char>)
    requires
        scheme.len() > 0 && !scheme.contains('/') && !is_space(scheme[0]),
        !host.contains('/'),
        owner.len() > 0 && !owner.contains('/'),
        name.len() > 0 && !name.contains('/') && !is_space(name.last()),
        !begins_with(scheme + seq!['/', '/'] + host, "git@github.com:"@),
        "git@github.com:"@.len() <= scheme.len() + 2 + host.len(),
    ensures
        owner_and_repo(scheme + seq!['/', '/'] + host + seq!['/'] + owner + seq!['/'] + name) == (
            Some(owner),
            Some(without_suffix(name, ".git"@)),
        ),
{
    let lead = scheme + seq!['/', '/'] + host;
    let inner = owner.push('/') + name;
    let path = seq!['/'] + inner;
    let url = lead + path;
    assert(url =~= scheme + seq!['/', '/'] + host + seq!['/'] + owner + seq!['/'] + name);
    assert(url =~= scheme + seq!['/', '/'] + (host + path));
    lemma_scheme(scheme, host + path);
    assert(url.last() == name.last());
    assert(url[0] == scheme[0]);
    assert(trim_text(url) == url);
    let prefix = "git@github.com:"@;
    assert(!begins_with(url, prefix)) by {
        if begins_with(url, prefix) {
            assert(lead.take(prefix.len() as int) =~= url.take(prefix.len() as int));
        }
    }
    let rest = url.skip(scheme.len() as int + 2);
    assert(rest =~= host + path);
    lemma_index_of_char(rest, '/');
    let slash = index_of_char(rest, '/');
    assert(rest[host.len() as int] == '/');
    if slash < host.len() {
        assert(host[slash] == '/');
    }
    assert(slash == host.len());
    assert(rest.skip(slash) =~= path);
    lemma_path_of(owner, name);
    lemma_split_two(owner, name, '/');
}

/// A remote that has no path names nothing.
pub proof fn law_no_path_names_nothing(url: Seq<char>)
    requires
        !url.contains('/'),
    ensures
        url_remote(url) == (None::<Seq<char>>, None::<Seq<char>>),
{
    lemma_no_scheme(url);
}

proof fn lemma_no_scheme(url: Seq<char>)
    requires
        !url.contains('/'),
    ensures
        scheme_end(url) == url.len(),
    decreases url.len(),
{
    if url.len() >= 2 {
        let rest = url.drop_first();
        assert(!rest.contains('/')) by {
            if rest.contains('/') {
                let k = choose|k: int| 0 <= k < rest.len() && rest[k] == '/';
                assert(url[k + 1] == '/');
            }
        }
        assert(url.contains(url[0]));
        lemma_no_scheme(rest);
    }
}

}
