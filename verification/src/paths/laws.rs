//! What holds of paths.

use vstd::prelude::*;

use super::{after_last, extension_of, name_of, path_join, trimmed};

verus! {

/// Whether the text can be a part of a path that names something.
pub open spec fn is_name(part: Seq<char>) -> bool {
    part.len() > 0 && !part.contains('/') && part != "."@ && part != ".."@
}

proof fn lemma_after_last(s: Seq<char>, c: char, tail: Seq<char>)
    requires
        !tail.contains(c),
        s.len() == 0 || s.last() == c,
    ensures
        after_last(s + tail, c) == tail,
    decreases tail.len(),
{
    if tail.len() == 0 {
        assert(s + tail =~= s);
        assert(tail =~= Seq::<char>::empty());
    } else {
        let fewer = tail.drop_last();
        assert(!fewer.contains(c)) by {
            if fewer.contains(c) {
                let k = choose|k: int| 0 <= k < fewer.len() && fewer[k] == c;
                assert(tail[k] == c);
            }
        }
        lemma_after_last(s, c, fewer);
        assert((s + tail).drop_last() =~= s + fewer);
        assert((s + tail).last() == tail.last());
        assert(tail.contains(tail[tail.len() - 1]));
        assert(fewer.push(tail.last()) =~= tail);
    }
}

/// A part that is joined to a directory is the last part of the path, behind one slash, and
/// is the name of what is there. To nothing it is joined as it is.
pub proof fn law_joined_part_is_the_name(base: Seq<char>, part: Seq<char>)
    requires
        is_name(part),
    ensures
        base.len() == 0 ==> path_join(base, part) == part,
        base.len() > 0 && base.last() == '/' ==> path_join(base, part) == base + part,
        base.len() > 0 && base.last() != '/' ==> path_join(base, part) == base + "/"@ + part,
        name_of(path_join(base, part)) == Some(part),
{
    reveal_strlit("/");
    reveal_strlit(".");
    reveal_strlit("..");
    let path = path_join(base, part);
    let lead = if base.len() == 0 {
        Seq::<char>::empty()
    } else if base.last() == '/' {
        base
    } else {
        base + "/"@
    };
    assert(path =~= lead + part);
    assert(part.contains(part[part.len() - 1]));
    assert(path.last() == part.last());
    if path.len() >= 2 && path.last() == '.' && path[path.len() - 2] == '/' {
        if part.len() >= 2 {
            assert(part[part.len() - 2] == '/');
            assert(part.contains(part[part.len() - 2]));
        } else {
            assert(part =~= "."@);
        }
    }
    assert(trimmed(path) == path);
    lemma_after_last(lead, '/', part);
}

/// What follows the last dot of a name is its extension, whatever stands before it, unless the
/// name begins with that dot; a name without a dot has none.
pub proof fn law_extensions(base: Seq<char>, stem: Seq<char>, extension: Seq<char>)
    requires
        !extension.contains('.'),
        is_name(stem + "."@ + extension),
    ensures
        stem.len() > 0 ==> extension_of(path_join(base, stem + "."@ + extension)) == Some(
            extension,
        ),
        stem.len() == 0 ==> extension_of(path_join(base, stem + "."@ + extension)) is None,
        is_name(extension) ==> extension_of(path_join(base, extension)) is None,
{
    reveal_strlit(".");
    let name = stem + "."@ + extension;
    law_joined_part_is_the_name(base, name);
    lemma_after_last(stem + "."@, '.', extension);
    if is_name(extension) {
        law_joined_part_is_the_name(base, extension);
        lemma_after_last(Seq::empty(), '.', extension);
        assert(Seq::<char>::empty() + extension =~= extension);
    }
}

/// Slashes at the end of a path do not change what it names.
pub proof fn law_slashes_at_the_end(path: Seq<char>)
    requires
        path.len() > 0,
    ensures
        name_of(path.push('/')) == name_of(path),
        extension_of(path.push('/')) == extension_of(path),
{
    assert(path.push('/').drop_last() =~= path);
}

}
