//! Paths as texts with `/` between their components: joining, resolving
//! against a root, file names and extensions.

use crate::text::{chars_of, matches_at};
use vstd::prelude::*;

verus! {

/// A path that begins at the root of the file system.
pub open spec fn is_absolute_path(path: Seq<char>) -> bool {
    path.len() > 0 && path[0] == '/'
}

/// `path` appended to `base`. An absolute `path` stands for itself; otherwise
/// a `/` is put between the two unless `base` is empty or ends in one.
pub open spec fn joined(base: Seq<char>, path: Seq<char>) -> Seq<char> {
    if is_absolute_path(path) {
        path
    } else if base.len() == 0 || base.last() == '/' {
        base + path
    } else {
        base + seq!['/'] + path
    }
}

/// The offset of the last `c` in `s`, or -1 where it has none.
pub open spec fn last_index_of(s: Seq<char>, c: char) -> int
    decreases s.len(),
{
    if s.len() == 0 {
        -1
    } else if s.last() == c {
        s.len() - 1
    } else {
        last_index_of(s.drop_last(), c)
    }
}

/// The last component of `path`: what follows its last `/`.
pub open spec fn file_name_of(path: Seq<char>) -> Seq<char> {
    path.skip(last_index_of(path, '/') + 1)
}

/// The extension of a file name: what follows its last `.`. A name without a
/// dot has none, nor has a name that begins with its only dot, nor the name
/// `..`.
pub open spec fn extension_of(name: Seq<char>) -> Option<Seq<char>> {
    let dot = last_index_of(name, '.');
    if dot <= 0 || name == seq!['.', '.'] {
        None
    } else {
        Some(name.skip(dot + 1))
    }
}

/// The extension of the file that `path` names.
pub open spec fn path_extension(path: Seq<char>) -> Option<Seq<char>> {
    extension_of(file_name_of(path))
}

/// An offset of `c` with no `c` after it, or -1 where `s` has no `c`, is
/// `last_index_of`.
pub proof fn lemma_last_index_is(s: Seq<char>, c: char, k: int)
    requires
        -1 <= k < s.len(),
        k >= 0 ==> s[k] == c,
        forall|j: int| k < j < s.len() ==> s[j] != c,
    ensures
        last_index_of(s, c) == k,
    decreases s.len(),
{
    if s.len() > 0 && s.last() != c {
        let before = s.drop_last();
        assert(k < s.len() - 1);
        assert forall|j: int| k < j < before.len() implies before[j] != c by {
            assert(before[j] == s[j]);
        }
        lemma_last_index_is(before, c, k);
    }
}

/// The offset of the last `c` at or after `from`.
fn last_position(chars: &Vec<char>, from: usize, c: char) -> (at: Option<usize>)
    requires
        from <= chars@.len(),
    ensures
        match at {
            Some(k) => from <= k < chars@.len() && chars@[k as int] == c && last_index_of(
                chars@.skip(from as int),
                c,
            ) == k - from,
            None => last_index_of(chars@.skip(from as int), c) == -1,
        },
{
    let n: usize = chars.len();
    let ghost tail = chars@.skip(from as int);
    let mut i: usize = n;
    while i > from
        invariant
            n == chars@.len(),
            from <= i <= n,
            tail == chars@.skip(from as int),
            forall|j: int| i <= j < n ==> chars@[j] != c,
        decreases i,
    {
        i -= 1;
        if chars[i] == c {
            proof {
                assert forall|j: int| i - from < j < tail.len() implies tail[j] != c by {
                    assert(tail[j] == chars@[from + j]);
                }
                assert(tail[i - from] == chars@[i as int]);
                lemma_last_index_is(tail, c, i - from);
            }
            return Some(i);
        }
    }
    proof {
        assert forall|j: int| -1 < j < tail.len() implies tail[j] != c by {
            assert(tail[j] == chars@[from + j]);
        }
        lemma_last_index_is(tail, c, -1);
    }
    None
}

/// Whether `path` begins at the root of the file system.
pub fn is_absolute(path: &str) -> (absolute: bool)
    ensures
        absolute == is_absolute_path(path@),
{
    path.unicode_len() > 0 && path.get_char(0) == '/'
}

/// Appends `path` to `base`.
pub fn join(base: &str, path: &str) -> (whole: String)
    ensures
        whole@ == joined(base@, path@),
{
    if is_absolute(path) {
        return path.to_owned();
    }
    let chars = chars_of(base);
    let n: usize = chars.len();
    let mut whole = base.to_owned();
    if n > 0 && chars[n - 1] != '/' {
        proof {
            reveal_strlit("/");
            assert("/"@ =~= seq!['/']);
        }
        whole.append("/");
    }
    whole.append(path);
    whole
}

/// `path` itself where it is absolute, else `path` below `project_root`.
pub fn resolve_path(path: &str, project_root: &str) -> (resolved: String)
    ensures
        resolved@ == joined(project_root@, path@),
        is_absolute_path(path@) ==> resolved@ == path@,
{
    join(project_root, path)
}

/// The tool's configuration directory below the home directory `home`.
pub fn get_config_dir(home: &str) -> (dir: String)
    ensures
        dir@ == joined(joined(home@, ".config"@), "devtool"@),
{
    let config = join(home, ".config");
    join(config.as_str(), "devtool")
}

/// Whether the file that `path` names has the extension `extension`, compared
/// character by character. A file without an extension has none to compare.
pub fn has_extension(path: &str, extension: &str) -> (same: bool)
    ensures
        same == (path_extension(path@) == Some(extension@)),
{
    let chars = chars_of(path);
    let wanted = chars_of(extension);
    let n: usize = chars.len();
    let start: usize = match last_position(&chars, 0, '/') {
        Some(slash) => slash + 1,
        None => 0,
    };
    proof {
        assert(chars@.skip(0) =~= chars@);
    }
    let ghost name = chars@.skip(start as int);
    assert(name == file_name_of(path@));
    match last_position(&chars, start, '.') {
        None => false,
        Some(dot) => {
            if dot == start {
                return false;
            }
            if n - start == 2 && chars[start] == '.' {
                proof {
                    assert(name.len() == 2);
                    assert(dot == start + 1);
                    assert(chars@[dot as int] == '.');
                    assert(name[1] == chars@[start + 1]);
                    assert(name[0] == chars@[start as int]);
                    assert(name =~= seq!['.', '.']);
                }
                return false;
            }
            proof {
                if name == seq!['.', '.'] {
                    assert(name.len() == 2);
                    assert(name[0] == chars@[start as int]);
                }
                assert(name.skip(dot - start + 1) =~= chars@.subrange(dot + 1, n as int));
            }
            if n - (dot + 1) != wanted.len() {
                return false;
            }
            matches_at(&chars, &wanted, dot + 1)
        },
    }
}

} // verus!
