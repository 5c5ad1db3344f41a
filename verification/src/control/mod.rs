//! The control plane: what the daemon and its clients agree on.
use vstd::prelude::*;

use crate::text;

pub mod bootstrap;
pub mod client;
pub mod config;
pub mod manifest;

verus! {

/// Default port of the daemon's control API (and of the Web UI it can serve).
pub const DEFAULT_API_PORT: u16 = 8082;

/// Default port of the MCP endpoint the daemon serves.
pub const DEFAULT_MCP_PORT: u16 = 18083;

/// Whether a path is that of a drive alone, such as `C:`. A file named after it is sought in the
/// drive's current directory.
pub open spec fn is_drive(dir: Seq<char>) -> bool {
    dir.len() == 2 && ('a' <= dir[0] <= 'z' || 'A' <= dir[0] <= 'Z') && dir[1] == ':'
}

/// How many characters at the start of a Windows path are kept as they are where it begins with
/// `\\?\`, which makes `\` its only separator; nothing for another path.
pub open spec fn verbatim_head(dir: Seq<char>) -> nat {
    if text::starts(dir, "\\\\?\\UNC\\"@) {
        8
    } else if text::starts(dir, "\\\\?\\"@) {
        4
    } else {
        0
    }
}

/// A text with each run of separators replaced by one.
pub open spec fn single_separators(s: Seq<char>) -> Seq<char>
    decreases s.len(),
{
    if s.len() == 0 {
        s
    } else {
        let rest = single_separators(s.drop_last());
        if s.last() == '\\' && s.len() > 1 && s[s.len() - 2] == '\\' {
            rest
        } else {
            rest.push(s.last())
        }
    }
}

/// The path of a file in a directory, on Windows or elsewhere. An empty directory is the current
/// one.
pub open spec fn path_in(dir: Seq<char>, name: Seq<char>, windows: bool) -> Seq<char> {
    if dir.len() == 0 {
        name
    } else if !windows {
        if dir.last() == '/' {
            dir + name
        } else {
            dir + "/"@ + name
        }
    } else if verbatim_head(dir) > 0 {
        let head = verbatim_head(dir) as int;
        dir.subrange(0, head) + single_separators(dir.subrange(head, dir.len() as int) + "\\"@) + name
    } else if dir.last() == '/' || dir.last() == '\\' || is_drive(dir) {
        dir + name
    } else {
        dir + "\\"@ + name
    }
}

fn verbatim_path(dir: &str, head: usize, name: &str) -> (r: String)
    requires
        head <= dir@.len(),
    ensures
        r@ == dir@.subrange(0, head as int) + single_separators(
            dir@.subrange(head as int, dir@.len() as int) + "\\"@,
        ) + name@,
{
    proof {
        reveal_strlit("\\");
    }
    let chars = text::chars_of(dir);
    let mut out = text::string_of_range(chars.as_slice(), 0, head);
    let ghost kept = dir@.subrange(0, head as int);
    let ghost rest = dir@.subrange(head as int, dir@.len() as int) + "\\"@;
    let mut i: usize = head;
    assert(kept + single_separators(rest.subrange(0, 0)) =~= kept);
    while i < chars.len()
        invariant
            chars@ == dir@,
            head <= i <= chars@.len(),
            kept == dir@.subrange(0, head as int),
            "\\"@ == seq!['\\'],
            rest == dir@.subrange(head as int, dir@.len() as int) + "\\"@,
            out@ == kept + single_separators(rest.subrange(0, i - head)),
        decreases chars.len() - i,
    {
        let ghost part = rest.subrange(0, i - head + 1);
        proof {
            assert(part.drop_last() =~= rest.subrange(0, i - head));
            assert(part.last() == chars@[i as int]);
            if i > head {
                assert(part[part.len() - 2] == chars@[i - 1]);
            }
        }
        if !(chars[i] == '\\' && i > head && chars[i - 1] == '\\') {
            out.push(chars[i]);
            assert(out@ =~= kept + single_separators(part));
        }
        i = i + 1;
    }
    proof {
        assert(rest.subrange(0, i - head + 1) =~= rest);
        assert(rest.drop_last() =~= rest.subrange(0, i - head));
        if i > head {
            assert(rest[rest.len() - 2] == chars@[i - 1]);
        }
    }
    if !(chars.len() > head && chars[chars.len() - 1] == '\\') {
        out.push('\\');
        assert(out@ =~= kept + single_separators(rest));
    }
    out.append(name);
    out
}

/// The path of a file in a directory, on Windows or elsewhere.
pub(crate) fn join_path(dir: &str, name: &str, windows: bool) -> (r: String)
    ensures
        r@ == path_in(dir@, name@, windows),
        dir@.len() == 0 ==> r@ == name@,
        dir@.len() > 0 && !windows && dir@.last() == '/' ==> r@ == dir@ + name@,
        dir@.len() > 0 && !windows && dir@.last() != '/' ==> r@ == dir@ + "/"@ + name@,
        r@.len() >= name@.len() && r@.subrange(r@.len() - name@.len(), r@.len() as int) == name@,
{
    proof {
        law_paths_end_in_their_name(dir@, name@, windows);
    }
    let chars = text::chars_of(dir);
    let n: usize = chars.len();
    if n == 0 {
        return text::copy(name);
    }
    let last: char = chars[n - 1];
    if !windows {
        if last == '/' {
            return text::concat2(dir, name);
        }
        return text::concat3(dir, "/", name);
    }
    if text::starts_with(dir, "\\\\?\\UNC\\") {
        proof {
            reveal_strlit("\\\\?\\UNC\\");
        }
        return verbatim_path(dir, 8, name);
    }
    if text::starts_with(dir, "\\\\?\\") {
        proof {
            reveal_strlit("\\\\?\\");
        }
        return verbatim_path(dir, 4, name);
    }
    let drive: bool = n == 2 && ('a' <= chars[0] && chars[0] <= 'z' || 'A' <= chars[0] && chars[0] <= 'Z') && chars[1]
        == ':';
    if last == '/' || last == '\\' || drive {
        text::concat2(dir, name)
    } else {
        text::concat3(dir, "\\", name)
    }
}

/// The path of a file in a directory ends in the file's name, and starts with the directory where
/// that does not begin with `\\?\`.
pub proof fn law_paths_end_in_their_name(dir: Seq<char>, name: Seq<char>, windows: bool)
    ensures
        path_in(dir, name, windows).len() >= name.len(),
        path_in(dir, name, windows).subrange(
            path_in(dir, name, windows).len() - name.len(),
            path_in(dir, name, windows).len() as int,
        ) == name,
        !windows || verbatim_head(dir) == 0 ==> text::starts(path_in(dir, name, windows), dir),
{
    let p = path_in(dir, name, windows);
    assert(p.subrange(p.len() - name.len(), p.len() as int) =~= name);
    if !windows || verbatim_head(dir) == 0 {
        assert(p.subrange(0, dir.len() as int) =~= dir);
    }
}

/// Between a directory and a file in it stands a separator: the one the directory ends with, or one
/// that is put there. Only a drive takes none.
pub proof fn law_separators_stand_before_names(dir: Seq<char>, name: Seq<char>, windows: bool)
    requires
        dir.len() > 0,
        !(windows && is_drive(dir)),
    ensures
        ({
            let p = path_in(dir, name, windows);
            let before = p[p.len() - name.len() - 1];
            &&& p.len() > name.len()
            &&& !windows ==> before == '/'
            &&& windows ==> before == '/' || before == '\\'
        }),
{
    reveal_strlit("/");
    reveal_strlit("\\");
    if windows && verbatim_head(dir) > 0 {
        reveal_strlit("\\\\?\\UNC\\");
        reveal_strlit("\\\\?\\");
        let head = verbatim_head(dir) as int;
        let rest = dir.subrange(head, dir.len() as int) + "\\"@;
        lemma_single_separators_end(rest);
        let s = single_separators(rest);
        let p = path_in(dir, name, windows);
        assert(p[p.len() - name.len() - 1] == s.last());
    }
}

proof fn lemma_single_separators_end(s: Seq<char>)
    requires
        s.len() > 0,
    ensures
        single_separators(s).len() > 0,
        single_separators(s).last() == s.last(),
    decreases s.len(),
{
    if s.last() == '\\' && s.len() > 1 && s[s.len() - 2] == '\\' {
        lemma_single_separators_end(s.drop_last());
    }
}

} // verus!
