//! The texts that the client works out of addresses and paths.

use vstd::prelude::*;
use vstd::string::*;

verus! {

/// The address of the server that the client turns to unless it is
/// configured otherwise.
pub fn default_server() -> (url: String)
    ensures
        url@ == "http://127.0.0.1:3000"@,
{
    String::from_str("http://127.0.0.1:3000")
}

/// How many characters of a text are left when the slashes at its end are
/// taken away.
pub open spec fn trimmed_len(text: Seq<char>) -> int
    decreases text.len(),
{
    if text.len() > 0 && text.last() == '/' {
        trimmed_len(text.drop_last())
    } else {
        text.len() as int
    }
}

/// A text without the slashes at its end.
pub open spec fn without_trailing_slashes(text: Seq<char>) -> Seq<char> {
    text.take(trimmed_len(text))
}

/// The length without trailing slashes is the place of the last character
/// that is no slash, and one more.
pub proof fn lemma_trimmed_len(text: Seq<char>)
    ensures
        0 <= trimmed_len(text) <= text.len(),
        trimmed_len(text) > 0 ==> text[trimmed_len(text) - 1] != '/',
        forall|i: int| trimmed_len(text) <= i < text.len() ==> text[i] == '/',
    decreases text.len(),
{
    if text.len() > 0 && text.last() == '/' {
        let front = text.drop_last();
        lemma_trimmed_len(front);
        assert forall|i: int| trimmed_len(text) <= i < text.len() implies text[i] == '/' by {
            if i < front.len() {
                assert(front[i] == text[i]);
            }
        }
        if trimmed_len(text) > 0 {
            assert(front[trimmed_len(text) - 1] == text[trimmed_len(text) - 1]);
        }
    }
}

/// The base address of a server: what was given, without slashes at its end,
/// so that a path can follow behind a single slash.
pub fn base_url(url: &str) -> (base: String)
    ensures
        base@ == without_trailing_slashes(url@),
{
    let n: usize = url.unicode_len();
    let mut end: usize = n;
    assert(url@.take(n as int) =~= url@);
    while end > 0 && url.get_char(end - 1) == '/'
        invariant
            n == url@.len(),
            end <= n,
            trimmed_len(url@) == trimmed_len(url@.take(end as int)),
        decreases end,
    {
        assert(url@.take(end as int).last() == '/');
        assert(url@.take(end as int).drop_last() =~= url@.take(end - 1));
        end = end - 1;
    }
    proof {
        if end > 0 {
            assert(url@.take(end as int).last() != '/');
        }
        assert(trimmed_len(url@.take(end as int)) == end);
    }
    assert(url@.take(end as int) =~= url@.subrange(0, end as int));
    url.substring_char(0, end).to_owned()
}

/// Where the last part of a path begins: behind its last slash, or at its
/// start where it has none.
pub open spec fn last_part_start(path: Seq<char>) -> int
    decreases path.len(),
{
    if path.len() == 0 {
        0
    } else if path.last() == '/' {
        path.len() as int
    } else {
        last_part_start(path.drop_last())
    }
}

/// The last part of a path: what follows its last slash, or all of it where
/// it has none.
pub open spec fn last_part(path: Seq<char>) -> Seq<char> {
    path.skip(last_part_start(path))
}

/// The last part of a path holds no slash, and a slash stands before it
/// unless it begins the path.
pub proof fn lemma_last_part_start(path: Seq<char>)
    ensures
        0 <= last_part_start(path) <= path.len(),
        last_part_start(path) > 0 ==> path[last_part_start(path) - 1] == '/',
        forall|i: int| last_part_start(path) <= i < path.len() ==> path[i] != '/',
    decreases path.len(),
{
    if path.len() > 0 && path.last() != '/' {
        let front = path.drop_last();
        lemma_last_part_start(front);
        assert forall|i: int| last_part_start(path) <= i < path.len() implies path[i] != '/' by {
            if i < front.len() {
                assert(front[i] == path[i]);
            }
        }
        if last_part_start(path) > 0 {
            assert(front[last_part_start(path) - 1] == path[last_part_start(path) - 1]);
        }
    }
}

/// The name under which a downloaded file is saved where none is given: the
/// last part of its remote path.
pub fn local_name(remote_path: &str) -> (name: String)
    ensures
        name@ == last_part(remote_path@),
{
    let n: usize = remote_path.unicode_len();
    let mut start: usize = n;
    assert(remote_path@.take(n as int) =~= remote_path@);
    while start > 0 && remote_path.get_char(start - 1) != '/'
        invariant
            n == remote_path@.len(),
            start <= n,
            last_part_start(remote_path@) == last_part_start(remote_path@.take(start as int)),
        decreases start,
    {
        assert(remote_path@.take(start as int).last() != '/');
        assert(remote_path@.take(start as int).drop_last() =~= remote_path@.take(start - 1));
        start = start - 1;
    }
    proof {
        let front = remote_path@.take(start as int);
        if start > 0 {
            assert(front.last() == '/');
        }
        assert(last_part_start(front) == start);
    }
    assert(remote_path@.skip(start as int) =~= remote_path@.subrange(start as int, n as int));
    remote_path.substring_char(start, n).to_owned()
}

} // verus!
