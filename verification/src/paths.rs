//! The little path arithmetic the operations need: the parent directory a
//! file's enclosing folder is created at, and a file's own name.

use vstd::prelude::*;

verus! {

/// The index of the last `/` in a path, or minus one if there is none.
pub open spec fn last_slash_index(s: Seq<char>) -> int
    decreases s.len(),
{
    if s.len() == 0 {
        -1
    } else if s.last() == '/' {
        s.len() - 1
    } else {
        last_slash_index(s.drop_last())
    }
}

/// The parent directory of a path: everything before the last `/`; the root
/// itself when that slash is the first character; nothing when the path has
/// no slash at all.
pub open spec fn parent_dir_spec(s: Seq<char>) -> Option<Seq<char>> {
    let k = last_slash_index(s);
    if k < 0 {
        None
    } else if k == 0 {
        Some(seq!['/'])
    } else {
        Some(s.take(k))
    }
}

/// The file name of a path: everything after the last `/`, or the whole path
/// when it has none.
pub open spec fn file_name_spec(s: Seq<char>) -> Seq<char> {
    let k = last_slash_index(s);
    if k < 0 {
        s
    } else {
        s.skip(k + 1)
    }
}

proof fn lemma_last_slash_bounds(s: Seq<char>)
    ensures
        -1 <= last_slash_index(s) < s.len(),
        last_slash_index(s) >= 0 ==> s[last_slash_index(s)] == '/',
        forall|k: int| last_slash_index(s) < k < s.len() ==> s[k] != '/',
    decreases s.len(),
{
    if s.len() == 0 {
    } else if s.last() == '/' {
    } else {
        lemma_last_slash_bounds(s.drop_last());
        assert(forall|k: int| 0 <= k < s.len() - 1 ==> s[k] == s.drop_last()[k]);
    }
}

/// Finds the index after the last `/` of the path, or zero if there is none:
/// the start of the file name.
fn scan_after_last_slash(path: &str) -> (r: usize)
    ensures
        r == last_slash_index(path@) + 1,
{
    let n = path.unicode_len();
    let mut k: usize = n;
    proof {
        assert(path@.take(n as int) =~= path@);
    }
    while k > 0
        invariant
            k <= n,
            n == path@.len(),
            last_slash_index(path@) == last_slash_index(path@.take(k as int)),
        decreases k,
    {
        k = k - 1;
        proof {
            assert(path@.take(k as int + 1).last() == path@[k as int]);
            assert(path@.take(k as int + 1).drop_last() =~= path@.take(k as int));
        }
        if path.get_char(k) == '/' {
            return k + 1;
        }
    }
    proof {
        assert(path@.take(0).len() == 0);
    }
    0
}

/// The parent directory a file's enclosing folder is created at, or nothing
/// for a bare file name.
pub fn parent_dir(path: &str) -> (r: Option<String>)
    ensures
        match r {
            Some(p) => parent_dir_spec(path@) == Some(p@),
            None => parent_dir_spec(path@) is None,
        },
{
    let after = scan_after_last_slash(path);
    if after == 0 {
        None
    } else if after == 1 {
        proof {
            reveal_strlit("/");
            assert("/"@ =~= seq!['/']);
        }
        Some("/".to_owned())
    } else {
        proof {
            lemma_last_slash_bounds(path@);
        }
        Some(path.substring_char(0, after - 1).to_owned())
    }
}

/// The file name of a path.
pub fn file_name(path: &str) -> (r: String)
    ensures
        r@ == file_name_spec(path@),
{
    let after = scan_after_last_slash(path);
    let n = path.unicode_len();
    proof {
        lemma_last_slash_bounds(path@);
        assert(path@.subrange(after as int, n as int) =~= file_name_spec(path@));
    }
    path.substring_char(after, n).to_owned()
}

} // verus!
