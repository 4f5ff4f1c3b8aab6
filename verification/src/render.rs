//! Rendering of plain values into the strings that argument vectors and
//! messages are built from.

use vstd::prelude::*;

verus! {

/// The character standing for one decimal digit.
pub open spec fn digit_char(d: int) -> char {
    if d == 0 {
        '0'
    } else if d == 1 {
        '1'
    } else if d == 2 {
        '2'
    } else if d == 3 {
        '3'
    } else if d == 4 {
        '4'
    } else if d == 5 {
        '5'
    } else if d == 6 {
        '6'
    } else if d == 7 {
        '7'
    } else if d == 8 {
        '8'
    } else {
        '9'
    }
}

/// The decimal digits of a number, most significant first, with no sign and
/// no leading zero but for the number zero itself.
pub open spec fn dec_digits(n: int) -> Seq<char>
    decreases n,
{
    if n < 10 {
        seq![digit_char(n)]
    } else {
        dec_digits(n / 10).push(digit_char(n % 10))
    }
}

fn digit_str(d: u64) -> (r: &'static str)
    requires
        d < 10,
    ensures
        r@ =~= seq![digit_char(d as int)],
{
    if d == 0 {
        proof {
            reveal_strlit("0");
        }
        "0"
    } else if d == 1 {
        proof {
            reveal_strlit("1");
        }
        "1"
    } else if d == 2 {
        proof {
            reveal_strlit("2");
        }
        "2"
    } else if d == 3 {
        proof {
            reveal_strlit("3");
        }
        "3"
    } else if d == 4 {
        proof {
            reveal_strlit("4");
        }
        "4"
    } else if d == 5 {
        proof {
            reveal_strlit("5");
        }
        "5"
    } else if d == 6 {
        proof {
            reveal_strlit("6");
        }
        "6"
    } else if d == 7 {
        proof {
            reveal_strlit("7");
        }
        "7"
    } else if d == 8 {
        proof {
            reveal_strlit("8");
        }
        "8"
    } else {
        proof {
            reveal_strlit("9");
        }
        "9"
    }
}

/// Renders a number in decimal.
pub fn u64_to_string(n: u64) -> (r: String)
    ensures
        r@ == dec_digits(n as int),
    decreases n,
{
    let d: u64 = n % 10;
    let ds: &str = digit_str(d);
    if n < 10 {
        ds.to_owned()
    } else {
        proof {
            assert(n / 10 < n && n / 10 >= 1) by (nonlinear_arith)
                requires
                    n >= 10,
            ;
        }
        let mut prefix = u64_to_string(n / 10);
        prefix.append(ds);
        proof {
            assert(dec_digits((n / 10) as int).push(digit_char(n as int % 10)) =~= dec_digits(
                (n / 10) as int,
            ) + seq![digit_char(n as int % 10)]);
        }
        prefix
    }
}

/// Glues two pieces of text into a new string.
pub fn concat_str(a: &str, b: &str) -> (r: String)
    ensures
        r@ == a@ + b@,
{
    let mut s = a.to_owned();
    s.append(b);
    s
}

/// Appends a piece of text to a string being built.
pub fn push_str(s: &mut String, t: &str)
    ensures
        final (s)@ == old(s)@ + t@,
{
    s.append(t);
}

/// The text `joined` separated-concatenation produces: every element in
/// order, one space between neighbours.
pub open spec fn joined(parts: Seq<Seq<char>>) -> Seq<char>
    decreases parts.len(),
{
    if parts.len() == 0 {
        Seq::empty()
    } else if parts.len() == 1 {
        parts[0]
    } else {
        joined(parts.drop_last()) + seq![' '] + parts.last()
    }
}

/// Joins strings with single spaces, as a command line is shown to operators.
pub fn join_with_spaces(parts: &Vec<String>) -> (r: String)
    ensures
        r@ == joined(parts@.map_values(|p: String| p@)),
{
    let ghost model = parts@.map_values(|p: String| p@);
    let mut r = String::new();
    let mut i: usize = 0;
    proof {
        assert(model.take(0) =~= Seq::<Seq<char>>::empty());
    }
    while i < parts.len()
        invariant
            i <= parts@.len(),
            model == parts@.map_values(|p: String| p@),
            r@ == joined(model.take(i as int)),
        decreases parts@.len() - i,
    {
        proof {
            assert(model[i as int] == parts@[i as int]@);
            assert(model.take(i as int + 1).drop_last() =~= model.take(i as int));
            assert(model.take(i as int + 1).last() == model[i as int]);
        }
        if i > 0 {
            proof {
                reveal_strlit(" ");
            }
            s_append_space(&mut r);
        }
        let part: &String = &parts[i];
        r.append(part.as_str());
        i = i + 1;
        proof {
            if i as int - 1 == 0 {
                assert(model.take(1) =~= seq![model[0]]);
            }
        }
    }
    proof {
        assert(model.take(parts@.len() as int) =~= model);
    }
    r
}

fn s_append_space(s: &mut String)
    ensures
        final (s)@ == old(s)@ + seq![' '],
{
    proof {
        reveal_strlit(" ");
    }
    s.append(" ");
    proof {
        assert(" "@ =~= seq![' ']);
    }
}

/// Whether a character separates words of a command string.
pub open spec fn is_space(c: char) -> bool {
    c == ' ' || c == '\t' || c == '\n' || c == '\r'
}

/// The length of the word at the front of `s`: the number of leading
/// non-separator characters.
pub open spec fn word_len(s: Seq<char>) -> nat
    decreases s.len(),
{
    if s.len() == 0 || is_space(s[0]) {
        0
    } else {
        1 + word_len(s.skip(1))
    }
}

pub proof fn lemma_word_len_le(s: Seq<char>)
    ensures
        word_len(s) <= s.len(),
    decreases s.len(),
{
    if s.len() == 0 || is_space(s[0]) {
    } else {
        lemma_word_len_le(s.skip(1));
    }
}

/// The words of a command string, in order: maximal runs of non-separator
/// characters.
pub open spec fn split_ws(s: Seq<char>) -> Seq<Seq<char>>
    decreases s.len(),
    via split_ws_decreases
{
    if s.len() == 0 {
        Seq::empty()
    } else if is_space(s[0]) {
        split_ws(s.skip(1))
    } else {
        seq![s.take(word_len(s) as int)] + split_ws(s.skip(word_len(s) as int))
    }
}

#[via_fn]
proof fn split_ws_decreases(s: Seq<char>) {
    if s.len() > 0 && !is_space(s[0]) {
        lemma_word_len_le(s);
    }
}

/// Splits a command string into its words, as handing a whole command line to
/// a remote shell requires.
pub fn split_whitespace_words(s: &str) -> (r: Vec<String>)
    ensures
        r@.map_values(|w: String| w@) == split_ws(s@),
{
    let n = s.unicode_len();
    let mut r: Vec<String> = Vec::new();
    let mut i: usize = 0;
    proof {
        assert(r@.map_values(|w: String| w@) =~= Seq::<Seq<char>>::empty());
        assert(s@.skip(0) =~= s@);
    }
    while i < n
        invariant
            i <= n,
            n == s@.len(),
            r@.map_values(|w: String| w@) + split_ws(s@.skip(i as int)) == split_ws(s@),
        decreases n - i,
    {
        let c = s.get_char(i);
        if c == ' ' || c == '\t' || c == '\n' || c == '\r' {
            proof {
                assert(s@.skip(i as int)[0] == s@[i as int]);
                assert(s@.skip(i as int).skip(1) =~= s@.skip(i as int + 1));
            }
            i = i + 1;
        } else {
            let start = i;
            proof {
                assert(word_len(s@.skip(start as int)) == word_len(s@.skip(i as int)) + (i
                    - start));
            }
            i = i + 1;
            proof {
                assert(s@.skip(start as int)[0] == s@[start as int]);
                assert(s@.skip(start as int).skip(1) =~= s@.skip(start as int + 1));
                assert(word_len(s@.skip(start as int)) == word_len(s@.skip(i as int)) + (i
                    - start));
            }
            let mut stop: bool = false;
            while i < n && !stop
                invariant
                    start < i <= n,
                    n == s@.len(),
                    !is_space(s@[start as int]),
                    word_len(s@.skip(start as int)) == word_len(s@.skip(i as int)) + (i - start),
                    stop ==> i < n && is_space(s@[i as int]),
                decreases n - i, (if stop { 0int } else { 1int }),
            {
                let c2 = s.get_char(i);
                if c2 == ' ' || c2 == '\t' || c2 == '\n' || c2 == '\r' {
                    stop = true;
                } else {
                    proof {
                        assert(s@.skip(i as int)[0] == s@[i as int]);
                        assert(s@.skip(i as int).skip(1) =~= s@.skip(i as int + 1));
                    }
                    i = i + 1;
                }
            }
            proof {
                if stop {
                    assert(s@.skip(i as int)[0] == s@[i as int]);
                    assert(is_space(s@.skip(i as int)[0]));
                    assert(word_len(s@.skip(i as int)) == 0);
                } else {
                    assert(s@.skip(i as int).len() == 0);
                    assert(word_len(s@.skip(i as int)) == 0);
                }
                assert(word_len(s@.skip(start as int)) == i - start);
            }
            let word: &str = s.substring_char(start, i);
            let ghost pre = r@;
            r.push(word.to_owned());
            proof {
                let tail = s@.skip(start as int);
                assert(!is_space(tail[0]));
                assert(split_ws(tail) == seq![tail.take((i - start) as int)] + split_ws(
                    tail.skip((i - start) as int),
                ));
                assert(tail.take((i - start) as int) =~= s@.subrange(start as int, i as int));
                assert(tail.skip((i - start) as int) =~= s@.skip(i as int));
                assert(r@.map_values(|w: String| w@) =~= pre.map_values(|w: String| w@) + seq![
                    s@.subrange(start as int, i as int),
                ]);
                assert(pre.map_values(|w: String| w@) + split_ws(s@.skip(start as int))
                    == split_ws(s@));
                assert((pre.map_values(|w: String| w@) + seq![
                    s@.subrange(start as int, i as int),
                ]) + split_ws(s@.skip(i as int)) =~= pre.map_values(|w: String| w@) + split_ws(
                    s@.skip(start as int),
                ));
            }
        }
    }
    proof {
        assert(s@.skip(i as int).len() == 0);
        assert(split_ws(s@.skip(i as int)) =~= Seq::<Seq<char>>::empty());
        assert(r@.map_values(|w: String| w@) + split_ws(s@.skip(i as int)) =~= r@.map_values(
            |w: String| w@,
        ));
    }
    r
}

/// Renders a truth value as `true` or `false`.
pub fn bool_to_string(b: bool) -> (r: String)
    ensures
        b ==> r@ == "true"@,
        !b ==> r@ == "false"@,
{
    if b {
        "true".to_owned()
    } else {
        "false".to_owned()
    }
}

} // verus!
