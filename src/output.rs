//! Turning template file names into titles and type names.

use vstd::prelude::*;
use crate::utils::{before_first, prefix_before};

verus! {

/// What `char::to_uppercase` yields for `c` (one or more characters).
pub uninterp spec fn uppercase_of(c: char) -> Seq<char>;

/// Relies on `char::to_uppercase`, collected into a `String`: Unicode upper
/// case, which depends on the character alone.
#[verifier::external_body]
fn uppercase(c: char) -> (r: String)
    ensures
        r@ == uppercase_of(c),
{
    c.to_uppercase().collect()
}

/// `w` with its first character in upper case.
pub open spec fn capitalized(w: Seq<char>) -> Seq<char> {
    if w.len() == 0 {
        w
    } else {
        uppercase_of(w[0]) + w.drop_first()
    }
}

/// The pieces of `s` between `_` separators (one piece if there is none).
pub open spec fn split_words(s: Seq<char>) -> Seq<Seq<char>>
    decreases s.len(),
{
    if s.len() == 0 {
        seq![Seq::empty()]
    } else {
        let w = split_words(s.drop_last());
        if s.last() == '_' {
            w.push(Seq::empty())
        } else {
            w.update(w.len() - 1, w.last().push(s.last()))
        }
    }
}

/// The capitalized words, separated by `sep`.
pub open spec fn join_capitalized(ws: Seq<Seq<char>>, sep: Seq<char>) -> Seq<char>
    decreases ws.len(),
{
    if ws.len() == 0 {
        Seq::empty()
    } else if ws.len() == 1 {
        capitalized(ws[0])
    } else {
        join_capitalized(ws.drop_last(), sep) + sep + capitalized(ws.last())
    }
}

/// `my_template.json` as `My Template` (with `sep` a space) or `MyTemplate`
/// (with `sep` empty).
pub open spec fn snake_to_words(input: Seq<char>, sep: Seq<char>) -> Seq<char> {
    join_capitalized(split_words(before_first(input, '.')), sep)
}

proof fn lemma_split_words_nonempty(s: Seq<char>)
    ensures
        split_words(s).len() >= 1,
    decreases s.len(),
{
    if s.len() > 0 {
        lemma_split_words_nonempty(s.drop_last());
    }
}

fn capitalize(w: &str) -> (r: String)
    ensures
        r@ == capitalized(w@),
{
    let n = w.unicode_len();
    if n == 0 {
        return String::new();
    }
    let mut r = uppercase(w.get_char(0));
    r.append(w.substring_char(1, n));
    assert(w@.drop_first() =~= w@.subrange(1, n as int));
    r
}

fn join_snake_words(input: &str, sep: &str) -> (r: String)
    ensures
        r@ == snake_to_words(input@, sep@),
{
    let base = prefix_before(input, '.');
    let n = base.unicode_len();
    let mut out = String::new();
    let mut count: usize = 0;
    let mut start: usize = 0;
    let mut i: usize = 0;
    assert(base@.subrange(0, 0) =~= Seq::<char>::empty());
    while i < n
        invariant
            n == base@.len(),
            start <= i <= n,
            count <= i,
            split_words(base@.subrange(0, i as int)).len() == count + 1,
            split_words(base@.subrange(0, i as int)).last() == base@.subrange(start as int, i as int),
            out@ == join_capitalized(split_words(base@.subrange(0, i as int)).drop_last(), sep@),
        decreases n - i,
    {
        let ghost w = split_words(base@.subrange(0, i as int));
        assert(base@.subrange(0, i + 1).drop_last() =~= base@.subrange(0, i as int));
        if base.get_char(i) == '_' {
            let word = capitalize(base.substring_char(start, i));
            if count > 0 {
                out.append(sep);
            }
            out.append(word.as_str());
            proof {
                let w2 = split_words(base@.subrange(0, i + 1));
                assert(w2 == w.push(Seq::empty()));
                assert(w2.drop_last() =~= w);
                if w.len() == 1 {
                    assert(w.drop_last() =~= Seq::<Seq<char>>::empty());
                }
                assert(out@ =~= join_capitalized(w2.drop_last(), sep@));
                assert(w2.last() =~= base@.subrange(i + 1, i + 1));
            }
            count = count + 1;
            start = i + 1;
        } else {
            proof {
                let w2 = split_words(base@.subrange(0, i + 1));
                assert(w2.drop_last() =~= w.drop_last());
                assert(w2.last() =~= base@.subrange(start as int, i + 1));
            }
        }
        i = i + 1;
    }
    assert(base@.subrange(0, n as int) =~= base@);
    let word = capitalize(base.substring_char(start, n));
    if count > 0 {
        out.append(sep);
    }
    out.append(word.as_str());
    proof {
        let w = split_words(base@);
        if w.len() == 1 {
            assert(w.drop_last() =~= Seq::<Seq<char>>::empty());
        }
        assert(out@ =~= join_capitalized(w, sep@));
    }
    out
}

/// Text helpers for screen output.
pub struct Output;

impl Output {
    /// A template file name as a title: the name before the first `.`,
    /// each `_`-separated word capitalized, joined by spaces.
    pub fn snake_to_title_case(input: &str) -> (r: String)
        ensures
            r@ == snake_to_words(input@, seq![' ']),
    {
        proof {
            reveal_strlit(" ");
            assert(" "@ =~= seq![' ']);
        }
        join_snake_words(input, " ")
    }

    /// A template file name as a credential type: the name before the
    /// first `.`, each `_`-separated word capitalized, joined together.
    pub fn snake_to_camel_case(input: &str) -> (r: String)
        ensures
            r@ == snake_to_words(input@, Seq::empty()),
    {
        proof {
            reveal_strlit("");
            assert(""@ =~= Seq::<char>::empty());
        }
        join_snake_words(input, "")
    }
}

} // verus!
