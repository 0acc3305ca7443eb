//! Helpers on file names and encoded text.

use vstd::prelude::*;
use crate::text::{trim, trimmed};
use vstd::utf8::encode_utf8;

verus! {

/// The part of `s` before the first `c` (all of `s` if there is none).
pub open spec fn before_first(s: Seq<char>, c: char) -> Seq<char>
    decreases s.len(),
{
    if s.len() == 0 {
        s
    } else if s[0] == c {
        Seq::empty()
    } else {
        seq![s[0]] + before_first(s.drop_first(), c)
    }
}

proof fn lemma_before_first(s: Seq<char>, c: char, i: int)
    requires
        0 <= i <= s.len(),
        forall|k: int| 0 <= k < i ==> s[k] != c,
        i == s.len() || s[i] == c,
    ensures
        before_first(s, c) == s.subrange(0, i),
    decreases s.len(),
{
    if s.len() > 0 && i > 0 {
        lemma_before_first(s.drop_first(), c, i - 1);
        assert(s.subrange(0, i) =~= seq![s[0]] + s.drop_first().subrange(0, i - 1));
    } else {
        assert(s.subrange(0, i) =~= Seq::<char>::empty());
    }
}

/// The part of `s` after its first `c` (empty if there is none).
pub open spec fn after_first(s: Seq<char>, c: char) -> Seq<char>
    decreases s.len(),
{
    if s.len() == 0 {
        s
    } else if s[0] == c {
        s.drop_first()
    } else {
        after_first(s.drop_first(), c)
    }
}

proof fn lemma_after_first(s: Seq<char>, c: char, i: int)
    requires
        0 <= i < s.len(),
        forall|k: int| 0 <= k < i ==> s[k] != c,
        s[i] == c,
    ensures
        after_first(s, c) == s.subrange(i + 1, s.len() as int),
    decreases s.len(),
{
    if i > 0 {
        lemma_after_first(s.drop_first(), c, i - 1);
        assert(s.drop_first().subrange(i, s.len() - 1) =~= s.subrange(i + 1, s.len() as int));
    }
}

/// The index of the first `c` in `s`, or its length if there is none.
pub fn first_index_of(s: &str, c: char) -> (i: usize)
    ensures
        i <= s@.len(),
        forall|k: int| 0 <= k < i ==> s@[k] != c,
        i == s@.len() || s@[i as int] == c,
        before_first(s@, c) == s@.subrange(0, i as int),
        i < s@.len() ==> after_first(s@, c) == s@.subrange(i + 1, s@.len() as int),
{
    let n = s.unicode_len();
    let mut i: usize = 0;
    while i < n && s.get_char(i) != c
        invariant
            n == s@.len(),
            i <= n,
            forall|k: int| 0 <= k < i ==> s@[k] != c,
        decreases n - i,
    {
        i = i + 1;
    }
    proof {
        lemma_before_first(s@, c, i as int);
        if i < n {
            lemma_after_first(s@, c, i as int);
        }
    }
    i
}

/// The part of `s` before the first `c`.
pub fn prefix_before(s: &str, c: char) -> (r: &str)
    ensures
        r@ == before_first(s@, c),
{
    let i = first_index_of(s, c);
    s.substring_char(0, i)
}

/// A file name without its extension: everything before the first `.`.
pub fn remove_file_extension(file_name: &str) -> (r: String)
    ensures
        r@ == before_first(file_name@, '.'),
{
    String::from_str(prefix_before(file_name, '.'))
}

/// How many `=` make the byte length of a base64 text a multiple of four.
pub open spec fn base64_padding(byte_len: nat) -> nat {
    ((4 - (byte_len % 4) as int) % 4) as nat
}

/// `encoded` followed by the `=` signs that make its length a multiple of four.
pub fn add_base64_padding(encoded: &str) -> (r: String)
    ensures
        r@ == encoded@ + Seq::new(base64_padding(encode_utf8(encoded@).len()), |_i: int| '='),
{
    let byte_len = encoded.as_bytes().len();
    let padding_needed: usize = (4 - byte_len % 4) % 4;
    let mut padded = String::from_str(encoded);
    let mut k: usize = 0;
    proof {
        reveal_strlit("=");
        assert("="@ =~= seq!['=']);
    }
    while k < padding_needed
        invariant
            padding_needed == base64_padding(encode_utf8(encoded@).len()),
            k <= padding_needed,
            "="@ == seq!['='],
            padded@ == encoded@ + Seq::new(k as nat, |_i: int| '='),
        decreases padding_needed - k,
    {
        padded.append("=");
        k = k + 1;
        assert(padded@ =~= encoded@ + Seq::new(k as nat, |_i: int| '='));
    }
    padded
}

/// The file that lists the disclosable paths of a template: `directory`,
/// then `/`, the template's name without extension, and `.txt`.
pub open spec fn sd_file_path_text(directory: Seq<char>, template: Seq<char>) -> Seq<char> {
    directory + seq!['/'] + before_first(template, '.') + seq!['.', 't', 'x', 't']
}

/// Where the disclosable paths of `template` are kept.
pub fn sd_file_path(directory: &str, template: &str) -> (r: String)
    ensures
        r@ == sd_file_path_text(directory@, template@),
{
    proof {
        reveal_strlit("/");
        reveal_strlit(".txt");
    }
    let mut path = String::from_str(directory);
    path.append("/");
    path.append(prefix_before(template, '.'));
    path.append(".txt");
    assert(path@ =~= sd_file_path_text(directory@, template@));
    path
}

/// The lines among the first `n` that carry content: each trimmed, without
/// blank lines and without comments (lines that start with `#`).
pub open spec fn content_lines(lines: Seq<Seq<char>>, n: nat) -> Seq<Seq<char>>
    decreases n,
{
    if n == 0 || n > lines.len() {
        Seq::empty()
    } else {
        let t = trimmed(lines[n - 1]);
        if t.len() > 0 && t[0] != '#' {
            content_lines(lines, (n - 1) as nat).push(t)
        } else {
            content_lines(lines, (n - 1) as nat)
        }
    }
}

/// The trimmed lines of a paths file that are neither blank nor comments.
pub fn lines_ignoring_comments(lines: &Vec<String>) -> (r: Vec<String>)
    ensures
        r@.map_values(|s: String| s@) == content_lines(
            lines@.map_values(|s: String| s@),
            lines@.len(),
        ),
{
    let ghost all = lines@.map_values(|s: String| s@);
    let n = lines.len();
    let mut kept: Vec<String> = Vec::new();
    let mut i: usize = 0;
    assert(kept@.map_values(|s: String| s@) =~= Seq::<Seq<char>>::empty());
    while i < n
        invariant
            n == lines@.len(),
            all == lines@.map_values(|s: String| s@),
            i <= n,
            kept@.map_values(|s: String| s@) == content_lines(all, i as nat),
        decreases n - i,
    {
        let t = trim(lines[i].as_str());
        assert(all[i as int] == lines@[i as int]@);
        if t.unicode_len() > 0 && t.get_char(0) != '#' {
            kept.push(String::from_str(t));
        }
        assert(kept@.map_values(|s: String| s@) =~= content_lines(all, (i + 1) as nat));
        i = i + 1;
    }
    kept
}

} // verus!
