//! Splitting and joining text on a separator character, as zone data is read.

use vstd::prelude::*;
use vstd::string::StrSliceExecFns;

verus! {

/// The index of the first `c` in `s`, or its length when there is none.
pub open spec fn first_index(s: Seq<char>, c: char) -> int
    decreases s.len(),
{
    if s.len() == 0 {
        0
    } else if s[0] == c {
        0
    } else {
        1 + first_index(s.drop_first(), c)
    }
}

/// Facts about [first_index]: it is in range, no `c` comes before it, and a `c` stands at
/// it unless it is the length.
pub proof fn lemma_first_index(s: Seq<char>, c: char)
    ensures
        0 <= first_index(s, c) <= s.len(),
        forall|k: int| 0 <= k < first_index(s, c) ==> s[k] != c,
        first_index(s, c) < s.len() ==> s[first_index(s, c)] == c,
    decreases s.len(),
{
    if s.len() > 0 && s[0] != c {
        lemma_first_index(s.drop_first(), c);
        assert forall|k: int| 0 <= k < first_index(s, c) implies s[k] != c by {
            if k > 0 {
                assert(s[k] == s.drop_first()[k - 1]);
            }
        }
    }
}

/// The pieces of `s` between the occurrences of `c`, in order; empty pieces included, and
/// one piece (all of `s`) when `c` does not occur.
pub open spec fn split_char(s: Seq<char>, c: char) -> Seq<Seq<char>>
    decreases s.len(),
{
    let i = first_index(s, c);
    if 0 <= i < s.len() {
        seq![s.take(i)] + split_char(s.skip(i + 1), c)
    } else {
        seq![s]
    }
}

/// The pieces joined back together with `sep` between each two of them.
pub open spec fn join_with(pieces: Seq<Seq<char>>, sep: Seq<char>) -> Seq<char>
    decreases pieces.len(),
{
    if pieces.len() == 0 {
        Seq::empty()
    } else if pieces.len() == 1 {
        pieces[0]
    } else {
        join_with(pieces.drop_last(), sep) + sep + pieces.last()
    }
}

/// The text views of a list of strings.
pub open spec fn string_views(v: Seq<String>) -> Seq<Seq<char>> {
    v.map_values(|x: String| x@)
}

/// The index in `s` of the first `c` at or after `start`, or the length of `s`.
pub fn next_index(s: &str, start: usize, c: char) -> (j: usize)
    requires
        start <= s@.len(),
    ensures
        j as int == start + first_index(s@.skip(start as int), c),
        start <= j <= s@.len(),
{
    let len = s.unicode_len();
    let mut j = start;
    proof {
        lemma_first_index(s@.skip(start as int), c);
    }
    while j < len
        invariant
            len == s@.len(),
            start <= j <= len,
            forall|k: int| start <= k < j ==> s@[k] != c,
            j - start <= first_index(s@.skip(start as int), c),
            0 <= first_index(s@.skip(start as int), c) <= s@.len() - start,
            forall|k: int| 0 <= k < first_index(s@.skip(start as int), c) ==> s@.skip(start as int)[k] != c,
            first_index(s@.skip(start as int), c) < s@.len() - start ==> s@.skip(start as int)[first_index(
                s@.skip(start as int),
                c,
            )] == c,
        decreases len - j,
    {
        if s.get_char(j) == c {
            assert(s@.skip(start as int)[j - start] == c);
            return j;
        }
        j = j + 1;
    }
    j
}

/// Splits `s` on every `c`, see [split_char].
pub fn split_str(s: &str, c: char) -> (r: Vec<String>)
    ensures
        string_views(r@) == split_char(s@, c),
{
    let len = s.unicode_len();
    let mut pieces: Vec<String> = Vec::new();
    let mut start: usize = 0;
    assert(s@.skip(0) =~= s@);
    loop
        invariant
            len == s@.len(),
            start <= len,
            split_char(s@, c) == string_views(pieces@) + split_char(s@.skip(start as int), c),
        decreases len - start,
    {
        let end = next_index(s, start, c);
        let ghost rest = s@.skip(start as int);
        proof {
            lemma_first_index(rest, c);
        }
        let piece = String::from_str(s.substring_char(start, end));
        assert(piece@ =~= rest.take(end - start));
        let ghost before = pieces@;
        pieces.push(piece);
        proof {
            assert(string_views(pieces@) =~= string_views(before).push(piece@));
        }
        if end == len {
            proof {
                assert(rest.take(end - start) =~= rest);
                assert(split_char(rest, c) == seq![rest]);
                assert(string_views(before) + seq![rest] =~= string_views(pieces@));
            }
            return pieces;
        }
        proof {
            assert(rest.skip(end - start + 1) =~= s@.skip(end + 1));
            assert(split_char(rest, c) == seq![rest.take(end - start)] + split_char(s@.skip(end + 1), c));
            assert(string_views(before) + (seq![rest.take(end - start)] + split_char(s@.skip(end + 1), c))
                =~= string_views(pieces@) + split_char(s@.skip(end + 1), c));
        }
        start = end + 1;
    }
}

/// Joins `pieces[from..]` with `sep` between each two of them, see [join_with].
pub fn join_from(pieces: &Vec<String>, from: usize, sep: &str) -> (r: String)
    requires
        from <= pieces@.len(),
    ensures
        r@ == join_with(string_views(pieces@).skip(from as int), sep@),
{
    let mut res = String::new();
    let mut i = from;
    while i < pieces.len()
        invariant
            from <= i <= pieces@.len(),
            res@ == join_with(string_views(pieces@).subrange(from as int, i as int), sep@),
        decreases pieces@.len() - i,
    {
        let ghost done = string_views(pieces@).subrange(from as int, i as int);
        let ghost next = string_views(pieces@).subrange(from as int, i + 1);
        assert(next.drop_last() =~= done);
        assert(next.last() == pieces@[i as int]@);
        if i > from {
            res.append(sep);
        } else {
            assert(next =~= seq![pieces@[i as int]@]);
        }
        res.append(pieces[i].as_str());
        i = i + 1;
    }
    assert(string_views(pieces@).subrange(from as int, pieces@.len() as int) =~= string_views(
        pieces@,
    ).skip(from as int));
    res
}

} // verus!
