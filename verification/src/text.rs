//! Character sequences: whitespace, splitting on a separator, line
//! decomposition, joining, and trimming.

use vstd::prelude::*;

verus! {

/// The whitespace characters recognized by the editor: blank, tab,
/// line feed, vertical tab, form feed, carriage return.
pub open spec fn is_space(c: char) -> bool {
    c == ' ' || c == '\t' || c == '\n' || c == '\u{000b}' || c == '\u{000c}' || c == '\r'
}

/// Runtime test for [`is_space`].
pub fn space_char(c: char) -> (r: bool)
    ensures
        r == is_space(c),
{
    c == ' ' || c == '\t' || c == '\n' || c == '\u{000b}' || c == '\u{000c}' || c == '\r'
}

/// The views of a sequence of character vectors.
pub open spec fn deep(s: Seq<Vec<char>>) -> Seq<Seq<char>> {
    s.map_values(|v: Vec<char>| v@)
}

/// Splitting `s` on the separator `sep`: always at least one piece, with one
/// more piece than there are separators, in order, separators removed.
pub open spec fn split_on(s: Seq<char>, sep: char) -> Seq<Seq<char>>
    decreases s.len(),
{
    if s.len() == 0 {
        seq![Seq::<char>::empty()]
    } else {
        let p = split_on(s.drop_last(), sep);
        if s.last() == sep {
            p.push(Seq::<char>::empty())
        } else {
            p.update(p.len() - 1, p.last().push(s.last()))
        }
    }
}

pub proof fn lemma_split_on_len(s: Seq<char>, sep: char)
    ensures
        split_on(s, sep).len() >= 1,
    decreases s.len(),
{
    if s.len() > 0 {
        lemma_split_on_len(s.drop_last(), sep);
    }
}

/// The lines of a buffer, as `str::lines` sees them when `'\n'` is the only
/// terminator: pieces between separators, except that a final `'\n'` closes
/// the last line instead of opening an empty one, and an empty buffer has no
/// lines at all.
pub open spec fn line_seq(s: Seq<char>) -> Seq<Seq<char>> {
    if s.len() == 0 {
        Seq::<Seq<char>>::empty()
    } else if s.last() == '\n' {
        split_on(s, '\n').drop_last()
    } else {
        split_on(s, '\n')
    }
}

/// The pieces joined back with `sep` between each pair.
pub open spec fn join_with(pieces: Seq<Seq<char>>, sep: char) -> Seq<char>
    decreases pieces.len(),
{
    if pieces.len() == 0 {
        Seq::<char>::empty()
    } else if pieces.len() == 1 {
        pieces[0]
    } else {
        join_with(pieces.drop_last(), sep) + seq![sep] + pieces.last()
    }
}

pub proof fn lemma_deep_push(s: Seq<Vec<char>>, v: Vec<char>)
    ensures
        deep(s.push(v)) == deep(s).push(v@),
{
    assert(deep(s.push(v)) =~= deep(s).push(v@));
}

pub proof fn lemma_deep_update(s: Seq<Vec<char>>, k: int, v: Vec<char>)
    requires
        0 <= k < s.len(),
    ensures
        deep(s.update(k, v)) == deep(s).update(k, v@),
{
    assert(deep(s.update(k, v)) =~= deep(s).update(k, v@));
}

/// `v` split on the separator `sep`, as `str::split` produces the pieces.
pub fn split_char(v: &Vec<char>, sep: char) -> (r: Vec<Vec<char>>)
    ensures
        deep(r@) == split_on(v@, sep),
{
    let mut done: Vec<Vec<char>> = Vec::new();
    let mut cur: Vec<char> = Vec::new();
    proof {
        assert(deep(done@).push(cur@) =~= split_on(v@.take(0), sep));
    }
    let mut i: usize = 0;
    while i < v.len()
        invariant
            i <= v.len(),
            deep(done@).push(cur@) == split_on(v@.take(i as int), sep),
        decreases v.len() - i,
    {
        let ghost d0 = done@;
        proof {
            assert(v@.take(i as int + 1).drop_last() =~= v@.take(i as int));
            assert(v@.take(i as int + 1).last() == v@[i as int]);
        }
        if v[i] == sep {
            done.push(cur);
            cur = Vec::new();
            proof {
                lemma_deep_push(d0, done@.last());
                assert(deep(done@).push(cur@) =~= split_on(v@.take(i as int), sep).push(
                    Seq::<char>::empty(),
                ));
            }
        } else {
            cur.push(v[i]);
            proof {
                let p = split_on(v@.take(i as int), sep);
                assert(deep(done@).push(cur@) =~= p.update(p.len() - 1, p.last().push(v@[i as int])));
            }
        }
        i = i + 1;
    }
    proof {
        assert(v@.take(v@.len() as int) =~= v@);
    }
    let ghost d1 = done@;
    done.push(cur);
    proof {
        lemma_deep_push(d1, done@.last());
    }
    done
}

/// The lines of `v`, matching [`line_seq`] of its view.
pub fn split_lines(v: &Vec<char>) -> (r: Vec<Vec<char>>)
    ensures
        deep(r@) == line_seq(v@),
{
    if v.len() == 0 {
        let r: Vec<Vec<char>> = Vec::new();
        proof {
            assert(deep(r@) =~= line_seq(v@));
        }
        r
    } else {
        let mut r = split_char(v, '\n');
        if v[v.len() - 1] == '\n' {
            proof {
                lemma_split_on_len(v@, '\n');
            }
            let ghost r0 = r@;
            let n = r.len();
            r.truncate(n - 1);
            proof {
                assert(deep(r@) =~= deep(r0).drop_last());
            }
        }
        r
    }
}

/// The pieces of `v` joined with `sep` between each pair, matching
/// [`join_with`].
pub fn join_pieces(pieces: &Vec<Vec<char>>, sep: char) -> (r: Vec<char>)
    ensures
        r@ == join_with(deep(pieces@), sep),
{
    let mut r: Vec<char> = Vec::new();
    let mut i: usize = 0;
    while i < pieces.len()
        invariant
            i <= pieces.len(),
            r@ == join_with(deep(pieces@).take(i as int), sep),
        decreases pieces.len() - i,
    {
        let ghost t = deep(pieces@);
        let ghost before = r@;
        if i > 0 {
            r.push(sep);
        }
        let p = &pieces[i];
        let mut j: usize = 0;
        while j < p.len()
            invariant
                j <= p.len(),
                i < pieces.len(),
                p == &pieces[i as int],
                r@ == (if i == 0 {
                    before
                } else {
                    before.push(sep)
                }) + p@.take(j as int),
            decreases p.len() - j,
        {
            r.push(p[j]);
            proof {
                assert(p@.take(j as int + 1) =~= p@.take(j as int).push(p@[j as int]));
            }
            j = j + 1;
        }
        proof {
            assert(p@.take(p@.len() as int) =~= p@);
            assert(t.take(i as int + 1).drop_last() =~= t.take(i as int));
            assert(t.take(i as int + 1).last() == t[i as int]);
            assert(t[i as int] == p@);
            if i == 0 {
                assert(before + p@ =~= p@);
                assert(join_with(t.take(1), sep) == t.take(1)[0]);
            } else {
                assert(join_with(t.take(i as int + 1), sep) == join_with(t.take(i as int), sep)
                    + seq![sep] + t[i as int]);
                assert(before.push(sep) + p@ =~= before + seq![sep] + p@);
            }
        }
        i = i + 1;
    }
    proof {
        assert(deep(pieces@).take(pieces@.len() as int) =~= deep(pieces@));
    }
    r
}

/// `s` with leading whitespace removed.
pub open spec fn trim_start(s: Seq<char>) -> Seq<char>
    decreases s.len(),
{
    if s.len() > 0 && is_space(s[0]) {
        trim_start(s.drop_first())
    } else {
        s
    }
}

/// `s` with trailing whitespace removed.
pub open spec fn trim_end(s: Seq<char>) -> Seq<char>
    decreases s.len(),
{
    if s.len() > 0 && is_space(s.last()) {
        trim_end(s.drop_last())
    } else {
        s
    }
}

/// `s` with both leading and trailing whitespace removed.
pub open spec fn trim_spec(s: Seq<char>) -> Seq<char> {
    trim_end(trim_start(s))
}

/// A fresh copy of a character vector.
pub fn copy_chars(v: &Vec<char>) -> (r: Vec<char>)
    ensures
        r@ == v@,
{
    let mut r: Vec<char> = Vec::new();
    let mut i: usize = 0;
    while i < v.len()
        invariant
            i <= v.len(),
            r@ == v@.take(i as int),
        decreases v.len() - i,
    {
        r.push(v[i]);
        proof {
            assert(v@.take(i as int + 1) =~= v@.take(i as int).push(v@[i as int]));
        }
        i = i + 1;
    }
    proof {
        assert(v@.take(v@.len() as int) =~= v@);
    }
    r
}

/// The characters of `v` from `lo` (inclusive) to `hi` (exclusive).
pub fn sub_chars(v: &Vec<char>, lo: usize, hi: usize) -> (r: Vec<char>)
    requires
        lo <= hi <= v@.len(),
    ensures
        r@ == v@.subrange(lo as int, hi as int),
{
    let mut r: Vec<char> = Vec::new();
    let mut i: usize = lo;
    while i < hi
        invariant
            lo <= i <= hi <= v@.len(),
            r@ == v@.subrange(lo as int, i as int),
        decreases hi - i,
    {
        r.push(v[i]);
        proof {
            assert(v@.subrange(lo as int, i as int + 1) =~= v@.subrange(lo as int, i as int).push(
                v@[i as int],
            ));
        }
        i = i + 1;
    }
    r
}

/// `v` with leading and trailing whitespace removed, as `str::trim` does it.
pub fn trim_chars(v: &Vec<char>) -> (r: Vec<char>)
    ensures
        r@ == trim_spec(v@),
{
    proof {
        assert(v@.skip(0) =~= v@);
    }
    let mut lo: usize = 0;
    while lo < v.len() && space_char(v[lo])
        invariant
            lo <= v@.len(),
            trim_start(v@) == trim_start(v@.skip(lo as int)),
        decreases v.len() - lo,
    {
        proof {
            assert(v@.skip(lo as int)[0] == v@[lo as int]);
            assert(v@.skip(lo as int).drop_first() =~= v@.skip(lo as int + 1));
        }
        lo = lo + 1;
    }
    proof {
        if lo < v@.len() {
            assert(v@.skip(lo as int)[0] == v@[lo as int]);
        }
        assert(trim_start(v@.skip(lo as int)) == v@.skip(lo as int));
        assert(v@.skip(lo as int) =~= v@.subrange(lo as int, v@.len() as int));
    }
    let mut hi: usize = v.len();
    while hi > lo && space_char(v[hi - 1])
        invariant
            lo <= hi <= v@.len(),
            trim_start(v@) == v@.skip(lo as int),
            trim_end(v@.skip(lo as int)) == trim_end(v@.subrange(lo as int, hi as int)),
        decreases hi,
    {
        proof {
            assert(v@.subrange(lo as int, hi as int).last() == v@[hi as int - 1]);
            assert(v@.subrange(lo as int, hi as int).drop_last() =~= v@.subrange(
                lo as int,
                hi as int - 1,
            ));
        }
        hi = hi - 1;
    }
    proof {
        if hi > lo {
            assert(v@.subrange(lo as int, hi as int).last() == v@[hi as int - 1]);
        }
        assert(trim_end(v@.subrange(lo as int, hi as int)) == v@.subrange(lo as int, hi as int));
    }
    sub_chars(v, lo, hi)
}

} // verus!
