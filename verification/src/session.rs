//! The editor session: the buffer, the current file name, and the
//! operations the dispatcher can invoke on them.

use vstd::prelude::*;
use crate::numbers::{line_prefix, numeral_val, parse_usize, render_prefix, usize_numeral};
use crate::text::{
    copy_chars, deep, join_pieces, join_with, lemma_deep_push, line_seq, split_char, split_lines,
    split_on, trim_chars, trim_spec,
};

verus! {

/// The marker printed when listing an empty buffer.
pub open spec fn empty_marker() -> Seq<char> {
    seq!['<', 'e', 'm', 'p', 't', 'y', '>']
}

/// One displayed line of a listing: the line number `k`, then the text.
pub open spec fn render_entry(k: nat, line: Seq<char>) -> Seq<char> {
    line_prefix(k) + line
}

/// The pieces of a range argument, split on hyphens.
pub open spec fn range_pieces(s: Seq<char>) -> Seq<Seq<char>> {
    split_on(s, '-')
}

/// Whether `s` is a usable range argument: a hyphen splits it, the piece
/// before and the piece after (up to any second hyphen) are both unsigned
/// numerals whose values fit in `usize`; later pieces are passed over.
pub open spec fn range_arg_valid(s: Seq<char>) -> bool {
    let p = range_pieces(s);
    p.len() >= 2 && usize_numeral(p[0]) && numeral_val(p[0]) <= usize::MAX && usize_numeral(p[1])
        && numeral_val(p[1]) <= usize::MAX
}

/// The lower bound named by a valid range argument.
pub open spec fn range_lower(s: Seq<char>) -> nat {
    numeral_val(range_pieces(s)[0])
}

/// The upper bound named by a valid range argument.
pub open spec fn range_upper(s: Seq<char>) -> nat {
    numeral_val(range_pieces(s)[1])
}

/// How many lines a listing of the slice `lower..upper` shows out of `n`:
/// `upper - lower` when `upper > lower` and nothing otherwise, cut down to
/// the lines that exist past `lower`.
pub open spec fn slice_len(lower: nat, upper: nat, n: nat) -> nat {
    let want = if upper > lower {
        (upper - lower) as nat
    } else {
        0
    };
    let have = if lower < n {
        (n - lower) as nat
    } else {
        0
    };
    if want <= have {
        want
    } else {
        have
    }
}

/// The displayed lines for the slice `lower..upper`, renumbered from zero.
pub open spec fn listing(lines: Seq<Seq<char>>, lower: nat, upper: nat) -> Seq<Seq<char>> {
    Seq::new(
        slice_len(lower, upper, lines.len()),
        |k: int| render_entry(k as nat, lines[lower + k]),
    )
}

/// The output of a listing of the buffer `buf` under the optional range
/// argument: the displayed lines, or nothing when the argument is unusable.
/// An empty buffer shows the marker alone, whatever the argument says.
pub open spec fn spec_list(buf: Seq<char>, range: Option<Seq<char>>) -> Option<Seq<Seq<char>>> {
    if buf.len() == 0 {
        Some(seq![empty_marker()])
    } else {
        match range {
            None => Some(listing(line_seq(buf), 0, line_seq(buf).len())),
            Some(a) => if range_arg_valid(a) {
                Some(listing(line_seq(buf), range_lower(a), range_upper(a)))
            } else {
                None
            },
        }
    }
}

/// The view of an optional borrowed argument.
pub open spec fn arg_view(o: Option<&Vec<char>>) -> Option<Seq<char>> {
    match o {
        Some(v) => Some(v@),
        None => None,
    }
}

/// The view of an optional owned file name.
pub open spec fn file_view(o: Option<Vec<char>>) -> Option<Seq<char>> {
    match o {
        Some(v) => Some(v@),
        None => None,
    }
}

/// The path a save writes to: an explicit argument wins, else the current
/// file name; a save never changes either.
pub open spec fn save_target_spec(file: Option<Seq<char>>, name: Option<Seq<char>>) -> Option<
    Seq<char>,
> {
    match name {
        Some(n) => Some(n),
        None => file,
    }
}

/// What a listing printed, or the report that the range argument was bad.
#[derive(Debug, PartialEq, Eq)]
pub enum ListOutcome {
    Lines(Vec<Vec<char>>),
    InvalidRange,
}

/// One editing session: the text buffer and the current file name.
pub struct Session {
    pub buffer: Vec<char>,
    pub file_name: Option<Vec<char>>,
}

/// The walk phase of an edit: the snapshot of the buffer's lines and the
/// line the walk stands on.
pub struct EditState {
    pub lines: Vec<Vec<char>>,
    pub index: usize,
}

impl Session {
    /// A fresh session: empty buffer, no current file.
    pub fn new() -> (s: Session)
        ensures
            s.buffer@ == Seq::<char>::empty(),
            s.file_name is None,
    {
        Session { buffer: Vec::new(), file_name: None }
    }

    /// Takes the outcome of reading `path`: content replaces the buffer
    /// wholesale and `path` becomes the current file name; a failed read
    /// leaves the session exactly as it was, and the answer says which.
    pub fn open_result(&mut self, path: Vec<char>, content: Option<Vec<char>>) -> (ok: bool)
        ensures
            match content {
                Some(c) => ok && final(self).buffer@ == c@ && file_view(final(self).file_name)
                    == Some(path@),
                None => !ok && *final(self) == *old(self),
            },
    {
        match content {
            Some(c) => {
                self.buffer = c;
                self.file_name = Some(path);
                true
            },
            None => false,
        }
    }

    /// Empties the buffer; the current file name stays.
    pub fn clear(&mut self)
        ensures
            final(self).buffer@ == Seq::<char>::empty(),
            final(self).file_name == old(self).file_name,
    {
        self.buffer = Vec::new();
    }

    /// Appends one raw input line, terminator and all, to the buffer.
    pub fn append_line(&mut self, line: &Vec<char>)
        ensures
            final(self).buffer@ == old(self).buffer@ + line@,
            final(self).file_name == old(self).file_name,
    {
        proof {
            assert(self.buffer@ + line@.take(0) =~= self.buffer@);
        }
        let mut i: usize = 0;
        while i < line.len()
            invariant
                i <= line.len(),
                self.buffer@ == old(self).buffer@ + line@.take(i as int),
                self.file_name == old(self).file_name,
            decreases line.len() - i,
        {
            self.buffer.push(line[i]);
            proof {
                assert(old(self).buffer@ + line@.take(i as int + 1) =~= (old(self).buffer@
                    + line@.take(i as int)).push(line@[i as int]));
            }
            i = i + 1;
        }
        proof {
            assert(line@.take(line@.len() as int) =~= line@);
        }
    }

    /// The number of lines in the buffer.
    pub fn line_count(&self) -> (n: usize)
        ensures
            n == line_seq(self.buffer@).len(),
    {
        let lines = split_lines(&self.buffer);
        lines.len()
    }

    /// The path a save would write to, matching [`save_target_spec`]: the
    /// explicit argument first, else the current file name, else nothing.
    pub fn save_target(&self, name: Option<&Vec<char>>) -> (r: Option<Vec<char>>)
        ensures
            file_view(r) == save_target_spec(file_view(self.file_name), arg_view(name)),
    {
        match name {
            Some(n) => Some(copy_chars(n)),
            None => match &self.file_name {
                Some(f) => Some(copy_chars(f)),
                None => None,
            },
        }
    }

    /// The listing of the buffer under the optional range argument,
    /// matching [`spec_list`].
    pub fn list(&self, range: Option<&Vec<char>>) -> (r: ListOutcome)
        ensures
            match r {
                ListOutcome::Lines(out) => spec_list(self.buffer@, arg_view(range)) == Some(
                    deep(out@),
                ),
                ListOutcome::InvalidRange => spec_list(self.buffer@, arg_view(range)) is None,
            },
    {
        if self.buffer.len() == 0 {
            let mut marker: Vec<char> = Vec::new();
            marker.push('<');
            marker.push('e');
            marker.push('m');
            marker.push('p');
            marker.push('t');
            marker.push('y');
            marker.push('>');
            proof {
                assert(marker@ =~= empty_marker());
            }
            let mut out: Vec<Vec<char>> = Vec::new();
            out.push(marker);
            proof {
                assert(deep(out@) =~= seq![empty_marker()]);
            }
            return ListOutcome::Lines(out);
        }
        let lines = split_lines(&self.buffer);
        match range {
            None => {
                let out = render_slice(&lines, 0, lines.len());
                ListOutcome::Lines(out)
            },
            Some(a) => {
                let pieces = split_char(a, '-');
                if pieces.len() < 2 {
                    return ListOutcome::InvalidRange;
                }
                proof {
                    assert(range_pieces(a@)[0] == deep(pieces@)[0]);
                    assert(range_pieces(a@)[1] == deep(pieces@)[1]);
                }
                let lower_parse = parse_usize(&pieces[0]);
                let upper_parse = parse_usize(&pieces[1]);
                match (lower_parse, upper_parse) {
                    (Some(lower), Some(upper)) => {
                        let out = render_slice(&lines, lower, upper);
                        ListOutcome::Lines(out)
                    },
                    _ => ListOutcome::InvalidRange,
                }
            },
        }
    }

    /// Snapshots the buffer's lines to start an edit at line `start`.
    pub fn begin_edit(&self, start: usize) -> (st: EditState)
        ensures
            deep(st.lines@) == line_seq(self.buffer@),
            st.index == start,
    {
        EditState { lines: split_lines(&self.buffer), index: start }
    }

    /// Writes a walked snapshot back: the buffer becomes the snapshot's
    /// lines joined with newlines; the current file name stays.
    pub fn commit_edit(&mut self, st: &EditState)
        ensures
            final(self).buffer@ == join_with(deep(st.lines@), '\n'),
            final(self).file_name == old(self).file_name,
    {
        self.buffer = join_pieces(&st.lines, '\n');
    }
}

impl EditState {
    /// Whether the walk still stands on an existing line.
    pub fn in_walk(&self) -> (r: bool)
        ensures
            r == (self.index < self.lines@.len()),
    {
        self.index < self.lines.len()
    }

    /// The line number the walk stands on.
    pub fn position(&self) -> (n: usize)
        ensures
            n == self.index,
    {
        self.index
    }

    /// Replaces the line the walk stands on with the trimmed input and
    /// steps to the next line.
    pub fn replace_line(&mut self, input: &Vec<char>)
        requires
            old(self).index < old(self).lines@.len(),
        ensures
            deep(final(self).lines@) == deep(old(self).lines@).update(
                old(self).index as int,
                trim_spec(input@),
            ),
            final(self).index == old(self).index + 1,
    {
        let t = trim_chars(input);
        let ghost l0 = self.lines@;
        let n = self.lines.len();
        let idx = self.index;
        assert(idx < n);
        self.lines[idx] = t;
        proof {
            crate::text::lemma_deep_update(l0, idx as int, self.lines@[idx as int]);
        }
        self.index = idx + 1;
    }
}

/// The rendered lines for the slice `lower..upper` of `lines`, renumbered
/// from zero, matching [`listing`].
fn render_slice(lines: &Vec<Vec<char>>, lower: usize, upper: usize) -> (out: Vec<Vec<char>>)
    ensures
        deep(out@) == listing(deep(lines@), lower as nat, upper as nat),
{
    let n = lines.len();
    let want: usize = if upper > lower {
        upper - lower
    } else {
        0
    };
    let have: usize = if lower < n {
        n - lower
    } else {
        0
    };
    let count: usize = if want <= have {
        want
    } else {
        have
    };
    let ghost full = listing(deep(lines@), lower as nat, upper as nat);
    proof {
        assert(full.len() == count);
    }
    let mut out: Vec<Vec<char>> = Vec::new();
    proof {
        assert(deep(out@) =~= full.take(0));
    }
    let mut k: usize = 0;
    while k < count
        invariant
            k <= count,
            count <= have,
            have == (if lower < lines@.len() {
                lines@.len() - lower
            } else {
                0
            }),
            full == listing(deep(lines@), lower as nat, upper as nat),
            full.len() == count,
            deep(out@) == full.take(k as int),
        decreases count - k,
    {
        let mut entry = render_prefix(k);
        let mut tail = copy_chars(&lines[lower + k]);
        entry.append(&mut tail);
        let ghost o0 = out@;
        out.push(entry);
        proof {
            lemma_deep_push(o0, out@.last());
            assert(out@.last()@ == render_entry(k as nat, deep(lines@)[lower + k]));
            assert(full[k as int] == render_entry(k as nat, deep(lines@)[lower + k]));
            assert(full.take(k as int + 1) =~= full.take(k as int).push(full[k as int]));
        }
        k = k + 1;
    }
    proof {
        assert(full.take(count as int) =~= full);
    }
    out
}

} // verus!
