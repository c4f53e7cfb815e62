//! The general properties of the editor, each stated over the same spec
//! functions the operations' contracts use, and proved once for all inputs.

use vstd::prelude::*;
use crate::session::{
    empty_marker, listing, range_arg_valid, range_lower, range_upper, render_entry,
    save_target_spec, spec_list, Session,
};
use crate::session::file_view;
use crate::text::{join_with, line_seq, trim_spec};

verus! {

/// The snapshot after an edit's walk has taken `inputs`, one line each,
/// starting at line `start`: the step [`crate::session::EditState::replace_line`]
/// takes, repeated while lines remain.
pub open spec fn walk_lines(lines: Seq<Seq<char>>, start: nat, inputs: Seq<Seq<char>>) -> Seq<
    Seq<char>,
>
    decreases inputs.len(),
{
    if inputs.len() == 0 || start >= lines.len() {
        lines
    } else {
        walk_lines(
            lines.update(start as int, trim_spec(inputs[0])),
            start + 1,
            inputs.drop_first(),
        )
    }
}

/// The buffer after an append has taken `inputs`, one raw line each: the
/// step [`Session::append_line`] takes, repeated.
pub open spec fn append_all(buf: Seq<char>, inputs: Seq<Seq<char>>) -> Seq<char>
    decreases inputs.len(),
{
    if inputs.len() == 0 {
        buf
    } else {
        append_all(buf + inputs[0], inputs.drop_first())
    }
}

/// A valid range within the buffer lists exactly `upper - lower` lines,
/// numbered from zero, each one the buffer line at the same offset past
/// `lower`.
pub proof fn lemma_list_range_exact(lines: Seq<Seq<char>>, lower: nat, upper: nat)
    requires
        lower <= upper <= lines.len(),
    ensures
        listing(lines, lower, upper).len() == upper - lower,
        forall|k: int|
            0 <= k < upper - lower ==> listing(lines, lower, upper)[k] == render_entry(
                k as nat,
                lines[lower + k],
            ),
{
}

/// A backwards range lists nothing, and is no error: the listing succeeds
/// with no lines at all.
pub proof fn lemma_list_reversed_range(buf: Seq<char>, arg: Seq<char>)
    requires
        buf.len() > 0,
        range_arg_valid(arg),
        range_upper(arg) < range_lower(arg),
    ensures
        spec_list(buf, Some(arg)) == Some(Seq::<Seq<char>>::empty()),
{
    assert(listing(line_seq(buf), range_lower(arg), range_upper(arg))
        =~= Seq::<Seq<char>>::empty());
}

/// A buffer reset by the new-file command lists as the single
/// empty-buffer marker, whatever range argument comes with the command:
/// [`Session::clear`] leaves the empty text, and every listing of empty
/// text is the marker alone.
pub proof fn lemma_cleared_lists_marker(range: Option<Seq<char>>)
    ensures
        spec_list(Seq::<char>::empty(), range) == Some(seq![empty_marker()]),
{
}

/// Opening a file and saving at once with no explicit name is a round
/// trip: after [`Session::open_result`] succeeds on `path` with `content`,
/// the save target with no argument resolves to that same `path`, and the
/// content to be written is the very `content` that was read.
pub proof fn lemma_open_save_round_trip(s: Session, path: Seq<char>, content: Seq<char>)
    requires
        s.buffer@ == content,
        file_view(s.file_name) == Some(path),
    ensures
        save_target_spec(file_view(s.file_name), None) == Some(path),
        s.buffer@ == content,
{
}

/// Editing from a line number at or past the end of the buffer acts as a
/// direct append: the walk replaces nothing, the write-back reproduces the
/// buffer exactly, and the append that follows starts from the same text
/// and the same next line number as an append invoked directly. Buffers
/// whose text ends in a newline are left out: for them the write-back
/// first drops that final terminator.
pub proof fn lemma_edit_past_end_is_append(buf: Seq<char>, start: nat, inputs: Seq<Seq<char>>)
    requires
        start >= line_seq(buf).len(),
        buf == join_with(line_seq(buf), '\n'),
    ensures
        walk_lines(line_seq(buf), start, inputs) == line_seq(buf),
        join_with(walk_lines(line_seq(buf), start, inputs), '\n') == buf,
{
}

/// End of input during an edit's walk loses nothing: however many lines the
/// walk had taken, the snapshot keeps every replacement made so far, keeps
/// every line the walk had not reached, and has as many lines as before —
/// so the write-back commits exactly the edits that were entered.
pub proof fn lemma_walk_commits(lines: Seq<Seq<char>>, start: nat, inputs: Seq<Seq<char>>)
    ensures
        walk_lines(lines, start, inputs).len() == lines.len(),
        forall|j: int|
            0 <= j < lines.len() && !(start <= j < start + inputs.len())
                ==> walk_lines(lines, start, inputs)[j] == lines[j],
        forall|j: int|
            start <= j < start + inputs.len() && j < lines.len()
                ==> walk_lines(lines, start, inputs)[j] == trim_spec(inputs[j - start]),
    decreases inputs.len(),
{
    if inputs.len() == 0 || start >= lines.len() {
    } else {
        let stepped = lines.update(start as int, trim_spec(inputs[0]));
        let rest = inputs.drop_first();
        lemma_walk_commits(stepped, start + 1, rest);
        assert(walk_lines(lines, start, inputs) == walk_lines(stepped, start + 1, rest));
        assert forall|j: int|
            0 <= j < lines.len() && !(start <= j < start + inputs.len()) implies walk_lines(
            lines,
            start,
            inputs,
        )[j] == lines[j] by {
            assert(walk_lines(stepped, start + 1, rest)[j] == stepped[j]);
            assert(stepped[j] == lines[j]);
        }
        assert forall|j: int|
            start <= j < start + inputs.len() && j < lines.len() implies walk_lines(
            lines,
            start,
            inputs,
        )[j] == trim_spec(inputs[j - start]) by {
            if j == start {
                assert(walk_lines(stepped, start + 1, rest)[j] == stepped[j]);
                assert(stepped[start as int] == trim_spec(inputs[0]));
            } else {
                assert(walk_lines(stepped, start + 1, rest)[j] == trim_spec(rest[j - start - 1]));
                assert(rest[j - start - 1] == inputs[j - start]);
            }
        }
    }
}

/// End of input during an append loses nothing either: the buffer holds
/// the initial text followed by every raw line that was entered, in order.
pub proof fn lemma_append_commits(buf: Seq<char>, inputs: Seq<Seq<char>>)
    ensures
        append_all(buf, inputs) == buf + inputs.flatten(),
    decreases inputs.len(),
{
    if inputs.len() == 0 {
        assert(buf + inputs.flatten() =~= buf);
    } else {
        lemma_append_commits(buf + inputs[0], inputs.drop_first());
        assert(buf + inputs[0] + inputs.drop_first().flatten() =~= buf + inputs.flatten());
    }
}

} // verus!
