//! The console command language: tokenizing an input line and choosing the
//! operation it names.

use vstd::prelude::*;
use crate::text::{deep, is_space, lemma_deep_push, space_char};

verus! {

/// The whitespace-separated tokens of `s`, in order, each non-empty.
pub open spec fn tokens_of(s: Seq<char>) -> Seq<Seq<char>>
    decreases s.len(),
{
    if s.len() == 0 {
        Seq::<Seq<char>>::empty()
    } else {
        let t = tokens_of(s.drop_last());
        let c = s.last();
        if is_space(c) {
            t
        } else if s.len() >= 2 && !is_space(s[s.len() - 2]) {
            t.update(t.len() - 1, t.last().push(c))
        } else {
            t.push(seq![c])
        }
    }
}

/// The tokens of `v`, matching [`tokens_of`] of its view.
pub fn tokenize(v: &Vec<char>) -> (r: Vec<Vec<char>>)
    ensures
        deep(r@) == tokens_of(v@),
{
    let mut done: Vec<Vec<char>> = Vec::new();
    let mut cur: Vec<char> = Vec::new();
    proof {
        assert(deep(done@) =~= tokens_of(v@.take(0)));
    }
    let mut i: usize = 0;
    while i < v.len()
        invariant
            i <= v.len(),
            i > 0 && !is_space(v@[i - 1]) ==> cur@.len() > 0 && deep(done@).push(cur@)
                == tokens_of(v@.take(i as int)),
            !(i > 0 && !is_space(v@[i - 1])) ==> cur@.len() == 0 && deep(done@) == tokens_of(
                v@.take(i as int),
            ),
        decreases v.len() - i,
    {
        let ghost d0 = done@;
        proof {
            assert(v@.take(i as int + 1).drop_last() =~= v@.take(i as int));
            assert(v@.take(i as int + 1).last() == v@[i as int]);
            if i > 0 {
                assert(v@.take(i as int + 1)[i as int - 1] == v@[i as int - 1]);
            }
        }
        let c = v[i];
        if space_char(c) {
            if cur.len() > 0 {
                done.push(cur);
                cur = Vec::new();
                proof {
                    lemma_deep_push(d0, done@.last());
                }
            }
        } else {
            cur.push(c);
            proof {
                if i > 0 && !is_space(v@[i as int - 1]) {
                    let t = tokens_of(v@.take(i as int));
                    assert(deep(done@).push(cur@) =~= t.update(t.len() - 1, t.last().push(
                        v@[i as int],
                    )));
                } else {
                    assert(cur@ =~= seq![v@[i as int]]);
                }
            }
        }
        i = i + 1;
    }
    proof {
        assert(v@.take(v@.len() as int) =~= v@);
    }
    if cur.len() > 0 {
        let ghost d1 = done@;
        done.push(cur);
        proof {
            lemma_deep_push(d1, done@.last());
        }
    }
    done
}

/// A console command, as the dispatcher classifies one input line.
///
/// An all-whitespace line is `Empty` and is passed over in silence; a line
/// whose letter is unknown, or whose letter was given an argument it does
/// not take, or refused one it demands, is `Invalid`.
#[derive(Debug, PartialEq, Eq)]
pub enum Command {
    Empty,
    Quit,
    Help,
    Open(Vec<char>),
    Save(Option<Vec<char>>),
    Append,
    List(Option<Vec<char>>),
    Edit(Vec<char>),
    New,
    Invalid,
}

/// The mathematical image of a [`Command`].
pub enum SpecCommand {
    Empty,
    Quit,
    Help,
    Open(Seq<char>),
    Save(Option<Seq<char>>),
    Append,
    List(Option<Seq<char>>),
    Edit(Seq<char>),
    New,
    Invalid,
}

impl View for Command {
    type V = SpecCommand;

    open spec fn view(&self) -> SpecCommand {
        match self {
            Command::Empty => SpecCommand::Empty,
            Command::Quit => SpecCommand::Quit,
            Command::Help => SpecCommand::Help,
            Command::Open(p) => SpecCommand::Open(p@),
            Command::Save(o) => SpecCommand::Save(
                match o {
                    Some(p) => Some(p@),
                    None => None,
                },
            ),
            Command::Append => SpecCommand::Append,
            Command::List(o) => SpecCommand::List(
                match o {
                    Some(p) => Some(p@),
                    None => None,
                },
            ),
            Command::Edit(p) => SpecCommand::Edit(p@),
            Command::New => SpecCommand::New,
            Command::Invalid => SpecCommand::Invalid,
        }
    }
}

/// The command named by the input line `s`: the first token picks the
/// operation, the second is its argument, later tokens are passed over.
pub open spec fn spec_command(s: Seq<char>) -> SpecCommand {
    let t = tokens_of(s);
    if t.len() == 0 {
        SpecCommand::Empty
    } else {
        let head = t[0];
        let has_arg = t.len() >= 2;
        if head == seq!['Q'] && !has_arg {
            SpecCommand::Quit
        } else if head == seq!['H'] && !has_arg {
            SpecCommand::Help
        } else if head == seq!['O'] && has_arg {
            SpecCommand::Open(t[1])
        } else if head == seq!['S'] {
            SpecCommand::Save(
                if has_arg {
                    Some(t[1])
                } else {
                    None
                },
            )
        } else if head == seq!['A'] && !has_arg {
            SpecCommand::Append
        } else if head == seq!['L'] {
            SpecCommand::List(
                if has_arg {
                    Some(t[1])
                } else {
                    None
                },
            )
        } else if head == seq!['E'] && has_arg {
            SpecCommand::Edit(t[1])
        } else if head == seq!['C'] && !has_arg {
            SpecCommand::New
        } else {
            SpecCommand::Invalid
        }
    }
}

/// Classifies the input line `line`, matching [`spec_command`].
pub fn parse_command(line: &Vec<char>) -> (r: Command)
    ensures
        r@ == spec_command(line@),
{
    let toks = tokenize(line);
    let ghost t = tokens_of(line@);
    if toks.len() == 0 {
        return Command::Empty;
    }
    let has_arg = toks.len() >= 2;
    let single = toks[0].len() == 1;
    proof {
        assert(t[0] == toks@[0]@);
        if has_arg {
            assert(t[1] == toks@[1]@);
        }
    }
    if single {
        let c = toks[0][0];
        proof {
            assert(t[0] =~= seq![c]);
        }
        if c == 'Q' && !has_arg {
            return Command::Quit;
        }
        if c == 'H' && !has_arg {
            return Command::Help;
        }
        if c == 'O' && has_arg {
            return Command::Open(crate::text::copy_chars(&toks[1]));
        }
        if c == 'S' {
            return Command::Save(
                if has_arg {
                    Some(crate::text::copy_chars(&toks[1]))
                } else {
                    None
                },
            );
        }
        if c == 'A' && !has_arg {
            return Command::Append;
        }
        if c == 'L' {
            return Command::List(
                if has_arg {
                    Some(crate::text::copy_chars(&toks[1]))
                } else {
                    None
                },
            );
        }
        if c == 'E' && has_arg {
            return Command::Edit(crate::text::copy_chars(&toks[1]));
        }
        if c == 'C' && !has_arg {
            return Command::New;
        }
        return Command::Invalid;
    }
    proof {
        assert(t[0] != seq!['Q']);
        assert(t[0] != seq!['H']);
        assert(t[0] != seq!['O']);
        assert(t[0] != seq!['S']);
        assert(t[0] != seq!['A']);
        assert(t[0] != seq!['L']);
        assert(t[0] != seq!['E']);
        assert(t[0] != seq!['C']);
    }
    Command::Invalid
}

} // verus!
