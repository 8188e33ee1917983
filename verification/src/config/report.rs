//! The texts that explain an error found while checking a configuration.
//! Close matches for an unknown name are looked up by the caller and handed
//! in as suggestions.

use vstd::prelude::*;
use crate::config::verify::{concat, push_str, texts, Problem, VerifError, VerifErrorKind};

verus! {

/// The text of one decimal digit.
pub open spec fn digit_text(d: nat) -> Seq<char> {
    if d == 0 {
        "0"@
    } else if d == 1 {
        "1"@
    } else if d == 2 {
        "2"@
    } else if d == 3 {
        "3"@
    } else if d == 4 {
        "4"@
    } else if d == 5 {
        "5"@
    } else if d == 6 {
        "6"@
    } else if d == 7 {
        "7"@
    } else if d == 8 {
        "8"@
    } else {
        "9"@
    }
}

/// `n` in decimal, most significant digit first, with no leading zero.
pub open spec fn decimal(n: nat) -> Seq<char>
    decreases n,
{
    if n < 10 {
        digit_text(n)
    } else {
        decimal(n / 10) + digit_text(n % 10)
    }
}

fn digit(d: usize) -> (r: &'static str)
    requires
        d < 10,
    ensures
        r@ == digit_text(d as nat),
{
    match d {
        0 => "0",
        1 => "1",
        2 => "2",
        3 => "3",
        4 => "4",
        5 => "5",
        6 => "6",
        7 => "7",
        8 => "8",
        _ => "9",
    }
}

/// `n` written in decimal.
pub fn decimal_text(n: usize) -> (r: String)
    ensures
        r@ == decimal(n as nat),
    decreases n,
{
    if n < 10 {
        digit(n).to_owned()
    } else {
        let mut s = decimal_text(n / 10);
        push_str(&mut s, digit(n % 10));
        s
    }
}

/// The parts, with `sep` between each two of them.
pub open spec fn joined(parts: Seq<Seq<char>>, sep: Seq<char>) -> Seq<char>
    decreases parts.len(),
{
    if parts.len() == 0 {
        Seq::empty()
    } else if parts.len() == 1 {
        parts[0]
    } else {
        joined(parts.drop_last(), sep) + sep + parts.last()
    }
}

/// The parts, with `sep` between each two of them.
pub fn join(parts: &Vec<String>, sep: &str) -> (r: String)
    ensures
        r@ == joined(texts(parts@), sep@),
{
    let ghost all = texts(parts@);
    let mut s = String::new();
    let mut i: usize = 0;
    while i < parts.len()
        invariant
            all == texts(parts@),
            i <= parts@.len(),
            s@ == joined(all.subrange(0, i as int), sep@),
        decreases parts@.len() - i,
    {
        if i > 0 {
            push_str(&mut s, sep);
        }
        push_str(&mut s, parts[i].as_str());
        assert(all.subrange(0, i + 1).drop_last() =~= all.subrange(0, i as int));
        i = i + 1;
    }
    assert(all.subrange(0, parts@.len() as int) =~= all);
    s
}

/// What an error of this kind says, with these close matches for an unknown name.
pub open spec fn kind_message(p: Problem, suggestions: Seq<Seq<char>>) -> Seq<char> {
    let perhaps = ". Perhaps you meant "@ + joined(suggestions, ", or "@) + "?"@;
    match p {
        Problem::UnknownItem(i) => "referenced item "@ + i + ", but no item with this name could be found"@
            + perhaps,
        Problem::UnknownPlantSkill(pc, s) => "referenced skill "@ + s + " on plant conf "@ + decimal(
            pc.0 as nat,
        ) + ", but no skill with this name on this plant could be found"@ + perhaps,
        Problem::UnknownPlant(n) => "referenced plant "@ + n + ", but no plant with this name could be found"@
            + perhaps,
        Problem::Custom(s) => s,
    }
}

/// The notes of an error, outermost first, each on a line of its own after "> ".
pub open spec fn note_lines(notes: Seq<Seq<char>>) -> Seq<Seq<char>> {
    Seq::new(notes.len(), |i: int| "> "@ + notes[notes.len() - 1 - i])
}

/// What an error says: where it was found, outermost place first, then what went wrong.
pub open spec fn error_message(e: (Problem, Seq<Seq<char>>), suggestions: Seq<Seq<char>>) -> Seq<char> {
    "I ran into trouble verifying your config \n"@ + joined(note_lines(e.1), "\n"@) + "\nas "@
        + kind_message(e.0, suggestions)
}

impl VerifErrorKind {
    /// What this kind of error says, with these close matches for an unknown name.
    pub fn text(&self, suggestions: &Vec<String>) -> (r: String)
        ensures
            r@ == kind_message(self@, texts(suggestions@)),
    {
        let mut s = match self {
            VerifErrorKind::UnknownItem(i) => {
                let mut s = concat("referenced item ", i.as_str());
                push_str(&mut s, ", but no item with this name could be found");
                s
            },
            VerifErrorKind::UnknownPlantSkill(pc, sk) => {
                let mut s = concat("referenced skill ", sk.as_str());
                push_str(&mut s, " on plant conf ");
                let n = decimal_text(pc.0);
                push_str(&mut s, n.as_str());
                push_str(&mut s, ", but no skill with this name on this plant could be found");
                s
            },
            VerifErrorKind::UnknownPlant(p) => {
                let mut s = concat("referenced plant ", p.as_str());
                push_str(&mut s, ", but no plant with this name could be found");
                s
            },
            VerifErrorKind::Custom(c) => {
                return c.clone();
            },
        };
        push_str(&mut s, ". Perhaps you meant ");
        let options = join(suggestions, ", or ");
        push_str(&mut s, options.as_str());
        push_str(&mut s, "?");
        s
    }
}

impl VerifError {
    /// What this error says: where it was found, outermost place first, then
    /// what went wrong, with these close matches for an unknown name.
    pub fn text(&self, suggestions: &Vec<String>) -> (r: String)
        ensures
            r@ == error_message(self@, texts(suggestions@)),
    {
        let n = self.source.len();
        let mut lines: Vec<String> = Vec::new();
        let mut i: usize = 0;
        while i < n
            invariant
                n == self.source@.len(),
                i <= n,
                lines@.len() == i,
                forall|j: int| 0 <= j < i ==> (#[trigger] lines@[j])@ == note_lines(self@.1)[j],
            decreases n - i,
        {
            lines.push(concat("> ", self.source[n - 1 - i].as_str()));
            i = i + 1;
        }
        assert(texts(lines@) =~= note_lines(self@.1));
        let mut s = concat("I ran into trouble verifying your config \n", join(&lines, "\n").as_str());
        push_str(&mut s, "\nas ");
        let kind = self.kind.text(suggestions);
        push_str(&mut s, kind.as_str());
        s
    }
}

} // verus!
