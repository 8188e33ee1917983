//! Code common across frontends.

use vstd::prelude::*;
use crate::config::verify::{push_str, texts};
use crate::config::report::{decimal, decimal_text, join, joined};
use crate::archetype::Archetype;

verus! {

/// Appends `c` to `s` with `String::push`, whose documentation says it
/// appends the given char to the end of the `String`.
#[verifier::external_body]
fn push_char(s: &mut String, c: char)
    ensures
        final(s)@ == old(s)@.push(c),
{
    s.push(c)
}

/// The text with each space replaced by an underscore.
pub open spec fn underscored(text: Seq<char>) -> Seq<char> {
    text.map_values(|c: char| if c == ' ' { '_' } else { c })
}

/// Reformats the name of something so that a text preformatter can recognize
/// it and replace it with an emoji: between colons, each space an underscore.
pub fn emojify(txt: &str) -> (r: String)
    ensures
        r@ == ":"@ + underscored(txt@) + ":"@,
{
    broadcast use vstd::string::group_string_axioms;

    let mut s = ":".to_owned();
    let ghost start = s@;
    for c in it: txt.chars()
        invariant
            s@ == start + underscored(it.seq().take(it.index() as int)),
    {
        assert(it.seq().take(it.index() + 1) =~= it.seq().take(it.index() as int).push(c));
        if c == ' ' {
            push_char(&mut s, '_');
        } else {
            push_char(&mut s, c);
        }
        assert(underscored(it.seq().take(it.index() + 1)) =~= underscored(it.seq().take(it.index() as int)).push(
            if c == ' ' { '_' } else { c },
        ));
    }
    push_str(&mut s, ":");
    s
}


/// How a name is written for the emoji preformatter.
pub open spec fn emoji(name: Seq<char>) -> Seq<char> {
    ":"@ + underscored(name) + ":"@
}

/// The text of `n` of something named `name`: "a" for one, else the count in bold,
/// then its emoji and its name in italics.
pub open spec fn just_text_spec(n: nat, name: Seq<char>) -> Seq<char> {
    (if n == 1 {
        "a "@
    } else {
        "*"@ + decimal(n) + "* "@
    }) + emoji(name) + " _"@ + name + "_"@
}

/// The text of a recipe that makes `n` of the archetype named `name`.
pub fn just_text(n: usize, name: &str) -> (r: String)
    ensures
        r@ == just_text_spec(n as nat, name@),
{
    let mut s = if n == 1 {
        "a ".to_owned()
    } else {
        let mut t = "*".to_owned();
        let count = decimal_text(n);
        push_str(&mut t, count.as_str());
        push_str(&mut t, "* ");
        t
    };
    let e = emojify(name);
    push_str(&mut s, e.as_str());
    push_str(&mut s, " _");
    push_str(&mut s, name);
    push_str(&mut s, "_");
    s
}

/// The line of one row of a recipe that makes all of several things: the
/// emoji in bold, the name, then the count in italics.
pub open spec fn all_of_row_spec(count: nat, name: Seq<char>) -> Seq<char> {
    "*"@ + emoji(name) + "* "@ + name + " _"@ + decimal(count) + "_"@
}

/// The lines of the rows of a recipe that makes all of several things.
pub open spec fn all_of_lines(rows: Seq<(usize, &Archetype)>) -> Seq<Seq<char>> {
    rows.map_values(|p: (usize, &Archetype)| all_of_row_spec(p.0 as nat, p.1.name@))
}

/// The text of a recipe that makes all of the rows: a heading, then a line for
/// each row.
pub fn all_of_text(rows: &Vec<(usize, &Archetype)>) -> (r: String)
    ensures
        r@ == "all of the following:\n"@ + joined(all_of_lines(rows@), "\n"@),
{
    let mut lines: Vec<String> = Vec::new();
    let mut i: usize = 0;
    while i < rows.len()
        invariant
            i <= rows@.len(),
            texts(lines@) == all_of_lines(rows@.take(i as int)),
        decreases rows@.len() - i,
    {
        let (count, a) = rows[i];
        let mut line = "*".to_owned();
        let e = emojify(a.name.as_str());
        push_str(&mut line, e.as_str());
        push_str(&mut line, "* ");
        push_str(&mut line, a.name.as_str());
        push_str(&mut line, " _");
        let c = decimal_text(count);
        push_str(&mut line, c.as_str());
        push_str(&mut line, "_");
        let ghost before = lines@;
        lines.push(line);
        assert(texts(lines@) =~= texts(before).push(all_of_row_spec(count as nat, a.name@)));
        assert(all_of_lines(rows@.take(i + 1)) =~= all_of_lines(rows@.take(i as int)).push(
            all_of_row_spec(count as nat, a.name@),
        ));
        i = i + 1;
    }
    assert(rows@.take(i as int) =~= rows@);
    let body = join(&lines, "\n");
    let mut s = "all of the following:\n".to_owned();
    push_str(&mut s, body.as_str());
    s
}

} // verus!
