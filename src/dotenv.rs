use vstd::prelude::*;

use crate::merge::MergedVariableSet;
use crate::text::{push_char, push_text};

verus! {

/// `v` with each line break replaced by the two characters `\` and `n`.
pub open spec fn escape_breaks(v: Seq<char>) -> Seq<char>
    decreases v.len(),
{
    if v.len() == 0 {
        Seq::empty()
    } else if v.last() == '\n' {
        escape_breaks(v.drop_last()) + seq!['\\', 'n']
    } else {
        escape_breaks(v.drop_last()).push(v.last())
    }
}

/// The dotenv line of one variable, with its line break: `NAME=value`, or
/// `NAME="value"` with line breaks escaped where the value holds any.
pub open spec fn dotenv_line(name: Seq<char>, value: Seq<char>) -> Seq<char> {
    if value.contains('\n') {
        name + seq!['=', '"'] + escape_breaks(value) + seq!['"', '\n']
    } else {
        name + seq!['='] + value + seq!['\n']
    }
}

/// The dotenv text of the entries, one line each, in order.
pub open spec fn dotenv_text(entries: Seq<(Seq<char>, Seq<char>)>) -> Seq<char>
    decreases entries.len(),
{
    if entries.len() == 0 {
        Seq::empty()
    } else {
        dotenv_text(entries.drop_last()) + dotenv_line(entries.last().0, entries.last().1)
    }
}

/// Whether `v` holds a line break.
pub fn has_line_break(v: &str) -> (r: bool)
    ensures
        r == v@.contains('\n'),
{
    let mut found = false;
    for c in it: v.chars()
        invariant
            it.seq() == v@,
            found == v@.subrange(0, it.index() as int).contains('\n'),
    {
        let ghost done = v@.subrange(0, it.index() as int);
        let ghost next = v@.subrange(0, it.index() + 1);
        assert(next =~= done.push(c));
        proof {
            if c == '\n' {
                assert(next[done.len() as int] == '\n');
            } else if found {
                let k = choose|k: int| 0 <= k < done.len() && done[k] == '\n';
                assert(next[k] == '\n');
            } else {
                assert forall|k: int| 0 <= k < next.len() implies next[k] != '\n' by {
                    if k < done.len() {
                        assert(next[k] == done[k]);
                    }
                }
            }
        }
        found = found || c == '\n';
    }
    assert(v@.subrange(0, v@.len() as int) =~= v@);
    found
}

/// Appends `v` to `s` with each line break written as `\n`.
fn push_escaped(s: &mut String, v: &str)
    ensures
        final(s)@ == old(s)@ + escape_breaks(v@),
{
    let ghost start = s@;
    assert(v@.subrange(0, 0) =~= Seq::<char>::empty());
    assert(start =~= start + escape_breaks(v@.subrange(0, 0)));
    for c in it: v.chars()
        invariant
            it.seq() == v@,
            s@ == start + escape_breaks(v@.subrange(0, it.index() as int)),
    {
        let ghost done = v@.subrange(0, it.index() as int);
        let ghost next = v@.subrange(0, it.index() + 1);
        assert(next.drop_last() =~= done);
        assert(next.last() == c);
        if c == '\n' {
            push_char(s, '\\');
            push_char(s, 'n');
        } else {
            push_char(s, c);
        }
        assert(s@ =~= start + escape_breaks(next));
    }
    assert(v@.subrange(0, v@.len() as int) =~= v@);
}

/// Appends the dotenv line of one variable to `s`.
pub fn push_dotenv_line(s: &mut String, name: &str, value: &str)
    ensures
        final(s)@ == old(s)@ + dotenv_line(name@, value@),
{
    push_text(s, name);
    if has_line_break(value) {
        push_char(s, '=');
        push_char(s, '"');
        push_escaped(s, value);
        push_char(s, '"');
        push_char(s, '\n');
    } else {
        push_char(s, '=');
        push_text(s, value);
        push_char(s, '\n');
    }
    assert(s@ =~= old(s)@ + dotenv_line(name@, value@));
}

/// The dotenv text of a set of variables: one line per variable, in the
/// order of the set.
pub fn render_dotenv(vars: &MergedVariableSet) -> (r: String)
    ensures
        r@ == dotenv_text(vars.entries()),
{
    let mut s = String::new();
    let n = vars.len();
    assert(vars.entries().subrange(0, 0) =~= Seq::<(Seq<char>, Seq<char>)>::empty());
    for i in 0..n
        invariant
            n == vars.entries().len(),
            s@ == dotenv_text(vars.entries().subrange(0, i as int)),
    {
        let ghost next = vars.entries().subrange(0, i + 1);
        assert(next.drop_last() =~= vars.entries().subrange(0, i as int));
        push_dotenv_line(&mut s, vars.name_at(i).as_str(), vars.value_at(i).as_str());
    }
    assert(vars.entries().subrange(0, n as int) =~= vars.entries());
    s
}

} // verus!
