//! The command line shown in reports.

use vstd::prelude::*;
use crate::text::push_char;
use crate::text::push_str;
use crate::text::string_views;

verus! {

/// Words joined with single spaces.
pub open spec fn join_words(words: Seq<Seq<char>>) -> Seq<char>
    decreases words.len(),
{
    if words.len() == 0 {
        seq![]
    } else if words.len() == 1 {
        words[0]
    } else {
        join_words(words.drop_last()) + seq![' '] + words.last()
    }
}

/// The command line of a profiled command: its words joined by spaces.
pub fn command_line(parts: &[String]) -> (s: String)
    ensures
        s@ == join_words(parts@.map_values(|p: String| p@)),
{
    let ghost ws = parts@.map_values(|p: String| p@);
    let mut s = String::new();
    let mut i: usize = 0;
    while i < parts.len()
        invariant
            0 <= i <= parts@.len(),
            ws == parts@.map_values(|p: String| p@),
            s@ == join_words(ws.take(i as int)),
        decreases parts@.len() - i,
    {
        let ghost before = s@;
        if i > 0 {
            push_char(&mut s, ' ');
        }
        push_str(&mut s, parts[i].as_str());
        assert(ws.take(i + 1).drop_last() =~= ws.take(i as int));
        assert(ws.take(i + 1).last() == parts@[i as int]@);
        if i == 0 {
            assert(s@ =~= join_words(ws.take(i + 1)));
        } else {
            assert(s@ =~= join_words(ws.take(i + 1)));
        }
        i += 1;
    }
    assert(ws.take(parts@.len() as int) =~= ws);
    s
}


/// The command that runs `command` under a profiling wrapper: the same
/// interpreter, the wrapper script, then the arguments of the command.
pub fn profiling_command(command: &[String], wrapper_path: &str) -> (v: Vec<String>)
    requires
        command@.len() >= 1,
    ensures
        string_views(v@) == seq![command@[0]@, wrapper_path@] + string_views(command@).skip(1),
{
    let mut v: Vec<String> = Vec::new();
    v.push(command[0].clone());
    v.push(String::from_str(wrapper_path));
    let mut i: usize = 1;
    while i < command.len()
        invariant
            1 <= i <= command@.len(),
            string_views(v@) == seq![command@[0]@, wrapper_path@] + string_views(command@).subrange(1, i as int),
        decreases command@.len() - i,
    {
        let ghost before = string_views(v@);
        v.push(command[i].clone());
        assert(string_views(v@) =~= before.push(command@[i as int]@));
        assert(string_views(command@).subrange(1, i + 1) =~= string_views(command@).subrange(1, i as int).push(command@[i as int]@));
        i += 1;
    }
    assert(string_views(command@).subrange(1, command@.len() as int) =~= string_views(command@).skip(1));
    v
}

} // verus!
