//! The form of diagnostic lines.
use vstd::prelude::*;
use vstd::string::StringExecFns;

verus! {

/// What every diagnostic line begins with.
pub open spec fn diag_prefix() -> Seq<char> {
    "[diag] "@
}

/// A diagnostic line: the prefix, the time stamp and the message.
pub fn diag_line(stamp: &str, msg: &str) -> (line: String)
    ensures
        line@ == diag_prefix() + stamp@ + " "@ + msg@,
{
    let mut line = "[diag] ".to_owned();
    line.append(stamp);
    line.append(" ");
    line.append(msg);
    line
}

/// No diagnostic line is taken for a report of an error, whatever it says: none
/// begins with the words that those begin with.
pub proof fn law_diag_line_is_no_error(line: Seq<char>, rest: Seq<char>)
    requires
        line == diag_prefix() + rest,
    ensures
        !("Parsing error:"@.is_prefix_of(line)),
        !("Error:"@.is_prefix_of(line)),
        !("error:"@.is_prefix_of(line)),
{
    reveal_strlit("[diag] ");
    reveal_strlit("Parsing error:");
    reveal_strlit("Error:");
    reveal_strlit("error:");
    assert(line[0] == '[');
    if "Parsing error:"@.is_prefix_of(line) {
        assert("Parsing error:"@[0] == line[0]);
    }
    if "Error:"@.is_prefix_of(line) {
        assert("Error:"@[0] == line[0]);
    }
    if "error:"@.is_prefix_of(line) {
        assert("error:"@[0] == line[0]);
    }
}

} // verus!
