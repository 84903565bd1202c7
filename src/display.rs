//! The text shown to the user: pairs as shell assignments, the environment
//! listing, and the reading of a confirmation answer.
use vstd::prelude::*;
use vstd::string::*;
use crate::entries::strings_view;

verus! {

/// `key="value"`.
pub open spec fn kv_text(key: Seq<char>, value: Seq<char>) -> Seq<char> {
    key + "=\""@ + value + "\""@
}

/// `command key="value"`, as in `alias` or `export` lines.
pub open spec fn command_text(command: Seq<char>, key: Seq<char>, value: Seq<char>) -> Seq<char> {
    command + " "@ + kv_text(key, value)
}

/// The listing line of environment `e`, marked when it is `current`.
pub open spec fn environment_text(e: Seq<char>, current: Seq<char>) -> Seq<char> {
    "- "@ + e + if e == current {
        " <- Currently loaded"@
    } else {
        Seq::empty()
    }
}

/// An answer that accepts a confirmation prompt.
pub open spec fn accepts(answer: Seq<char>) -> bool {
    answer == "y"@ || answer == "yes"@
}

/// `s` without leading and trailing white space.
pub uninterp spec fn trimmed(s: Seq<char>) -> Seq<char>;

/// `s` in lower case.
pub uninterp spec fn lowercased(s: Seq<char>) -> Seq<char>;

/// Relies on str::trim: drops leading and trailing Unicode white space.
#[verifier::external_body]
fn trim(s: &str) -> (r: &str)
    ensures
        r@ == trimmed(s@),
{
    s.trim()
}

/// Relies on str::to_lowercase: the lower-case form of the text, which depends
/// on the text alone.
#[verifier::external_body]
fn lowercase(s: &str) -> (r: String)
    ensures
        r@ == lowercased(s@),
{
    s.to_lowercase()
}

/// A pair as a shell assignment.
pub fn kv_line(key: &String, value: &String) -> (r: String)
    ensures
        r@ == kv_text(key@, value@),
{
    let mut s = key.clone();
    s.append("=\"");
    s.append(value.as_str());
    s.append("\"");
    proof {
        assert(s@ =~= kv_text(key@, value@));
    }
    s
}

/// A pair as a shell assignment after a leading command word.
pub fn command_line(command: &str, key: &String, value: &String) -> (r: String)
    ensures
        r@ == command_text(command@, key@, value@),
{
    let mut s = String::from_str(command);
    s.append(" ");
    let kv = kv_line(key, value);
    s.append(kv.as_str());
    proof {
        assert(s@ =~= command_text(command@, key@, value@));
    }
    s
}

/// One listing line per environment, in order, the current one marked.
pub fn environment_lines(envs: &Vec<String>, current: &String) -> (r: Vec<String>)
    ensures
        strings_view(r@) == strings_view(envs@).map_values(
            |e: Seq<char>| environment_text(e, current@),
        ),
{
    let mut out: Vec<String> = Vec::new();
    let mut i: usize = 0;
    while i < envs.len()
        invariant
            i <= envs.len(),
            strings_view(out@) == strings_view(envs@).take(i as int).map_values(
                |e: Seq<char>| environment_text(e, current@),
            ),
        decreases envs.len() - i,
    {
        let ghost before = out@;
        let mut line = String::from_str("- ");
        line.append(envs[i].as_str());
        if envs[i] == *current {
            line.append(" <- Currently loaded");
        }
        proof {
            assert(line@ =~= environment_text(envs[i as int]@, current@));
        }
        out.push(line);
        proof {
            assert(strings_view(out@) =~= strings_view(before).push(line@));
            assert(strings_view(out@) =~= strings_view(envs@).take(i + 1).map_values(
                |e: Seq<char>| environment_text(e, current@),
            ));
        }
        i = i + 1;
    }
    proof {
        assert(strings_view(envs@).take(i as int) =~= strings_view(envs@));
    }
    out
}

/// Whether an answer, already trimmed and in lower case, accepts.
pub fn is_acceptance(answer: &str) -> (r: bool)
    ensures
        r == accepts(answer@),
{
    proof {
        reveal_strlit("y");
        reveal_strlit("yes");
    }
    let n = answer.unicode_len();
    let r = if n == 1 {
        answer.get_char(0) == 'y'
    } else if n == 3 {
        answer.get_char(0) == 'y' && answer.get_char(1) == 'e' && answer.get_char(2) == 's'
    } else {
        false
    };
    proof {
        if r && n == 1 {
            assert(answer@ =~= "y"@);
        }
        if r && n == 3 {
            assert(answer@ =~= "yes"@);
        }
        if answer@ == "y"@ {
            assert(answer@[0] == 'y');
        }
        if answer@ == "yes"@ {
            assert(answer@[0] == 'y' && answer@[1] == 'e' && answer@[2] == 's');
        }
    }
    r
}

/// Whether a line typed at a confirmation prompt accepts, ignoring case and
/// surrounding white space.
pub fn confirms(line: &str) -> (r: bool)
    ensures
        r == accepts(lowercased(trimmed(line@))),
{
    let answer = lowercase(trim(line));
    is_acceptance(answer.as_str())
}

} // verus!
