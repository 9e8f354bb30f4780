//! External diff tool: which tool runs, and the argv it gets.
//!
//! Writing the LEFT/RIGHT temp files is file I/O and lives in the binary.

use vstd::prelude::*;

use crate::editor::{editor_program, parse_argv_spec, parse_editor_argv};
use crate::text::{
    has_substr, replace_all, replace_chars, str_chars, str_contains, string_from_chars,
    string_views, trim, trim_str,
};

verus! {

/// Config `diffTool` trimmed, or `vimdiff` when omitted / blank.
pub open spec fn resolve_diff_tool_spec(config: Option<Seq<char>>) -> Seq<char> {
    match config {
        Some(raw) => if trim(raw).len() > 0 {
            trim(raw)
        } else {
            "vimdiff"@
        },
        None => "vimdiff"@,
    }
}

/// Config `diffTool`, or `vimdiff` when omitted / blank.
pub fn resolve_diff_tool(config: Option<&str>) -> (r: String)
    ensures
        r@ == resolve_diff_tool_spec(match config {
            Some(t) => Some(t@),
            None => None,
        }),
{
    if let Some(raw) = config {
        let t = trim_str(raw);
        if !t.as_str().is_empty() {
            return t;
        }
    }
    crate::text::owned("vimdiff")
}

/// The `$LOCAL` placeholder (LEFT path).
pub open spec fn local_mark() -> Seq<char> {
    seq!['$', 'L', 'O', 'C', 'A', 'L']
}

/// The `$REMOTE` placeholder (RIGHT path).
pub open spec fn remote_mark() -> Seq<char> {
    seq!['$', 'R', 'E', 'M', 'O', 'T', 'E']
}

/// True when `t` names either placeholder.
pub open spec fn names_placeholder(t: Seq<char>) -> bool {
    has_substr(t, local_mark()) || has_substr(t, remote_mark())
}

/// `$LOCAL` then `$REMOTE` substituted in one token.
pub open spec fn substitute(t: Seq<char>, left: Seq<char>, right: Seq<char>) -> Seq<char> {
    replace_all(replace_all(t, local_mark(), left), remote_mark(), right)
}

/// Argv after the program for a parsed tool string.
pub open spec fn tool_rest(tool: Seq<char>) -> Seq<Seq<char>> {
    let argv = parse_argv_spec(tool);
    if argv.len() > 0 {
        argv.skip(1)
    } else {
        Seq::empty()
    }
}

/// Program and argv of an external diff of `left` vs `right`.
pub open spec fn diff_tool_command_spec(tool: Seq<char>, left: Seq<char>, right: Seq<char>) -> (
    Seq<char>,
    Seq<Seq<char>>,
) {
    let command = editor_program(tool);
    let rest = tool_rest(tool);
    let any = names_placeholder(command) || exists|i: int|
        0 <= i < rest.len() && #[trigger] names_placeholder(rest[i]);
    if any {
        (substitute(command, left, right), rest.map_values(|t: Seq<char>| substitute(t, left, right)))
    } else {
        (command, rest.push(left).push(right))
    }
}

fn placeholder_in(t: &str) -> (b: bool)
    ensures
        b == names_placeholder(t@),
{
    let l = "$LOCAL";
    let r = "$REMOTE";
    proof {
        reveal_strlit("$LOCAL");
        reveal_strlit("$REMOTE");
        assert(l@ =~= local_mark());
        assert(r@ =~= remote_mark());
    }
    str_contains(t, l) || str_contains(t, r)
}

fn substitute_exec(t: &str, left: &str, right: &str) -> (s: String)
    ensures
        s@ == substitute(t@, left@, right@),
{
    let lm = vec!['$', 'L', 'O', 'C', 'A', 'L'];
    let rm = vec!['$', 'R', 'E', 'M', 'O', 'T', 'E'];
    assert(lm@ =~= local_mark());
    assert(rm@ =~= remote_mark());
    let tc = str_chars(t);
    let lc = str_chars(left);
    let rc = str_chars(right);
    let once = replace_chars(tc.as_slice(), lm.as_slice(), lc.as_slice());
    let twice = replace_chars(once.as_slice(), rm.as_slice(), rc.as_slice());
    string_from_chars(twice.as_slice())
}

/// Build `(command, args)` for an external diff of `left` vs `right`.
///
/// `$LOCAL` (LEFT) and `$REMOTE` (RIGHT) are substituted in any argv token,
/// also inside a token such as `--left=$LOCAL`. When neither placeholder
/// appears anywhere, LEFT then RIGHT are appended after the existing flags.
pub fn diff_tool_command(tool: &str, left: &str, right: &str) -> (r: (String, Vec<String>))
    ensures
        r.0@ == diff_tool_command_spec(tool@, left@, right@).0,
        string_views(r.1@) == diff_tool_command_spec(tool@, left@, right@).1,
{
    let argv = parse_editor_argv(tool);
    let command = if argv.len() > 0 {
        argv[0].clone()
    } else {
        crate::text::owned(tool)
    };
    let ghost rest = tool_rest(tool@);
    let mut any = placeholder_in(command.as_str());
    let mut i: usize = 1;
    while i < argv.len()
        invariant
            string_views(argv@) == parse_argv_spec(tool@),
            argv.len() > 0 ==> rest == string_views(argv@).skip(1),
            1 <= i,
            i <= argv.len() || (argv.len() == 0 && i == 1),
            any == (names_placeholder(command@) || exists|j: int|
                0 <= j < i - 1 && #[trigger] names_placeholder(rest[j])),
        decreases argv.len() - i,
    {
        let hit = placeholder_in(argv[i].as_str());
        proof {
            assert(rest[i - 1] == argv@[i as int]@);
            if hit {
                assert(names_placeholder(rest[i - 1]));
            }
        }
        any = any || hit;
        i += 1;
    }
    proof {
        if argv.len() == 0 {
            assert(rest =~= Seq::<Seq<char>>::empty());
        } else {
            assert(string_views(argv@).len() == argv@.len());
            assert(i == argv.len());
        }
        assert(rest.len() == i - 1);
    }
    let mut args: Vec<String> = Vec::new();
    let mut k: usize = 1;
    while k < argv.len()
        invariant
            string_views(argv@) == parse_argv_spec(tool@),
            argv.len() > 0 ==> rest == string_views(argv@).skip(1),
            argv.len() == 0 ==> rest.len() == 0,
            1 <= k,
            k <= argv.len() || (argv.len() == 0 && k == 1),
            args@.len() + 1 == k,
            forall|j: int| 0 <= j < args@.len() ==> (#[trigger] args@[j])@ == (if any {
                substitute(rest[j], left@, right@)
            } else {
                rest[j]
            }),
        decreases argv.len() - k,
    {
        let t = if any {
            substitute_exec(argv[k].as_str(), left, right)
        } else {
            argv[k].clone()
        };
        args.push(t);
        k += 1;
    }
    proof {
        assert(rest.len() == args@.len());
    }
    if any {
        let c = substitute_exec(command.as_str(), left, right);
        proof {
            let m = rest.map_values(|t: Seq<char>| substitute(t, left@, right@));
            assert forall|j: int| 0 <= j < rest.len() implies string_views(args@)[j] == m[j] by {
                assert(args@[j]@ == substitute(rest[j], left@, right@));
            }
            assert(string_views(args@) =~= m);
        }
        (c, args)
    } else {
        let ghost before = string_views(args@);
        assert forall|j: int| 0 <= j < rest.len() implies before[j] == rest[j] by {
            assert(args@[j]@ == rest[j]);
        }
        assert(before =~= rest);
        args.push(crate::text::owned(left));
        args.push(crate::text::owned(right));
        assert(string_views(args@) =~= rest.push(left@).push(right@));
        (command, args)
    }
}

} // verus!
