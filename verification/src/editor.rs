//! Resolve `$EDITOR` / config.editor and build the spawn argv.

use vstd::prelude::*;

use crate::path::{file_name_or, file_name_or_self};
use crate::text::{
    char_is_whitespace, decimal, is_ws, push_decimal, push_str, str_chars, str_eq,
    string_from_chars, string_views, strings_from_runs, trim, trim_str, views,
};

verus! {

/// Tokenizer state of [`parse_editor_argv`].
pub struct ArgvState {
    pub tokens: Seq<Seq<char>>,
    pub current: Seq<char>,
    pub quote: Option<char>,
}

/// One char of an editor string: quotes group, white space splits.
pub open spec fn argv_step(st: ArgvState, ch: char) -> ArgvState {
    match st.quote {
        Some(q) => if ch == q {
            ArgvState { quote: None, ..st }
        } else {
            ArgvState { current: st.current.push(ch), ..st }
        },
        None => if ch == '"' || ch == '\'' {
            ArgvState { quote: Some(ch), ..st }
        } else if is_ws(ch) {
            if st.current.len() > 0 {
                ArgvState { tokens: st.tokens.push(st.current), current: Seq::empty(), ..st }
            } else {
                st
            }
        } else {
            ArgvState { current: st.current.push(ch), ..st }
        },
    }
}

/// Tokenizer state after the first `i` chars.
pub open spec fn argv_prefix(s: Seq<char>, i: nat) -> ArgvState
    decreases i,
{
    if i == 0 || i > s.len() {
        ArgvState { tokens: Seq::empty(), current: Seq::empty(), quote: None }
    } else {
        argv_step(argv_prefix(s, (i - 1) as nat), s[i - 1])
    }
}

/// Argv tokens of an editor string. Simple quotes only.
pub open spec fn parse_argv_spec(s: Seq<char>) -> Seq<Seq<char>> {
    let st = argv_prefix(s, s.len());
    if st.current.len() > 0 {
        st.tokens.push(st.current)
    } else {
        st.tokens
    }
}

/// Split an editor string into argv tokens. Simple quotes only.
pub fn parse_editor_argv(editor: &str) -> (tokens: Vec<String>)
    ensures
        string_views(tokens@) == parse_argv_spec(editor@),
{
    let chars = str_chars(editor);
    let mut tokens: Vec<Vec<char>> = Vec::new();
    let mut current: Vec<char> = Vec::new();
    let mut quote: Option<char> = None;
    let mut i: usize = 0;
    proof {
        assert(views(tokens@) =~= Seq::<Seq<char>>::empty());
    }
    while i < chars.len()
        invariant
            i <= chars.len(),
            chars@ == editor@,
            (ArgvState { tokens: views(tokens@), current: current@, quote }) == argv_prefix(chars@, i as nat),
        decreases chars.len() - i,
    {
        let ch = chars[i];
        let ghost before = views(tokens@);
        match quote {
            Some(q) => {
                if ch == q {
                    quote = None;
                } else {
                    current.push(ch);
                }
            },
            None => {
                if ch == '"' || ch == '\'' {
                    quote = Some(ch);
                } else if char_is_whitespace(ch) {
                    if current.len() > 0 {
                        let piece = current;
                        let ghost pv = piece@;
                        tokens.push(piece);
                        current = Vec::new();
                        assert(views(tokens@) =~= before.push(pv));
                    }
                } else {
                    current.push(ch);
                }
            },
        }
        i += 1;
        proof {
            assert(views(tokens@) =~= argv_prefix(chars@, i as nat).tokens);
        }
    }
    if current.len() > 0 {
        let ghost before = views(tokens@);
        let ghost cv = current@;
        tokens.push(current);
        assert(views(tokens@) =~= before.push(cv));
    }
    strings_from_runs(&tokens)
}

/// First non-blank candidate, trimmed, else `vim`.
pub open spec fn resolve_editor_spec(
    config_editor: Option<Seq<char>>,
    env_editor: Option<Seq<char>>,
    env_visual: Option<Seq<char>>,
) -> Seq<char> {
    if config_editor is Some && trim(config_editor->0).len() > 0 {
        trim(config_editor->0)
    } else if env_editor is Some && trim(env_editor->0).len() > 0 {
        trim(env_editor->0)
    } else if env_visual is Some && trim(env_visual->0).len() > 0 {
        trim(env_visual->0)
    } else {
        "vim"@
    }
}

/// View of an optional string slice.
pub open spec fn opt_view(s: Option<&str>) -> Option<Seq<char>> {
    match s {
        Some(t) => Some(t@),
        None => None,
    }
}

/// Config `editor`, then `$EDITOR`, then `$VISUAL`, then `vim`.
pub fn resolve_editor(config_editor: Option<&str>, env_editor: Option<&str>, env_visual: Option<&str>) -> (r: String)
    ensures
        r@ == resolve_editor_spec(opt_view(config_editor), opt_view(env_editor), opt_view(env_visual)),
{
    if let Some(raw) = config_editor {
        let t = trim_str(raw);
        if !t.as_str().is_empty() {
            return t;
        }
    }
    if let Some(raw) = env_editor {
        let t = trim_str(raw);
        if !t.as_str().is_empty() {
            return t;
        }
    }
    if let Some(raw) = env_visual {
        let t = trim_str(raw);
        if !t.as_str().is_empty() {
            return t;
        }
    }
    crate::text::owned("vim")
}

/// Editors that accept `+LINE` before the path.
pub open spec fn plus_line_editors() -> Seq<Seq<char>> {
    seq!["vim"@, "nvim"@, "vi"@, "nano"@, "gvim"@]
}

/// Editors that accept `-g path:LINE`.
pub open spec fn goto_flag_editors() -> Seq<Seq<char>> {
    seq!["code"@, "code-insiders"@, "cursor"@, "codium"@]
}

/// GUI editors that must not steal the TTY.
pub open spec fn detached_editors() -> Seq<Seq<char>> {
    seq!["code"@, "code-insiders"@, "cursor"@, "codium"@, "gvim"@]
}

fn in_list(name: &str, list: &Vec<&'static str>) -> (b: bool)
    ensures
        b == exists|i: int| 0 <= i < list@.len() && (#[trigger] list@[i])@ == name@,
{
    let mut i: usize = 0;
    while i < list.len()
        invariant
            i <= list.len(),
            forall|j: int| 0 <= j < i ==> (#[trigger] list@[j])@ != name@,
        decreases list.len() - i,
    {
        if str_eq(list[i], name) {
            return true;
        }
        i += 1;
    }
    false
}

/// The executable named by an editor string (first token, else the string).
pub open spec fn editor_program(editor: Seq<char>) -> Seq<char> {
    let argv = parse_argv_spec(editor);
    if argv.len() > 0 {
        argv[0]
    } else {
        editor
    }
}

/// True when `e` should spawn without leaving the alternate screen.
pub fn is_detached_editor(editor: &str) -> (b: bool)
    ensures
        b == detached_editors().contains(file_name_or_self(editor_program(editor@))),
{
    let argv = parse_editor_argv(editor);
    let command = if argv.len() > 0 {
        argv[0].clone()
    } else {
        crate::text::owned(editor)
    };
    let name = file_name_or(command.as_str());
    let list = vec!["code", "code-insiders", "cursor", "codium", "gvim"];
    let r = in_list(name.as_str(), &list);
    proof {
        let d = detached_editors();
        assert(d.len() == 5);
        assert forall|i: int| 0 <= i < 5 implies #[trigger] d[i] == list@[i]@ by {}
        if r {
            let i = choose|i: int| 0 <= i < list@.len() && (#[trigger] list@[i])@ == name@;
            assert(d[i] == name@);
        }
        if d.contains(name@) {
            let i = choose|i: int| 0 <= i < d.len() && d[i] == name@;
            assert(list@[i]@ == name@);
        }
    }
    r
}

/// Argv after the program, with the file (and line) appended for `name`.
pub open spec fn editor_args_spec(editor: Seq<char>, file_path: Seq<char>, line: Option<u32>) -> Seq<Seq<char>> {
    let argv = parse_argv_spec(editor);
    let rest = if argv.len() > 0 {
        argv.skip(1)
    } else {
        Seq::empty()
    };
    let name = file_name_or_self(editor_program(editor));
    match line {
        Some(n) => if plus_line_editors().contains(name) {
            rest.push("+"@ + decimal(n as nat)).push(file_path)
        } else if goto_flag_editors().contains(name) {
            rest.push("-g"@).push(file_path + ":"@ + decimal(n as nat))
        } else {
            rest.push(file_path)
        },
        None => rest.push(file_path),
    }
}

fn name_in(name: &str, list: Vec<&'static str>, Ghost(spec_list): Ghost<Seq<Seq<char>>>) -> (b: bool)
    requires
        list@.len() == spec_list.len(),
        forall|i: int| 0 <= i < spec_list.len() ==> #[trigger] spec_list[i] == list@[i]@,
    ensures
        b == spec_list.contains(name@),
{
    let r = in_list(name, &list);
    proof {
        if r {
            let i = choose|i: int| 0 <= i < list@.len() && (#[trigger] list@[i])@ == name@;
            assert(spec_list[i] == name@);
        }
        if spec_list.contains(name@) {
            let i = choose|i: int| 0 <= i < spec_list.len() && spec_list[i] == name@;
            assert(list@[i]@ == name@);
        }
    }
    r
}

/// Executable plus args to open `file_path` (optional 1-based `line`).
pub fn editor_command(editor: &str, file_path: &str, line: Option<u32>) -> (r: (String, Vec<String>))
    ensures
        r.0@ == editor_program(editor@),
        string_views(r.1@) == editor_args_spec(editor@, file_path@, line),
{
    let argv = parse_editor_argv(editor);
    let command = if argv.len() > 0 {
        argv[0].clone()
    } else {
        crate::text::owned(editor)
    };
    let mut args: Vec<String> = Vec::new();
    let mut i: usize = 1;
    while i < argv.len()
        invariant
            1 <= i <= argv.len() || (argv.len() == 0 && i == 1),
            args@.len() + 1 == i,
            forall|j: int| 0 <= j < args@.len() ==> #[trigger] args@[j]@ == argv@[j + 1]@,
        decreases argv.len() - i,
    {
        let a = argv[i].clone();
        args.push(a);
        i += 1;
    }
    proof {
        if argv.len() > 0 {
            assert(string_views(args@) =~= string_views(argv@).skip(1));
        } else {
            assert(string_views(args@) =~= Seq::<Seq<char>>::empty());
        }
    }
    let name = file_name_or(command.as_str());
    let ghost rest = string_views(args@);
    if let Some(n) = line {
        let plus = name_in(name.as_str(), vec!["vim", "nvim", "vi", "nano", "gvim"], Ghost(plus_line_editors()));
        if plus {
            let mut tok = crate::text::owned("+");
            push_decimal(&mut tok, n as u64);
            args.push(tok);
            args.push(crate::text::owned(file_path));
            assert(string_views(args@) =~= rest.push("+"@ + decimal(n as nat)).push(file_path@));
            return (command, args);
        }
        let goto = name_in(name.as_str(), vec!["code", "code-insiders", "cursor", "codium"], Ghost(goto_flag_editors()));
        if goto {
            args.push(crate::text::owned("-g"));
            let mut tok = crate::text::owned(file_path);
            push_str(&mut tok, ":");
            push_decimal(&mut tok, n as u64);
            args.push(tok);
            assert(string_views(args@) =~= rest.push("-g"@).push(file_path@ + ":"@ + decimal(n as nat)));
            return (command, args);
        }
    }
    args.push(crate::text::owned(file_path));
    assert(string_views(args@) =~= rest.push(file_path@));
    (command, args)
}

/// vim, nvim, vi, nano and gvim open the file at the line: the argv ends
/// with `+LINE` and then the path.
pub proof fn lemma_plus_line_editors_get_the_line(editor: Seq<char>, file_path: Seq<char>, n: u32)
    requires
        ({
            let name = file_name_or_self(editor_program(editor));
            name == "vim"@ || name == "nvim"@ || name == "vi"@ || name == "nano"@ || name == "gvim"@
        }),
    ensures
        ({
            let args = editor_args_spec(editor, file_path, Some(n));
            &&& args.len() >= 2
            &&& args[args.len() - 2] == "+"@ + decimal(n as nat)
            &&& args[args.len() - 1] == file_path
        }),
{
    let name = file_name_or_self(editor_program(editor));
    let l = plus_line_editors();
    assert(l[0] == "vim"@ && l[1] == "nvim"@ && l[2] == "vi"@ && l[3] == "nano"@ && l[4] == "gvim"@);
    assert(l.contains(name));
}

/// code, code-insiders, cursor and codium jump with `-g PATH:LINE`.
pub proof fn lemma_goto_flag_editors_get_the_line(editor: Seq<char>, file_path: Seq<char>, n: u32)
    requires
        ({
            let name = file_name_or_self(editor_program(editor));
            name == "code"@ || name == "code-insiders"@ || name == "cursor"@ || name == "codium"@
        }),
    ensures
        ({
            let args = editor_args_spec(editor, file_path, Some(n));
            &&& args.len() >= 2
            &&& args[args.len() - 2] == "-g"@
            &&& args[args.len() - 1] == file_path + ":"@ + decimal(n as nat)
        }),
{
    let name = file_name_or_self(editor_program(editor));
    let l = plus_line_editors();
    let g = goto_flag_editors();
    assert(g[0] == "code"@ && g[1] == "code-insiders"@ && g[2] == "cursor"@ && g[3] == "codium"@);
    assert(g.contains(name));
    reveal_strlit("vim");
    reveal_strlit("nvim");
    reveal_strlit("vi");
    reveal_strlit("nano");
    reveal_strlit("gvim");
    reveal_strlit("code");
    reveal_strlit("code-insiders");
    reveal_strlit("cursor");
    reveal_strlit("codium");
    assert(!l.contains(name)) by {
        if l.contains(name) {
            let k = choose|k: int| 0 <= k < l.len() && l[k] == name;
            assert(l[k].len() != name.len() || l[k][0] != name[0] || l[k][1] != name[1]);
        }
    }
}

/// Without a line, or for any other editor, the path is the last argument.
pub proof fn lemma_editor_path_is_last(editor: Seq<char>, file_path: Seq<char>, line: Option<u32>)
    ensures
        ({
            let args = editor_args_spec(editor, file_path, line);
            &&& args.len() >= 1
            &&& line is None ==> args[args.len() - 1] == file_path
        }),
{
}

} // verus!
