//! Nerd Font glyph registry for the tree, badges, and sync marks.
//!
//! A patched Nerd Font is a hard requirement. `WS_STATUS_GLYPHS=ascii` falls
//! back to plain markers. Every glyph occupies one terminal column: Nerd icons
//! live in the private-use area. No emoji or CJK codepoints.

use vstd::prelude::*;

use crate::text::{
    ascii_lower, digit_value, find_chars, has_substr, is_digit, lower_str_chars, occurs_at,
    push_char, push_chars, push_str, str_chars, str_eq, string_from_chars,
};

verus! {

/// Pick the Nerd Font glyph unless ASCII fallback is active.
pub fn glyph(ascii: bool, nerd: &'static str, fallback: &'static str) -> (r: &'static str)
    ensures
        r == (if ascii { fallback } else { nerd }),
{
    if ascii {
        fallback
    } else {
        nerd
    }
}

/* ── Structure ──────────────────────────────────────────────────────────── */

/// Fold chevron — expanded. Width 1 in both modes.
pub const FOLD_EXPANDED: &'static str = "\u{25be}";

/// Fold chevron — collapsed.
pub const FOLD_COLLAPSED: &'static str = "\u{25b8}";

/// ASCII fold expanded (when `WS_STATUS_GLYPHS=ascii`).
pub const FOLD_EXPANDED_ASCII: &'static str = "v";

/// ASCII fold collapsed (when `WS_STATUS_GLYPHS=ascii`).
pub const FOLD_COLLAPSED_ASCII: &'static str = ">";

/// Cursor accent bar painted in the left-most tree column.
pub const CURSOR_BAR: &'static str = "\u{258c}";

/// Vertical rule between panes and inside the diff gutter.
pub const RULE: &'static str = "\u{2502}";

/// Font named in the help footer.
pub const REQUIRED_FONT: &'static str = "MesloLGM Nerd Font Mono";

/// `ICON_VIEWED` nerd glyph: nf-fa-eye (`U+F06E`).
pub const ICON_VIEWED_NERD: &'static str = "\u{f06e}";

/// `ICON_VIEWED` ASCII fallback.
pub const ICON_VIEWED_ASCII: &'static str = "*";

/// File glyph when neither the name nor the extension is known.
pub const DEFAULT_FILE_GLYPH: &'static str = "\u{f15b}";

/// File glyph in ASCII mode.
pub const ASCII_FILE_GLYPH: &'static str = "\u{b7}";

/// `workspace` glyph (Nerd, or ASCII `#`).
pub fn icon_workspace(ascii: bool) -> (r: &'static str)
    ensures
        r@ == (if ascii { "#"@ } else { "\u{e5ff}"@ }),
{
    glyph(ascii, "\u{e5ff}", "#")
}

/// `repo` glyph (Nerd, or ASCII `@`).
pub fn icon_repo(ascii: bool) -> (r: &'static str)
    ensures
        r@ == (if ascii { "@"@ } else { "\u{e702}"@ }),
{
    glyph(ascii, "\u{e702}", "@")
}

/// Linked `git worktree` checkout. Nerd: nf-oct-link; ASCII: `L`.
pub fn icon_linked_worktree(ascii: bool) -> (r: &'static str)
    ensures
        r@ == (if ascii { "L"@ } else { "\u{f481}"@ }),
{
    glyph(ascii, "\u{f481}", "L")
}

/// `branch` glyph (Nerd, or ASCII `&`).
pub fn icon_branch(ascii: bool) -> (r: &'static str)
    ensures
        r@ == (if ascii { "&"@ } else { "\u{e725}"@ }),
{
    glyph(ascii, "\u{e725}", "&")
}

/// Help MOVE column. Nerd: nf-dev-terminal_badge; ASCII: `+`.
pub fn icon_move(ascii: bool) -> (r: &'static str)
    ensures
        r@ == (if ascii { "+"@ } else { "\u{e7a2}"@ }),
{
    glyph(ascii, "\u{e7a2}", "+")
}

/// Help VIEW column. Nerd: nf-oct-diff; ASCII: `%`.
pub fn icon_diff(ascii: bool) -> (r: &'static str)
    ensures
        r@ == (if ascii { "%"@ } else { "\u{f440}"@ }),
{
    glyph(ascii, "\u{f440}", "%")
}

/// `folder` glyph (Nerd, or ASCII `/`).
pub fn icon_folder(ascii: bool) -> (r: &'static str)
    ensures
        r@ == (if ascii { "/"@ } else { "\u{f07b}"@ }),
{
    glyph(ascii, "\u{f07b}", "/")
}

/// `folder open` glyph (Nerd, or ASCII `/`).
pub fn icon_folder_open(ascii: bool) -> (r: &'static str)
    ensures
        r@ == (if ascii { "/"@ } else { "\u{f07c}"@ }),
{
    glyph(ascii, "\u{f07c}", "/")
}

/// `clean` glyph (Nerd, or ASCII `.`).
pub fn icon_clean(ascii: bool) -> (r: &'static str)
    ensures
        r@ == (if ascii { "."@ } else { "\u{f00c}"@ }),
{
    glyph(ascii, "\u{f00c}", ".")
}

/// `ignored` glyph (Nerd, or ASCII `~`).
pub fn icon_ignored(ascii: bool) -> (r: &'static str)
    ensures
        r@ == (if ascii { "~"@ } else { "\u{f070}"@ }),
{
    glyph(ascii, "\u{f070}", "~")
}

/// `ahead` glyph (Nerd, or ASCII `^`).
pub fn icon_ahead(ascii: bool) -> (r: &'static str)
    ensures
        r@ == (if ascii { "^"@ } else { "\u{f062}"@ }),
{
    glyph(ascii, "\u{f062}", "^")
}

/// `behind` glyph (Nerd, or ASCII `v`).
pub fn icon_behind(ascii: bool) -> (r: &'static str)
    ensures
        r@ == (if ascii { "v"@ } else { "\u{f063}"@ }),
{
    glyph(ascii, "\u{f063}", "v")
}

/// `diverged` glyph (Nerd, or ASCII `Y`).
pub fn icon_diverged(ascii: bool) -> (r: &'static str)
    ensures
        r@ == (if ascii { "Y"@ } else { "\u{e727}"@ }),
{
    glyph(ascii, "\u{e727}", "Y")
}

/// `no upstream` glyph (Nerd, or ASCII `?`).
pub fn icon_no_upstream(ascii: bool) -> (r: &'static str)
    ensures
        r@ == (if ascii { "?"@ } else { "\u{f059}"@ }),
{
    glyph(ascii, "\u{f059}", "?")
}

/// `synced` glyph (Nerd, or ASCII `=`).
pub fn icon_synced(ascii: bool) -> (r: &'static str)
    ensures
        r@ == (if ascii { "="@ } else { "\u{f00c}"@ }),
{
    glyph(ascii, "\u{f00c}", "=")
}

/// HEAD is an ancestor of the default-branch tip. Nerd: nf-fa-check-circle; ASCII: `M`.
pub fn icon_merged_into_default(ascii: bool) -> (r: &'static str)
    ensures
        r@ == (if ascii { "M"@ } else { "\u{f058}"@ }),
{
    glyph(ascii, "\u{f058}", "M")
}

/// HEAD is not merged into default. Nerd: nf-fa-tree; ASCII: `o`.
pub fn icon_open_vs_default(ascii: bool) -> (r: &'static str)
    ensures
        r@ == (if ascii { "o"@ } else { "\u{f1bb}"@ }),
{
    glyph(ascii, "\u{f1bb}", "o")
}

/// Reviewed mark on a dirty file row. Nerd: nf-fa-eye (`U+F06E`); ASCII: `*`.
pub fn icon_viewed(ascii: bool) -> (r: &'static str)
    ensures
        r@ == (if ascii { ICON_VIEWED_ASCII@ } else { ICON_VIEWED_NERD@ }),
{
    glyph(ascii, ICON_VIEWED_NERD, ICON_VIEWED_ASCII)
}

/* ── File icons ─────────────────────────────────────────────────────────── */

/// Nerd file glyph plus optional hex colour (theme `file` when `None`).
#[derive(Clone, Copy, Debug, PartialEq, Eq)]
pub struct FileIcon {
    pub glyph: &'static str,
    pub color: Option<&'static str>,
}

/// A file icon as plain values.
pub struct IconView {
    pub glyph: Seq<char>,
    pub color: Option<Seq<char>>,
}

/// View of a file icon.
pub open spec fn icon_view(i: FileIcon) -> IconView {
    IconView {
        glyph: i.glyph@,
        color: match i.color {
            Some(c) => Some(c@),
            None => None,
        },
    }
}

/// View of an optional file icon.
pub open spec fn opt_icon_view(i: Option<FileIcon>) -> Option<IconView> {
    match i {
        Some(x) => Some(icon_view(x)),
        None => None,
    }
}

/// Icon for an exact (lower-cased) file name.
pub open spec fn filename_icon_spec(name: Seq<char>) -> Option<IconView> {
    if name == ".gitignore"@ || name == ".gitattributes"@ || name == ".gitmodules"@ {
        Some(IconView { glyph: "\u{e702}"@, color: Some("#e24329"@) })
    } else if name == "package.json"@ {
        Some(IconView { glyph: "\u{e71e}"@, color: Some("#e8274b"@) })
    } else if name == "package-lock.json"@ {
        Some(IconView { glyph: "\u{e71e}"@, color: Some("#7a0d21"@) })
    } else if name == "dockerfile"@ {
        Some(IconView { glyph: "\u{f308}"@, color: Some("#458ee6"@) })
    } else if name == "makefile"@ {
        Some(IconView { glyph: "\u{e20f}"@, color: Some("#6d8086"@) })
    } else if name == "readme.md"@ {
        Some(IconView { glyph: "\u{f48a}"@, color: Some("#519aba"@) })
    } else if name == ".envrc"@ || name == ".env"@ {
        Some(IconView { glyph: "\u{f462}"@, color: Some("#faf743"@) })
    } else {
        None
    }
}

fn filename_icon(name: &str) -> (r: Option<FileIcon>)
    ensures
        opt_icon_view(r) == filename_icon_spec(name@),
{
    if str_eq(name, ".gitignore") || str_eq(name, ".gitattributes") || str_eq(name, ".gitmodules") {
        Some(FileIcon { glyph: "\u{e702}", color: Some("#e24329") })
    } else if str_eq(name, "package.json") {
        Some(FileIcon { glyph: "\u{e71e}", color: Some("#e8274b") })
    } else if str_eq(name, "package-lock.json") {
        Some(FileIcon { glyph: "\u{e71e}", color: Some("#7a0d21") })
    } else if str_eq(name, "dockerfile") {
        Some(FileIcon { glyph: "\u{f308}", color: Some("#458ee6") })
    } else if str_eq(name, "makefile") {
        Some(FileIcon { glyph: "\u{e20f}", color: Some("#6d8086") })
    } else if str_eq(name, "readme.md") {
        Some(FileIcon { glyph: "\u{f48a}", color: Some("#519aba") })
    } else if str_eq(name, ".envrc") || str_eq(name, ".env") {
        Some(FileIcon { glyph: "\u{f462}", color: Some("#faf743") })
    } else {
        None
    }
}

/// Icon for a (lower-cased) file extension.
pub open spec fn extension_icon_spec(name: Seq<char>) -> Option<IconView> {
    if name == "ts"@ || name == "mts"@ || name == "cts"@ {
        Some(IconView { glyph: "\u{e628}"@, color: Some("#519aba"@) })
    } else if name == "tsx"@ || name == "jsx"@ {
        Some(IconView { glyph: "\u{e7ba}"@, color: Some("#519aba"@) })
    } else if name == "js"@ || name == "mjs"@ || name == "cjs"@ {
        Some(IconView { glyph: "\u{e74e}"@, color: Some("#cbcb41"@) })
    } else if name == "json"@ {
        Some(IconView { glyph: "\u{e60b}"@, color: Some("#cbcb41"@) })
    } else if name == "md"@ || name == "mdx"@ {
        Some(IconView { glyph: "\u{f48a}"@, color: Some("#519aba"@) })
    } else if name == "py"@ {
        Some(IconView { glyph: "\u{e73c}"@, color: Some("#ffbc03"@) })
    } else if name == "sh"@ || name == "bash"@ || name == "zsh"@ {
        Some(IconView { glyph: "\u{f489}"@, color: Some("#89e051"@) })
    } else if name == "html"@ {
        Some(IconView { glyph: "\u{e736}"@, color: Some("#e34c26"@) })
    } else if name == "css"@ {
        Some(IconView { glyph: "\u{e749}"@, color: Some("#563d7c"@) })
    } else if name == "scss"@ {
        Some(IconView { glyph: "\u{e749}"@, color: Some("#f55385"@) })
    } else if name == "yml"@ || name == "yaml"@ || name == "toml"@ {
        Some(IconView { glyph: "\u{e615}"@, color: Some("#6d8086"@) })
    } else if name == "java"@ {
        Some(IconView { glyph: "\u{e738}"@, color: Some("#cc3e44"@) })
    } else if name == "cs"@ {
        Some(IconView { glyph: "\u{f81a}"@, color: Some("#596706"@) })
    } else if name == "go"@ {
        Some(IconView { glyph: "\u{e627}"@, color: Some("#519aba"@) })
    } else if name == "rs"@ {
        Some(IconView { glyph: "\u{e7a8}"@, color: Some("#dea584"@) })
    } else if name == "sql"@ {
        Some(IconView { glyph: "\u{f1c0}"@, color: Some("#dad8d8"@) })
    } else if name == "png"@ || name == "jpg"@ || name == "jpeg"@ || name == "gif"@ {
        Some(IconView { glyph: "\u{f1c5}"@, color: Some("#a074c4"@) })
    } else if name == "svg"@ {
        Some(IconView { glyph: "\u{f1c5}"@, color: Some("#ffb13b"@) })
    } else if name == "lock"@ {
        Some(IconView { glyph: "\u{f023}"@, color: Some("#bbbbbb"@) })
    } else if name == "txt"@ {
        Some(IconView { glyph: "\u{f15c}"@, color: None })
    } else {
        None
    }
}

fn extension_icon(name: &str) -> (r: Option<FileIcon>)
    ensures
        opt_icon_view(r) == extension_icon_spec(name@),
{
    if str_eq(name, "ts") || str_eq(name, "mts") || str_eq(name, "cts") {
        Some(FileIcon { glyph: "\u{e628}", color: Some("#519aba") })
    } else if str_eq(name, "tsx") || str_eq(name, "jsx") {
        Some(FileIcon { glyph: "\u{e7ba}", color: Some("#519aba") })
    } else if str_eq(name, "js") || str_eq(name, "mjs") || str_eq(name, "cjs") {
        Some(FileIcon { glyph: "\u{e74e}", color: Some("#cbcb41") })
    } else if str_eq(name, "json") {
        Some(FileIcon { glyph: "\u{e60b}", color: Some("#cbcb41") })
    } else if str_eq(name, "md") || str_eq(name, "mdx") {
        Some(FileIcon { glyph: "\u{f48a}", color: Some("#519aba") })
    } else if str_eq(name, "py") {
        Some(FileIcon { glyph: "\u{e73c}", color: Some("#ffbc03") })
    } else if str_eq(name, "sh") || str_eq(name, "bash") || str_eq(name, "zsh") {
        Some(FileIcon { glyph: "\u{f489}", color: Some("#89e051") })
    } else if str_eq(name, "html") {
        Some(FileIcon { glyph: "\u{e736}", color: Some("#e34c26") })
    } else if str_eq(name, "css") {
        Some(FileIcon { glyph: "\u{e749}", color: Some("#563d7c") })
    } else if str_eq(name, "scss") {
        Some(FileIcon { glyph: "\u{e749}", color: Some("#f55385") })
    } else if str_eq(name, "yml") || str_eq(name, "yaml") || str_eq(name, "toml") {
        Some(FileIcon { glyph: "\u{e615}", color: Some("#6d8086") })
    } else if str_eq(name, "java") {
        Some(FileIcon { glyph: "\u{e738}", color: Some("#cc3e44") })
    } else if str_eq(name, "cs") {
        Some(FileIcon { glyph: "\u{f81a}", color: Some("#596706") })
    } else if str_eq(name, "go") {
        Some(FileIcon { glyph: "\u{e627}", color: Some("#519aba") })
    } else if str_eq(name, "rs") {
        Some(FileIcon { glyph: "\u{e7a8}", color: Some("#dea584") })
    } else if str_eq(name, "sql") {
        Some(FileIcon { glyph: "\u{f1c0}", color: Some("#dad8d8") })
    } else if str_eq(name, "png") || str_eq(name, "jpg") || str_eq(name, "jpeg") || str_eq(name, "gif") {
        Some(FileIcon { glyph: "\u{f1c5}", color: Some("#a074c4") })
    } else if str_eq(name, "svg") {
        Some(FileIcon { glyph: "\u{f1c5}", color: Some("#ffb13b") })
    } else if str_eq(name, "lock") {
        Some(FileIcon { glyph: "\u{f023}", color: Some("#bbbbbb") })
    } else if str_eq(name, "txt") {
        Some(FileIcon { glyph: "\u{f15c}", color: None })
    } else {
        None
    }
}
/// Part of `s` after the last `c` (all of `s` when `c` is absent).
pub open spec fn after_last(s: Seq<char>, c: char) -> Seq<char>
    decreases s.len(),
{
    if s.len() == 0 {
        s
    } else if s.last() == c {
        Seq::empty()
    } else {
        after_last(s.drop_last(), c).push(s.last())
    }
}

/// Lower-cased last path component of `path`.
pub open spec fn icon_name(path: Seq<char>) -> Seq<char> {
    ascii_lower(after_last(path, '/'))
}

/// Extension of a file name: after the last `.`, empty without one.
pub open spec fn icon_ext(name: Seq<char>) -> Seq<char> {
    if name.contains('.') {
        after_last(name, '.')
    } else {
        Seq::empty()
    }
}

/// Devicon of a path: exact file name first, then extension, then default.
pub open spec fn file_icon_spec(ascii: bool, path: Seq<char>) -> IconView {
    if ascii {
        IconView { glyph: ASCII_FILE_GLYPH@, color: None }
    } else if filename_icon_spec(icon_name(path)) is Some {
        filename_icon_spec(icon_name(path))->0
    } else if extension_icon_spec(icon_ext(icon_name(path))) is Some {
        extension_icon_spec(icon_ext(icon_name(path)))->0
    } else {
        IconView { glyph: DEFAULT_FILE_GLYPH@, color: None }
    }
}

/// `after_last` over char runs, with whether `c` occurs at all.
fn split_after_last(v: &Vec<char>, c: char) -> (r: (Vec<char>, bool))
    ensures
        r.0@ == after_last(v@, c),
        r.1 == v@.contains(c),
{
    let mut i: usize = v.len();
    assert(v@.take(i as int) =~= v@);
    assert(after_last(v@, c) + v@.skip(i as int) =~= after_last(v@, c));
    while i > 0 && v[i - 1] != c
        invariant
            i <= v@.len(),
            after_last(v@, c) == after_last(v@.take(i as int), c) + v@.skip(i as int),
            forall|j: int| i <= j < v@.len() ==> v@[j] != c,
        decreases i,
    {
        proof {
            let t = v@.take(i as int);
            assert(t.drop_last() =~= v@.take(i - 1));
            assert(v@.skip(i - 1) =~= seq![v@[i - 1]] + v@.skip(i as int));
            assert(after_last(t, c) == after_last(v@.take(i - 1), c).push(v@[i - 1]));
            assert(after_last(v@.take(i - 1), c).push(v@[i - 1]) + v@.skip(i as int) =~= after_last(
                v@.take(i - 1),
                c,
            ) + v@.skip(i - 1));
        }
        i -= 1;
    }
    let found = i > 0;
    proof {
        if i > 0 {
            let t = v@.take(i as int);
            assert(t.last() == c);
            assert(after_last(t, c) =~= Seq::<char>::empty());
            assert(v@[i - 1] == c);
        } else {
            assert(v@.take(0) =~= Seq::<char>::empty());
            if v@.contains(c) {
                let j = choose|j: int| 0 <= j < v@.len() && v@[j] == c;
            }
        }
    }
    let tail = crate::text::slice_chars(v.as_slice(), i, v.len());
    assert(tail@ =~= v@.skip(i as int));
    assert(after_last(v@, c) =~= tail@);
    (tail, found)
}

/// Devicon for a repo-relative file path. Exact filename wins, then extension.
pub fn file_icon(ascii: bool, file_path: &str) -> (r: FileIcon)
    ensures
        icon_view(r) == file_icon_spec(ascii, file_path@),
{
    if ascii {
        return FileIcon { glyph: ASCII_FILE_GLYPH, color: None };
    }
    let chars = str_chars(file_path);
    let (last, _) = split_after_last(&chars, '/');
    let lowered = crate::text::lower_chars(last.as_slice());
    let name = string_from_chars(lowered.as_slice());
    if let Some(icon) = filename_icon(name.as_str()) {
        return icon;
    }
    let (ext_chars, has_dot) = split_after_last(&lowered, '.');
    let ext = if has_dot {
        string_from_chars(ext_chars.as_slice())
    } else {
        String::new()
    };
    if let Some(icon) = extension_icon(ext.as_str()) {
        return icon;
    }
    FileIcon { glyph: DEFAULT_FILE_GLYPH, color: None }
}

/* ── File status ────────────────────────────────────────────────────────── */

/// One changed path of a checkout, as `git status` reports it.
#[derive(Clone, Debug, PartialEq, Eq)]
pub struct FileChange {
    pub path: String,
    pub staged_status: Option<String>,
    pub unstaged_status: Option<String>,
    pub untracked: bool,
    pub old_path: Option<String>,
}

/// Upstream relation of a checkout's branch.
#[derive(Clone, Copy, Debug, PartialEq, Eq)]
pub enum SyncStatus {
    UpToDate,
    Ahead,
    Behind,
    Diverged,
    NoUpstream,
}

/// Letter code of a changed file.
#[derive(Clone, Copy, Debug, PartialEq, Eq)]
pub enum FileStatusLetter {
    A,
    M,
    S,
    Ms,
    D,
    R,
    U,
    C,
}

/// Semantic colour for a status letter / sync mark.
#[derive(Clone, Copy, Debug, PartialEq, Eq)]
pub enum StatusColorRole {
    Added,
    Modified,
    Deleted,
    Renamed,
    Muted,
    File,
}

impl FileStatusLetter {
    /// Letter token (`A` / `S` / `MS` / `M` / `D` / `R` / `U` / `C`).
    pub fn as_str(self) -> (r: &'static str)
        ensures
            r@ == match self {
                FileStatusLetter::A => "A"@,
                FileStatusLetter::M => "M"@,
                FileStatusLetter::S => "S"@,
                FileStatusLetter::Ms => "MS"@,
                FileStatusLetter::D => "D"@,
                FileStatusLetter::R => "R"@,
                FileStatusLetter::U => "U"@,
                FileStatusLetter::C => "C"@,
            },
    {
        match self {
            FileStatusLetter::A => "A",
            FileStatusLetter::M => "M",
            FileStatusLetter::S => "S",
            FileStatusLetter::Ms => "MS",
            FileStatusLetter::D => "D",
            FileStatusLetter::R => "R",
            FileStatusLetter::U => "U",
            FileStatusLetter::C => "C",
        }
    }

    /// Exactly 2 display columns — right-aligned like an SCM gutter.
    pub fn badge(self) -> (r: &'static str)
        ensures
            r@ == match self {
                FileStatusLetter::A => "A "@,
                FileStatusLetter::M => "M "@,
                FileStatusLetter::S => "S "@,
                FileStatusLetter::Ms => "MS"@,
                FileStatusLetter::D => "D "@,
                FileStatusLetter::R => "R "@,
                FileStatusLetter::U => "U "@,
                FileStatusLetter::C => "C "@,
            },
    {
        match self {
            FileStatusLetter::A => "A ",
            FileStatusLetter::M => "M ",
            FileStatusLetter::S => "S ",
            FileStatusLetter::Ms => "MS",
            FileStatusLetter::D => "D ",
            FileStatusLetter::R => "R ",
            FileStatusLetter::U => "U ",
            FileStatusLetter::C => "C ",
        }
    }

    /// Colour token of the letter.
    pub fn color_role(self) -> (r: StatusColorRole)
        ensures
            r == match self {
                FileStatusLetter::A | FileStatusLetter::S => StatusColorRole::Added,
                FileStatusLetter::M | FileStatusLetter::Ms => StatusColorRole::Modified,
                FileStatusLetter::D | FileStatusLetter::U => StatusColorRole::Deleted,
                FileStatusLetter::R | FileStatusLetter::C => StatusColorRole::Renamed,
            },
    {
        match self {
            FileStatusLetter::A | FileStatusLetter::S => StatusColorRole::Added,
            FileStatusLetter::M | FileStatusLetter::Ms => StatusColorRole::Modified,
            FileStatusLetter::D | FileStatusLetter::U => StatusColorRole::Deleted,
            FileStatusLetter::R | FileStatusLetter::C => StatusColorRole::Renamed,
        }
    }
}

/// View of an optional owned string.
pub open spec fn opt_string(o: Option<String>) -> Option<Seq<char>> {
    match o {
        Some(s) => Some(s@),
        None => None,
    }
}

/// Letter for a change: conflict first, then both sides, rename, delete,
/// add, staged-only, copy, else modified.
pub open spec fn letter_spec(untracked: bool, staged: Option<Seq<char>>, unstaged: Option<Seq<char>>) -> FileStatusLetter {
    let status = if unstaged is Some {
        unstaged
    } else {
        staged
    };
    if unstaged == Some("U"@) || staged == Some("U"@) {
        FileStatusLetter::U
    } else if staged is Some && unstaged is Some {
        FileStatusLetter::Ms
    } else if status == Some("R"@) {
        FileStatusLetter::R
    } else if status == Some("D"@) {
        FileStatusLetter::D
    } else if untracked || status == Some("A"@) {
        FileStatusLetter::A
    } else if staged is Some && unstaged is None {
        FileStatusLetter::S
    } else if status == Some("C"@) {
        FileStatusLetter::C
    } else {
        FileStatusLetter::M
    }
}

fn opt_is(o: &Option<String>, lit: &str) -> (b: bool)
    ensures
        b == (opt_string(*o) == Some(lit@)),
{
    match o {
        Some(s) => str_eq(s.as_str(), lit),
        None => false,
    }
}

/// Map a change to its status letter.
pub fn status_letter_from_change(change: &FileChange) -> (r: FileStatusLetter)
    ensures
        r == letter_spec(change.untracked, opt_string(change.staged_status), opt_string(change.unstaged_status)),
{
    let unstaged = &change.unstaged_status;
    let staged = &change.staged_status;
    if opt_is(unstaged, "U") || opt_is(staged, "U") {
        return FileStatusLetter::U;
    }
    if staged.is_some() && unstaged.is_some() {
        return FileStatusLetter::Ms;
    }
    let status = if unstaged.is_some() {
        unstaged
    } else {
        staged
    };
    if opt_is(status, "R") {
        return FileStatusLetter::R;
    }
    if opt_is(status, "D") {
        return FileStatusLetter::D;
    }
    if change.untracked || opt_is(status, "A") {
        return FileStatusLetter::A;
    }
    if staged.is_some() && unstaged.is_none() {
        return FileStatusLetter::S;
    }
    if opt_is(status, "C") {
        return FileStatusLetter::C;
    }
    FileStatusLetter::M
}

/// Exactly 2 display columns for a file-change badge.
pub fn tui_file_badge(change: &FileChange) -> (r: &'static str)
    ensures
        r@ == match letter_spec(change.untracked, opt_string(change.staged_status), opt_string(change.unstaged_status)) {
            FileStatusLetter::A => "A "@,
            FileStatusLetter::M => "M "@,
            FileStatusLetter::S => "S "@,
            FileStatusLetter::Ms => "MS"@,
            FileStatusLetter::D => "D "@,
            FileStatusLetter::R => "R "@,
            FileStatusLetter::U => "U "@,
            FileStatusLetter::C => "C "@,
        },
{
    status_letter_from_change(change).badge()
}

/* ── Branch / sync ──────────────────────────────────────────────────────── */

/// Merge-into-default mark for branch chrome. Never emoji.
pub fn tui_merge_mark(ascii: bool, merged: Option<bool>) -> (r: &'static str)
    ensures
        r@ == match merged {
            Some(true) => if ascii { "M"@ } else { "\u{f058}"@ },
            Some(false) => if ascii { "o"@ } else { "\u{f1bb}"@ },
            None => ""@,
        },
{
    match merged {
        Some(true) => icon_merged_into_default(ascii),
        Some(false) => icon_open_vs_default(ascii),
        None => "",
    }
}

/// Longest prefix of ASCII digits.
pub open spec fn digit_run(s: Seq<char>) -> Seq<char>
    decreases s.len(),
{
    if s.len() > 0 && is_digit(s[0]) {
        seq![s[0]] + digit_run(s.drop_first())
    } else {
        Seq::empty()
    }
}

/// The digits right after the first `prefix` in `note` (empty without one).
pub open spec fn count_after(note: Seq<char>, prefix: Seq<char>) -> Seq<char> {
    if has_substr(note, prefix) {
        let i = choose|i: int| occurs_at(note, prefix, i) && forall|j: int| 0 <= j < i ==> !occurs_at(note, prefix, j);
        digit_run(note.skip(i + prefix.len()))
    } else {
        Seq::empty()
    }
}

pub(crate) fn capture_count(note: &str, prefix: &str) -> (r: Vec<char>)
    ensures
        r@ == count_after(note@, prefix@),
{
    let n = str_chars(note);
    let p = str_chars(prefix);
    match find_chars(n.as_slice(), p.as_slice()) {
        None => Vec::new(),
        Some(idx) => {
            proof {
                let c = choose|i: int| occurs_at(n@, p@, i) && forall|j: int| 0 <= j < i ==> !occurs_at(n@, p@, j);
                assert(occurs_at(n@, p@, idx as int));
                if c < idx {
                } else if c > idx {
                    assert(!occurs_at(n@, p@, idx as int));
                }
                assert(c == idx);
            }
            let plen = p.len();
            assert(idx + plen <= n.len());
            let start = idx + plen;
            let mut out: Vec<char> = Vec::new();
            let mut k = start;
            assert(n@.skip(start as int) =~= n@.skip(start as int));
            while k < n.len() && '0' <= n[k] && n[k] <= '9'
                invariant
                    start <= k <= n@.len(),
                    digit_run(n@.skip(start as int)) == out@ + digit_run(n@.skip(k as int)),
                decreases n@.len() - k,
            {
                assert(n@.skip(k as int).drop_first() =~= n@.skip(k + 1));
                out.push(n[k]);
                k += 1;
            }
            proof {
                if k < n.len() {
                    assert(n@.skip(k as int)[0] == n@[k as int]);
                }
                assert(digit_run(n@.skip(k as int)) =~= Seq::<char>::empty());
            }
            out
        },
    }
}

/// Sync mark text: glyph, plus the commit count for ahead / behind.
pub open spec fn sync_mark_spec(ascii: bool, status: SyncStatus, note: Seq<char>) -> Seq<char> {
    match status {
        SyncStatus::NoUpstream => if ascii { "?"@ } else { "\u{f059}"@ },
        SyncStatus::Behind => (if ascii { "v"@ } else { "\u{f063}"@ }) + count_after(note, "behind by "@),
        SyncStatus::Ahead => (if ascii { "^"@ } else { "\u{f062}"@ }) + count_after(note, "ahead by "@),
        SyncStatus::Diverged => if ascii { "Y"@ } else { "\u{e727}"@ },
        SyncStatus::UpToDate => if ascii { "="@ } else { "\u{f00c}"@ },
    }
}

/// Sync mark: glyph plus commit count, e.g. ahead-by-2 or behind-by-3.
pub fn tui_sync_mark(ascii: bool, status: SyncStatus, note: &str) -> (r: String)
    ensures
        r@ == sync_mark_spec(ascii, status, note@),
{
    match status {
        SyncStatus::NoUpstream => crate::text::owned(icon_no_upstream(ascii)),
        SyncStatus::Behind => {
            let mut s = crate::text::owned(icon_behind(ascii));
            let count = capture_count(note, "behind by ");
            push_chars(&mut s, count.as_slice());
            s
        },
        SyncStatus::Ahead => {
            let mut s = crate::text::owned(icon_ahead(ascii));
            let count = capture_count(note, "ahead by ");
            push_chars(&mut s, count.as_slice());
            s
        },
        SyncStatus::Diverged => crate::text::owned(icon_diverged(ascii)),
        SyncStatus::UpToDate => crate::text::owned(icon_synced(ascii)),
    }
}

/// Colour matching `tui_sync_mark` semantics.
pub fn sync_color_role(status: SyncStatus) -> (r: StatusColorRole)
    ensures
        r == match status {
            SyncStatus::Behind => StatusColorRole::Deleted,
            SyncStatus::Ahead => StatusColorRole::Added,
            SyncStatus::Diverged => StatusColorRole::Modified,
            SyncStatus::UpToDate | SyncStatus::NoUpstream => StatusColorRole::Muted,
        },
{
    match status {
        SyncStatus::Behind => StatusColorRole::Deleted,
        SyncStatus::Ahead => StatusColorRole::Added,
        SyncStatus::Diverged => StatusColorRole::Modified,
        SyncStatus::UpToDate | SyncStatus::NoUpstream => StatusColorRole::Muted,
    }
}

/* ── Display width ──────────────────────────────────────────────────────── */

/// Columns a terminal gives a string (`unicode_width::UnicodeWidthStr::width`).
pub uninterp spec fn unicode_str_width(s: Seq<char>) -> usize;

/// Calls `unicode_width::UnicodeWidthStr::width`: the terminal column count
/// of `s` per the Unicode East Asian Width tables. The contract only names
/// that value; the tables themselves are not restated.
#[verifier::external_body]
pub(crate) fn display_width(s: &str) -> (w: usize)
    ensures
        w == unicode_str_width(s@),
{
    unicode_width::UnicodeWidthStr::width(s)
}

/// Greedy prefix of `s` whose per-char widths fit in `budget` columns.
pub open spec fn fit_prefix(s: Seq<char>, budget: int) -> Seq<char>
    decreases s.len(),
{
    if s.len() == 0 || unicode_str_width(seq![s[0]]) > budget {
        Seq::empty()
    } else {
        seq![s[0]] + fit_prefix(s.drop_first(), budget - unicode_str_width(seq![s[0]]))
    }
}

/// `value` cut to at most `width` columns.
pub open spec fn truncate_spec(value: Seq<char>, width: nat) -> Seq<char> {
    if width == 0 {
        Seq::empty()
    } else if unicode_str_width(value) <= width {
        value
    } else {
        fit_prefix(value, width as int)
    }
}

/// Truncate a string to at most `width` terminal columns.
pub fn truncate_visible(value: &str, width: usize) -> (r: String)
    ensures
        r@ == truncate_spec(value@, width as nat),
{
    if width == 0 {
        return String::new();
    }
    if display_width(value) <= width {
        return crate::text::owned(value);
    }
    let chars = str_chars(value);
    let mut out = String::new();
    let mut w: usize = 0;
    let mut i: usize = 0;
    assert(chars@.skip(0) =~= chars@);
    while i < chars.len()
        invariant
            i <= chars@.len(),
            chars@ == value@,
            unicode_str_width(value@) > width,
            width > 0,
            w <= width,
            fit_prefix(chars@, width as int) == out@ + fit_prefix(chars@.skip(i as int), width - w),
        decreases chars@.len() - i,
    {
        let mut one = String::new();
        push_char(&mut one, chars[i]);
        let cw = display_width(one.as_str());
        let ghost rest = chars@.skip(i as int);
        assert(rest[0] == chars@[i as int]);
        assert(one@ =~= seq![rest[0]]);
        if cw > width - w {
            assert(fit_prefix(rest, width - w) =~= Seq::<char>::empty());
            assert(out@ + Seq::<char>::empty() =~= out@);
            assert(truncate_spec(value@, width as nat) == fit_prefix(chars@, width as int));
            return out;
        }
        assert(rest.drop_first() =~= chars@.skip(i + 1));
        let ghost before = out@;
        push_char(&mut out, chars[i]);
        assert(before + fit_prefix(rest, width - w) =~= out@ + fit_prefix(chars@.skip(i + 1), width - (w + cw)));
        w += cw;
        i += 1;
    }
    assert(fit_prefix(chars@.skip(i as int), width - w) =~= Seq::<char>::empty()) by {
        assert(chars@.skip(i as int).len() == 0);
    }
    assert(out@ + Seq::<char>::empty() =~= out@);
    out
}

/// True if any codepoint is in the emoji / pictograph range (≥ U+1F300).
pub fn has_wide_emoji(value: &str) -> (b: bool)
    ensures
        b == exists|i: int| 0 <= i < value@.len() && (value@[i] as u32) >= 0x1f300,
{
    let chars = str_chars(value);
    let mut i: usize = 0;
    while i < chars.len()
        invariant
            i <= chars@.len(),
            chars@ == value@,
            forall|j: int| 0 <= j < i ==> (chars@[j] as u32) < 0x1f300,
        decreases chars@.len() - i,
    {
        if (chars[i] as u32) >= 0x1f300 {
            return true;
        }
        i += 1;
    }
    false
}

} // verus!
