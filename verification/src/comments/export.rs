//! Markdown export of the comment store, and the base64 used to put it on
//! the clipboard (OSC 52). Writing to the terminal or a clipboard tool is
//! the binary's job.

use vstd::prelude::*;

use crate::comments::reference::line_span_spec;
use crate::comments::store::{CommentEntry, CommentKey, CommentStore, EntryView, KeyView, pair_views};
use crate::text::{push_char, push_chars, push_decimal, push_str, split_on, str_chars, trim_end};

verus! {

/// Markdown marker for a resolved comment. Open comments have no tag.
pub const RESOLVED_MARKDOWN_TAG: &'static str = "[resolved]";

/// ` [resolved]` for a resolved comment, nothing for an open one.
pub open spec fn resolved_suffix(resolved: bool) -> Seq<char> {
    if resolved {
        " [resolved]"@
    } else {
        Seq::empty()
    }
}

/// `"\n  >"` and the line (after a space when non-empty), for each line.
pub open spec fn quoted_tail(lines: Seq<Seq<char>>) -> Seq<char>
    decreases lines.len(),
{
    if lines.len() == 0 {
        Seq::empty()
    } else {
        "\n  >"@ + (if lines[0].len() > 0 { seq![' '] + lines[0] } else { Seq::empty() }) + quoted_tail(
            lines.drop_first(),
        )
    }
}

/// First line as is, every later line quoted so it cannot leave the bullet.
pub open spec fn quote_continuation_spec(body: Seq<char>) -> Seq<char> {
    let lines = split_on(body, '\n');
    lines[0] + quoted_tail(lines.drop_first())
}

/// Lines of a multi-line object comment, each as a `>` quote line.
pub open spec fn block_quote(lines: Seq<Seq<char>>, first: bool) -> Seq<char>
    decreases lines.len(),
{
    if lines.len() == 0 {
        Seq::empty()
    } else {
        (if first { Seq::empty() } else { seq!['\n'] }) + seq!['>'] + (if lines[0].len() > 0 {
            seq![' '] + lines[0]
        } else {
            Seq::empty()
        }) + block_quote(lines.drop_first(), false)
    }
}

/// Object-comment body: one line stays a paragraph; several become a quote.
pub open spec fn object_body_spec(body: Seq<char>) -> Seq<char> {
    if !body.contains('\n') {
        body + "\n"@
    } else {
        block_quote(split_on(body, '\n'), true) + "\n"@
    }
}

/// Markdown block for one stored comment.
pub open spec fn block_spec(key: KeyView, entry: EntryView) -> Seq<char> {
    let tag = resolved_suffix(entry.resolved);
    let body = trim_end(entry.body);
    match key {
        KeyView::Branch { repo, branch } => "## "@ + repo + " \u{2014} branch `"@ + branch + "`"@ + tag + "\n\n"@
            + object_body_spec(body),
        KeyView::Commit { repo, sha } => "## "@ + repo + " \u{2014} commit `"@ + sha + "`"@ + tag + "\n\n"@
            + object_body_spec(body),
        KeyView::Worktree { path } => "## "@ + path + " \u{2014} worktree"@ + tag + "\n\n"@ + object_body_spec(body),
        KeyView::WorktreeLine { repo, branch, path, line, end_line } => "## "@ + repo + " \u{2014} branch `"@ + branch
            + "`\n\n"@ + "- `"@ + path + "`:"@ + line_span_spec(line, end_line) + tag + " \u{2014} "@
            + quote_continuation_spec(body) + "\n"@,
        KeyView::CommitLine { repo, sha, path, line, end_line } => "## "@ + repo + " \u{2014} commit `"@ + sha
            + "`\n\n"@ + "- `"@ + path + "`:"@ + line_span_spec(line, end_line) + tag + " \u{2014} "@
            + quote_continuation_spec(body) + "\n"@,
    }
}

/// Blocks of the first `n` entries, each after a blank line.
pub open spec fn blocks_spec(entries: Seq<(KeyView, EntryView)>) -> Seq<char>
    decreases entries.len(),
{
    if entries.len() == 0 {
        Seq::empty()
    } else {
        blocks_spec(entries.drop_last()) + "\n"@ + block_spec(entries.last().0, entries.last().1)
    }
}

/// The export: a heading, then each comment in key order (or a notice).
pub open spec fn export_spec(entries: Seq<(KeyView, EntryView)>) -> Seq<char> {
    if entries.len() == 0 {
        "# Comments\n\nNo comments.\n"@
    } else {
        let out = "# Comments\n"@ + blocks_spec(entries);
        if out.len() > 0 && out.last() == '\n' {
            out
        } else {
            out + "\n"@
        }
    }
}

fn quote_continuation_lines(body: &Vec<char>) -> (r: String)
    ensures
        r@ == quote_continuation_spec(body@),
{
    let lines = crate::text::split_chars(body.as_slice(), '\n');
    let ghost lv = crate::text::views(lines@);
    proof {
        crate::text::lemma_split_on_nonempty(body@, '\n');
    }
    let mut out = String::new();
    push_chars(&mut out, lines[0].as_slice());
    let mut i: usize = 1;
    assert(lv.skip(1) =~= lv.drop_first());
    assert(lv[0] + quoted_tail(lv.drop_first()) == out@ + quoted_tail(lv.skip(1)));
    while i < lines.len()
        invariant
            1 <= i <= lines@.len(),
            lv == crate::text::views(lines@),
            lv == split_on(body@, '\n'),
            lv[0] + quoted_tail(lv.drop_first()) == out@ + quoted_tail(lv.skip(i as int)),
        decreases lines@.len() - i,
    {
        let ghost before = out@;
        let ghost line = lv[i as int];
        push_str(&mut out, "\n  >");
        if lines[i].len() > 0 {
            push_char(&mut out, ' ');
            push_chars(&mut out, lines[i].as_slice());
        }
        proof {
            let rest = lv.skip(i as int);
            assert(rest[0] == line);
            assert(rest.drop_first() =~= lv.skip(i + 1));
            assert(quoted_tail(rest) == "\n  >"@ + (if line.len() > 0 { seq![' '] + line } else {
                Seq::<char>::empty()
            }) + quoted_tail(lv.skip(i + 1)));
            assert(out@ =~= before + "\n  >"@ + (if line.len() > 0 { seq![' '] + line } else {
                Seq::<char>::empty()
            }));
        }
        i += 1;
    }
    assert(lv.skip(i as int) =~= Seq::<Seq<char>>::empty());
    out
}

fn object_comment_body(body: &Vec<char>) -> (r: String)
    ensures
        r@ == object_body_spec(body@),
{
    let mut has_newline = false;
    let mut k: usize = 0;
    while k < body.len()
        invariant
            k <= body@.len(),
            has_newline == body@.take(k as int).contains('\n'),
        decreases body@.len() - k,
    {
        proof {
            let t0 = body@.take(k as int);
            let t1 = body@.take(k + 1);
            assert(t1 =~= t0.push(body@[k as int]));
            if t0.contains('\n') {
                let m = choose|m: int| 0 <= m < t0.len() && t0[m] == '\n';
                assert(t1[m] == '\n');
            }
            if body@[k as int] == '\n' {
                assert(t1[k as int] == '\n');
            }
            if t1.contains('\n') && body@[k as int] != '\n' {
                let m = choose|m: int| 0 <= m < t1.len() && t1[m] == '\n';
                assert(t0[m] == '\n');
            }
        }
        if body[k] == '\n' {
            has_newline = true;
        }
        k += 1;
    }
    assert(body@.take(k as int) =~= body@);
    let mut out = String::new();
    if !has_newline {
        push_chars(&mut out, body.as_slice());
        push_str(&mut out, "\n");
        return out;
    }
    let lines = crate::text::split_chars(body.as_slice(), '\n');
    let ghost lv = crate::text::views(lines@);
    let mut i: usize = 0;
    assert(lv.skip(0) =~= lv);
    while i < lines.len()
        invariant
            i <= lines@.len(),
            lv == crate::text::views(lines@),
            block_quote(lv, true) == out@ + block_quote(lv.skip(i as int), i == 0),
        decreases lines@.len() - i,
    {
        let ghost before = out@;
        let ghost line = lv[i as int];
        if i > 0 {
            push_char(&mut out, '\n');
        }
        push_char(&mut out, '>');
        if lines[i].len() > 0 {
            push_char(&mut out, ' ');
            push_chars(&mut out, lines[i].as_slice());
        }
        proof {
            let rest = lv.skip(i as int);
            assert(rest[0] == line);
            assert(rest.drop_first() =~= lv.skip(i + 1));
            assert(out@ =~= before + (if i == 0 { Seq::<char>::empty() } else { seq!['\n'] }) + seq!['>'] + (
            if line.len() > 0 {
                seq![' '] + line
            } else {
                Seq::<char>::empty()
            }));
        }
        i += 1;
    }
    assert(lv.skip(i as int) =~= Seq::<Seq<char>>::empty());
    push_str(&mut out, "\n");
    out
}

fn push_line_span(out: &mut String, line: u32, end_line: u32)
    ensures
        final(out)@ == old(out)@ + line_span_spec(line, end_line),
{
    push_decimal(out, line as u64);
    if end_line != line {
        push_str(out, "-");
        push_decimal(out, end_line as u64);
    }
    assert(final(out)@ =~= old(out)@ + line_span_spec(line, end_line));
}

#[verifier::rlimit(60)]
fn push_block(out: &mut String, key: &CommentKey, entry: &CommentEntry)
    ensures
        final(out)@ == old(out)@ + block_spec(key@, entry@),
{
    let tag = if entry.resolved { " [resolved]" } else { "" };
    proof {
        reveal_strlit("");
    }
    assert(tag@ == resolved_suffix(entry.resolved));
    let bc = str_chars(entry.body.as_str());
    let body = crate::text::trim_end_chars(bc.as_slice());
    let ghost start = out@;
    match key {
        CommentKey::Branch { repo, branch } => {
            push_str(out, "## ");
            push_str(out, repo.as_str());
            push_str(out, " \u{2014} branch `");
            push_str(out, branch.as_str());
            push_str(out, "`");
            push_str(out, tag);
            push_str(out, "\n\n");
            let b = object_comment_body(&body);
            push_str(out, b.as_str());
        },
        CommentKey::Commit { repo, sha } => {
            push_str(out, "## ");
            push_str(out, repo.as_str());
            push_str(out, " \u{2014} commit `");
            push_str(out, sha.as_str());
            push_str(out, "`");
            push_str(out, tag);
            push_str(out, "\n\n");
            let b = object_comment_body(&body);
            push_str(out, b.as_str());
        },
        CommentKey::Worktree { path } => {
            push_str(out, "## ");
            push_str(out, path.as_str());
            push_str(out, " \u{2014} worktree");
            push_str(out, tag);
            push_str(out, "\n\n");
            let b = object_comment_body(&body);
            push_str(out, b.as_str());
        },
        CommentKey::WorktreeLine { repo, branch, path, line, end_line } => {
            push_str(out, "## ");
            push_str(out, repo.as_str());
            push_str(out, " \u{2014} branch `");
            push_str(out, branch.as_str());
            push_str(out, "`\n\n");
            push_str(out, "- `");
            push_str(out, path.as_str());
            push_str(out, "`:");
            push_line_span(out, *line, *end_line);
            push_str(out, tag);
            push_str(out, " \u{2014} ");
            let q = quote_continuation_lines(&body);
            push_str(out, q.as_str());
            push_str(out, "\n");
        },
        CommentKey::CommitLine { repo, sha, path, line, end_line } => {
            push_str(out, "## ");
            push_str(out, repo.as_str());
            push_str(out, " \u{2014} commit `");
            push_str(out, sha.as_str());
            push_str(out, "`\n\n");
            push_str(out, "- `");
            push_str(out, path.as_str());
            push_str(out, "`:");
            push_line_span(out, *line, *end_line);
            push_str(out, tag);
            push_str(out, " \u{2014} ");
            let q = quote_continuation_lines(&body);
            push_str(out, q.as_str());
            push_str(out, "\n");
        },
    }
    assert(final(out)@ =~= start + block_spec(key@, entry@));
}

/// Markdown for the comments in `store`. Empty store → a short empty notice.
///
/// Resolved comments stay in the list. The heading or bullet carries
/// [`RESOLVED_MARKDOWN_TAG`] so a copy can tell resolved from open.
/// A line comment with a newline stays one bullet. Continuation lines
/// are quoted.
pub fn export_markdown(store: &CommentStore) -> (md: String)
    ensures
        md@ == export_spec(store@),
{
    if store.is_empty() {
        return crate::text::owned("# Comments\n\nNo comments.\n");
    }
    let entries = store.entries();
    let ghost ev = pair_views(entries@);
    let mut out = crate::text::owned("# Comments\n");
    let mut i: usize = 0;
    assert(ev.take(0) =~= Seq::<(KeyView, EntryView)>::empty());
    while i < entries.len()
        invariant
            i <= entries@.len(),
            ev == pair_views(entries@),
            out@ == "# Comments\n"@ + blocks_spec(ev.take(i as int)),
        decreases entries@.len() - i,
    {
        push_str(&mut out, "\n");
        push_block(&mut out, &entries[i].0, &entries[i].1);
        proof {
            assert(ev.take(i + 1).drop_last() =~= ev.take(i as int));
            assert(ev.take(i + 1).last() == (entries@[i as int].0@, entries@[i as int].1@));
        }
        i += 1;
    }
    assert(ev.take(i as int) =~= ev);
    let oc = str_chars(out.as_str());
    if !(oc.len() > 0 && oc[oc.len() - 1] == '\n') {
        push_str(&mut out, "\n");
    }
    out
}

/* ── Base64 ────────────────────────────────────────────────────────────── */

/// The base64 alphabet (RFC 4648): `A-Z a-z 0-9 + /`.
pub open spec fn b64_char(v: int) -> char {
    if v < 26 {
        (65 + v) as char
    } else if v < 52 {
        (97 + v - 26) as char
    } else if v < 62 {
        (48 + v - 52) as char
    } else if v == 62 {
        '+'
    } else {
        '/'
    }
}

/// Standard padded base64 of `data`, three bytes to four chars.
pub open spec fn base64_spec(data: Seq<u8>) -> Seq<char>
    decreases data.len(),
{
    if data.len() == 0 {
        Seq::empty()
    } else {
        let b0 = data[0] as int;
        let b1 = if data.len() > 1 { data[1] as int } else { 0 };
        let b2 = if data.len() > 2 { data[2] as int } else { 0 };
        let c0 = b64_char(b0 / 4);
        let c1 = b64_char((b0 % 4) * 16 + b1 / 16);
        let c2 = if data.len() > 1 { b64_char((b1 % 16) * 4 + b2 / 64) } else { '=' };
        let c3 = if data.len() > 2 { b64_char(b2 % 64) } else { '=' };
        seq![c0, c1, c2, c3] + if data.len() > 3 { base64_spec(data.skip(3)) } else { Seq::empty() }
    }
}

fn b64_char_exec(v: u32) -> (c: char)
    requires
        v < 64,
    ensures
        c == b64_char(v as int),
{
    if v < 26 {
        ((65 + v) as u8) as char
    } else if v < 52 {
        ((97 + v - 26) as u8) as char
    } else if v < 62 {
        ((48 + v - 52) as u8) as char
    } else if v == 62 {
        '+'
    } else {
        '/'
    }
}

/// Standard base64 (RFC 4648, `+/` alphabet, `=` padded) for OSC 52.
pub fn base64_encode(data: &[u8]) -> (s: String)
    ensures
        s@ == base64_spec(data@),
{
    let mut out = String::new();
    let mut i: usize = 0;
    assert(data@.skip(0) =~= data@);
    while i < data.len()
        invariant
            i <= data@.len(),
            base64_spec(data@) == out@ + base64_spec(data@.skip(i as int)),
        decreases data@.len() - i,
    {
        let rest = data.len() - i;
        let b0 = data[i] as u32;
        let b1: u32 = if rest > 1 { data[i + 1] as u32 } else { 0 };
        let b2: u32 = if rest > 2 { data[i + 2] as u32 } else { 0 };
        push_char(&mut out, b64_char_exec(b0 / 4));
        push_char(&mut out, b64_char_exec((b0 % 4) * 16 + b1 / 16));
        if rest > 1 {
            push_char(&mut out, b64_char_exec((b1 % 16) * 4 + b2 / 64));
        } else {
            push_char(&mut out, '=');
        }
        if rest > 2 {
            push_char(&mut out, b64_char_exec(b2 % 64));
        } else {
            push_char(&mut out, '=');
        }
        proof {
            let d = data@.skip(i as int);
            assert(d[0] == data@[i as int]);
            if rest > 1 {
                assert(d[1] == data@[i + 1]);
            }
            if rest > 2 {
                assert(d[2] == data@[i + 2]);
            }
            if rest > 3 {
                assert(d.skip(3) =~= data@.skip(i + 3));
            } else {
                assert(data@.skip(i as int + rest) =~= Seq::<u8>::empty());
            }
        }
        if rest > 3 {
            i = i + 3;
        } else {
            i = data.len();
        }
    }
    assert(data@.skip(i as int) =~= Seq::<u8>::empty());
    out
}

} // verus!
