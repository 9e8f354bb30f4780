//! Pasteable entity references for clipboard copy.

use vstd::prelude::*;

use crate::comments::store::{repo_identity, repo_identity_spec};
use crate::text::{byte_cut, byte_cut_str, cut_on_boundary, decimal, push_decimal, push_str};

verus! {

/// Git object a numbered diff is scoped to.
#[derive(Clone, Debug, PartialEq, Eq)]
pub enum DiffSource {
    /// Dirty worktree versus HEAD.
    Worktree,
    /// A commit object (`source: commit <sha>`).
    Commit { sha: String },
    /// A stash entry (`source: stash <stash-ref>`).
    Stash { stash_ref: String },
}

/// Which side of a diff the focused rows belong to.
#[derive(Clone, Copy, Debug, PartialEq, Eq)]
pub enum DiffSide {
    /// Only old/left numbers.
    Old,
    /// Only new/right numbers.
    New,
    /// Both sides, or neither (unified hunk).
    Unified,
}

/// Focused tree, graph, or diff entity for a clipboard reference.
#[derive(Clone, Debug, PartialEq, Eq)]
pub enum EntityRef {
    /// Workspace root row. `path:` is the workspace cwd. No `repo:` line.
    Workspace { path: String },
    /// File row in the workspace tree.
    File { repo: String, path: String },
    /// Directory row in the workspace tree.
    Dir { repo: String, path: String },
    /// Repo row (primary checkout).
    Repo { repo: String, path: String },
    /// Family group row. `path:` is the family root checkout.
    Family { repo: String, path: String },
    /// Linked or primary worktree row. `path:` is this checkout.
    Worktree { repo: String, path: String },
    /// Graph commit row.
    Commit { repo: String, sha: String },
    /// Local branch.
    Branch { repo: String, name: String },
    /// Graph stash row. Empty `sha` skips `sha:` and `short:`; empty
    /// `subject` skips `subject:`.
    Stash { repo: String, stash_ref: String, sha: String, subject: String },
    /// Numbered diff row or visual line range (inclusive, 1-based).
    Diff { repo: String, path: String, start_line: u32, end_line: u32, source: DiffSource, side: DiffSide },
}

/// View of an optional string slice.
pub open spec fn opt_view(s: Option<&str>) -> Option<Seq<char>> {
    match s {
        Some(t) => Some(t@),
        None => None,
    }
}

impl EntityRef {
    /// Workspace row at `path` (cwd).
    pub fn workspace(path: &str) -> (r: Self)
        ensures
            r matches EntityRef::Workspace { path: p } && p@ == path@,
    {
        EntityRef::Workspace { path: crate::text::owned(path) }
    }

    /// File row. `repo:` uses [`repo_identity`].
    pub fn file(checkout: &str, primary_repo: Option<&str>, path: &str) -> (r: Self)
        ensures
            r matches EntityRef::File { repo, path: p } && repo@ == repo_identity_spec(checkout@, opt_view(primary_repo))
                && p@ == path@,
    {
        EntityRef::File { repo: repo_identity(checkout, primary_repo), path: crate::text::owned(path) }
    }

    /// Directory row. `repo:` uses [`repo_identity`].
    pub fn dir(checkout: &str, primary_repo: Option<&str>, path: &str) -> (r: Self)
        ensures
            r matches EntityRef::Dir { repo, path: p } && repo@ == repo_identity_spec(checkout@, opt_view(primary_repo))
                && p@ == path@,
    {
        EntityRef::Dir { repo: repo_identity(checkout, primary_repo), path: crate::text::owned(path) }
    }

    /// Repo row. `repo:` uses [`repo_identity`]; `path` is the checkout.
    pub fn repo(checkout: &str, primary_repo: Option<&str>, path: &str) -> (r: Self)
        ensures
            r matches EntityRef::Repo { repo, path: p } && repo@ == repo_identity_spec(checkout@, opt_view(primary_repo))
                && p@ == path@,
    {
        EntityRef::Repo { repo: repo_identity(checkout, primary_repo), path: crate::text::owned(path) }
    }

    /// Family row. `repo:` uses [`repo_identity`]; `path` is the family root.
    pub fn family(checkout: &str, primary_repo: Option<&str>, path: &str) -> (r: Self)
        ensures
            r matches EntityRef::Family { repo, path: p } && repo@ == repo_identity_spec(
                checkout@,
                opt_view(primary_repo),
            ) && p@ == path@,
    {
        EntityRef::Family { repo: repo_identity(checkout, primary_repo), path: crate::text::owned(path) }
    }

    /// Worktree row. `repo:` uses [`repo_identity`]; `path` is this checkout.
    pub fn worktree(checkout: &str, primary_repo: Option<&str>, path: &str) -> (r: Self)
        ensures
            r matches EntityRef::Worktree { repo, path: p } && repo@ == repo_identity_spec(
                checkout@,
                opt_view(primary_repo),
            ) && p@ == path@,
    {
        EntityRef::Worktree { repo: repo_identity(checkout, primary_repo), path: crate::text::owned(path) }
    }

    /// Commit row. `repo:` uses [`repo_identity`].
    pub fn commit(checkout: &str, primary_repo: Option<&str>, sha: &str) -> (r: Self)
        ensures
            r matches EntityRef::Commit { repo, sha: s } && repo@ == repo_identity_spec(checkout@, opt_view(primary_repo))
                && s@ == sha@,
    {
        EntityRef::Commit { repo: repo_identity(checkout, primary_repo), sha: crate::text::owned(sha) }
    }

    /// Branch row. `repo:` uses [`repo_identity`].
    pub fn branch(checkout: &str, primary_repo: Option<&str>, name: &str) -> (r: Self)
        ensures
            r matches EntityRef::Branch { repo, name: n } && repo@ == repo_identity_spec(checkout@, opt_view(primary_repo))
                && n@ == name@,
    {
        EntityRef::Branch { repo: repo_identity(checkout, primary_repo), name: crate::text::owned(name) }
    }

    /// Stash row. `repo:` uses [`repo_identity`]. Empty `sha` / `subject` are omitted on format.
    pub fn stash(checkout: &str, primary_repo: Option<&str>, stash_ref: &str, sha: &str, subject: &str) -> (r: Self)
        ensures
            r matches EntityRef::Stash { repo, stash_ref: f, sha: s, subject: j } && repo@ == repo_identity_spec(
                checkout@,
                opt_view(primary_repo),
            ) && f@ == stash_ref@ && s@ == sha@ && j@ == subject@,
    {
        EntityRef::Stash {
            repo: repo_identity(checkout, primary_repo),
            stash_ref: crate::text::owned(stash_ref),
            sha: crate::text::owned(sha),
            subject: crate::text::owned(subject),
        }
    }

    /// Diff row or range. `repo:` uses [`repo_identity`].
    pub fn diff(
        checkout: &str,
        primary_repo: Option<&str>,
        path: &str,
        start_line: u32,
        end_line: u32,
        source: DiffSource,
        side: DiffSide,
    ) -> (r: Self)
        ensures
            r matches EntityRef::Diff { repo, path: p, start_line: a, end_line: b, source: s, side: d } && repo@
                == repo_identity_spec(checkout@, opt_view(primary_repo)) && p@ == path@ && a == start_line && b
                == end_line && s == source && d == side,
    {
        EntityRef::Diff {
            repo: repo_identity(checkout, primary_repo),
            path: crate::text::owned(path),
            start_line,
            end_line,
            source,
            side,
        }
    }
}

/// `key: value` and a newline.
pub open spec fn field(key: Seq<char>, value: Seq<char>) -> Seq<char> {
    key + ": "@ + value + "\n"@
}

/// First twelve bytes of a SHA (all of it when shorter).
pub open spec fn short12(sha: Seq<char>) -> Seq<char> {
    byte_cut(sha, 12)
}

/// `12` or `10-20`.
pub open spec fn line_span_spec(start: u32, end: u32) -> Seq<char> {
    if start == end {
        decimal(start as nat)
    } else {
        decimal(start as nat) + "-"@ + decimal(end as nat)
    }
}

/// `worktree`, `commit <sha>`, or `stash <ref>`.
pub open spec fn source_spec(source: DiffSource) -> Seq<char> {
    match source {
        DiffSource::Worktree => "worktree"@,
        DiffSource::Commit { sha } => "commit "@ + sha@,
        DiffSource::Stash { stash_ref } => "stash "@ + stash_ref@,
    }
}

/// `old`, `new`, or `unified`.
pub open spec fn side_spec(side: DiffSide) -> Seq<char> {
    match side {
        DiffSide::Old => "old"@,
        DiffSide::New => "new"@,
        DiffSide::Unified => "unified"@,
    }
}

/// The reference block: `kind`, `repo` (except workspace), then the extra
/// fields for that kind, one `key: value` line each.
pub open spec fn reference_spec(entity: EntityRef) -> Seq<char> {
    match entity {
        EntityRef::Workspace { path } => "kind: workspace\n"@ + field("path"@, path@),
        EntityRef::File { repo, path } => "kind: file\n"@ + field("repo"@, repo@) + field("path"@, path@),
        EntityRef::Dir { repo, path } => "kind: dir\n"@ + field("repo"@, repo@) + field("path"@, path@),
        EntityRef::Repo { repo, path } => "kind: repo\n"@ + field("repo"@, repo@) + field("path"@, path@),
        EntityRef::Family { repo, path } => "kind: family\n"@ + field("repo"@, repo@) + field("path"@, path@),
        EntityRef::Worktree { repo, path } => "kind: worktree\n"@ + field("repo"@, repo@) + field("path"@, path@),
        EntityRef::Commit { repo, sha } => "kind: commit\n"@ + field("repo"@, repo@) + field("sha"@, sha@) + field(
            "short"@,
            short12(sha@),
        ),
        EntityRef::Branch { repo, name } => "kind: branch\n"@ + field("repo"@, repo@) + field("ref"@, name@),
        EntityRef::Stash { repo, stash_ref, sha, subject } => "kind: stash\n"@ + field("repo"@, repo@) + field(
            "ref"@,
            stash_ref@,
        ) + (if sha@.len() > 0 {
            field("sha"@, sha@) + field("short"@, short12(sha@))
        } else {
            Seq::empty()
        }) + (if subject@.len() > 0 {
            field("subject"@, subject@)
        } else {
            Seq::empty()
        }),
        EntityRef::Diff { repo, path, start_line, end_line, source, side } => "kind: diff\n"@ + field("repo"@, repo@)
            + field("path"@, path@) + field("lines"@, line_span_spec(start_line, end_line)) + field(
            "source"@,
            source_spec(source),
        ) + field("side"@, side_spec(side)),
    }
}

/// The twelve-byte cut of each SHA falls on a char boundary (so it does not panic).
pub open spec fn shas_cut_ok(entity: EntityRef) -> bool {
    match entity {
        EntityRef::Commit { sha, .. } => cut_on_boundary(sha@, 12),
        EntityRef::Stash { sha, .. } => cut_on_boundary(sha@, 12),
        _ => true,
    }
}

fn push_field(out: &mut String, key: &str, value: &str)
    ensures
        final(out)@ == old(out)@ + field(key@, value@),
{
    push_str(out, key);
    push_str(out, ": ");
    push_str(out, value);
    push_str(out, "\n");
    assert(final(out)@ =~= old(out)@ + field(key@, value@));
}

fn short_sha(sha: &str) -> (r: String)
    requires
        cut_on_boundary(sha@, 12),
    ensures
        r@ == short12(sha@),
{
    byte_cut_str(sha, 12)
}

fn line_span(start: u32, end: u32) -> (r: String)
    ensures
        r@ == line_span_spec(start, end),
{
    let mut s = String::new();
    push_decimal(&mut s, start as u64);
    if start != end {
        push_str(&mut s, "-");
        push_decimal(&mut s, end as u64);
    }
    assert(s@ =~= line_span_spec(start, end));
    s
}

fn format_diff_source(source: &DiffSource) -> (r: String)
    ensures
        r@ == source_spec(*source),
{
    match source {
        DiffSource::Worktree => crate::text::owned("worktree"),
        DiffSource::Commit { sha } => {
            let mut s = crate::text::owned("commit ");
            push_str(&mut s, sha.as_str());
            s
        },
        DiffSource::Stash { stash_ref } => {
            let mut s = crate::text::owned("stash ");
            push_str(&mut s, stash_ref.as_str());
            s
        },
    }
}

fn diff_side_label(side: DiffSide) -> (r: &'static str)
    ensures
        r@ == side_spec(side),
{
    match side {
        DiffSide::Old => "old",
        DiffSide::New => "new",
        DiffSide::Unified => "unified",
    }
}

/// Format `entity` as one `key: value` block with a trailing newline.
///
/// No markdown fences. Line order is `kind`, `repo` (except workspace), then
/// the extra fields for that kind.
pub fn format_entity_reference(entity: &EntityRef) -> (out: String)
    requires
        shas_cut_ok(*entity),
    ensures
        out@ == reference_spec(*entity),
{
    let mut out = String::new();
    match entity {
        EntityRef::Workspace { path } => {
            push_str(&mut out, "kind: workspace\n");
            push_field(&mut out, "path", path.as_str());
        },
        EntityRef::File { repo, path } => {
            push_str(&mut out, "kind: file\n");
            push_field(&mut out, "repo", repo.as_str());
            push_field(&mut out, "path", path.as_str());
        },
        EntityRef::Dir { repo, path } => {
            push_str(&mut out, "kind: dir\n");
            push_field(&mut out, "repo", repo.as_str());
            push_field(&mut out, "path", path.as_str());
        },
        EntityRef::Repo { repo, path } => {
            push_str(&mut out, "kind: repo\n");
            push_field(&mut out, "repo", repo.as_str());
            push_field(&mut out, "path", path.as_str());
        },
        EntityRef::Family { repo, path } => {
            push_str(&mut out, "kind: family\n");
            push_field(&mut out, "repo", repo.as_str());
            push_field(&mut out, "path", path.as_str());
        },
        EntityRef::Worktree { repo, path } => {
            push_str(&mut out, "kind: worktree\n");
            push_field(&mut out, "repo", repo.as_str());
            push_field(&mut out, "path", path.as_str());
        },
        EntityRef::Commit { repo, sha } => {
            push_str(&mut out, "kind: commit\n");
            push_field(&mut out, "repo", repo.as_str());
            push_field(&mut out, "sha", sha.as_str());
            let s = short_sha(sha.as_str());
            push_field(&mut out, "short", s.as_str());
        },
        EntityRef::Branch { repo, name } => {
            push_str(&mut out, "kind: branch\n");
            push_field(&mut out, "repo", repo.as_str());
            push_field(&mut out, "ref", name.as_str());
        },
        EntityRef::Stash { repo, stash_ref, sha, subject } => {
            push_str(&mut out, "kind: stash\n");
            push_field(&mut out, "repo", repo.as_str());
            push_field(&mut out, "ref", stash_ref.as_str());
            let ghost head = out@;
            if !sha.as_str().is_empty() {
                push_field(&mut out, "sha", sha.as_str());
                let s = short_sha(sha.as_str());
                push_field(&mut out, "short", s.as_str());
            }
            let ghost mid = out@;
            if !subject.as_str().is_empty() {
                push_field(&mut out, "subject", subject.as_str());
            }
            assert(out@ =~= reference_spec(*entity));
        },
        EntityRef::Diff { repo, path, start_line, end_line, source, side } => {
            push_str(&mut out, "kind: diff\n");
            push_field(&mut out, "repo", repo.as_str());
            push_field(&mut out, "path", path.as_str());
            let l = line_span(*start_line, *end_line);
            push_field(&mut out, "lines", l.as_str());
            let s = format_diff_source(source);
            push_field(&mut out, "source", s.as_str());
            push_field(&mut out, "side", diff_side_label(*side));
        },
    }
    assert(out@ =~= reference_spec(*entity));
    out
}

} // verus!
