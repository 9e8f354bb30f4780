//! Commit-file directory forest: the same collapse as the workspace change
//! forest, built from the file list of a commit, stash, or the worktree.
//!
//! Painting a row (icon, status badge) is the binary's job; this module
//! decides which rows exist, in what order, at what depth, and which fold.

use vstd::prelude::*;

use crate::drill::CommitFile;
use crate::order::{lemma_lt_total, lemma_lt_transitive, seq_lt, str_lt};
use crate::path::{base_name, base_name_spec};
use crate::text::{push_str, split_chars, split_on, str_chars, str_eq, string_from_chars, string_views, views};

verus! {

/// Kind of one painted commit-file row.
#[derive(Clone, Copy, Debug, PartialEq, Eq)]
pub enum CommitFileRowKind {
    Dir,
    File,
}

/// Dir or file node in the commit-file forest.
#[derive(Debug)]
pub struct CommitFileNode {
    pub id: String,
    pub kind: CommitFileRowKind,
    pub label: String,
    pub path: String,
    pub file: Option<CommitFile>,
    pub children: Vec<CommitFileNode>,
}

/// A forest node as plain values.
pub struct NodeView {
    pub id: Seq<char>,
    pub kind: CommitFileRowKind,
    pub label: Seq<char>,
    pub path: Seq<char>,
    pub file: Option<CommitFile>,
    pub children: Seq<NodeView>,
}

/// View of one node.
pub open spec fn node_view(n: CommitFileNode) -> NodeView
    decreases n, 0int,
{
    NodeView {
        id: n.id@,
        kind: n.kind,
        label: n.label@,
        path: n.path@,
        file: n.file,
        children: nodes_view(n.children@),
    }
}

/// Views of a list of nodes.
pub open spec fn nodes_view(s: Seq<CommitFileNode>) -> Seq<NodeView>
    decreases s, s.len(),
{
    if s.len() == 0 {
        Seq::empty()
    } else {
        nodes_view(s.drop_last()).push(node_view(s.last()))
    }
}


/* ── The forest, as values ─────────────────────────────────────────────── */

/// Non-empty pieces, in order.
pub open spec fn drop_empty(ps: Seq<Seq<char>>) -> Seq<Seq<char>>
    decreases ps.len(),
{
    if ps.len() == 0 {
        Seq::empty()
    } else {
        let r = drop_empty(ps.drop_last());
        if ps.last().len() > 0 {
            r.push(ps.last())
        } else {
            r
        }
    }
}

/// Non-empty `/`-separated pieces of a path.
pub open spec fn path_parts(path: Seq<char>) -> Seq<Seq<char>> {
    drop_empty(split_on(path, '/'))
}

/// A file still to place: the directories left above it, and the file.
pub type Entry = (Seq<Seq<char>>, CommitFile);

/// Entries of the files that have a name: directories are all pieces but the last.
pub open spec fn entries_of(files: Seq<CommitFile>) -> Seq<Entry>
    decreases files.len(),
{
    if files.len() == 0 {
        Seq::empty()
    } else {
        let r = entries_of(files.drop_last());
        let parts = path_parts(files.last().path@);
        if parts.len() > 0 {
            r.push((parts.drop_last(), files.last()))
        } else {
            r
        }
    }
}

/// Deepest directory nesting among the entries.
pub open spec fn max_depth(es: Seq<Entry>) -> nat
    decreases es.len(),
{
    if es.len() == 0 {
        0
    } else {
        let m = max_depth(es.drop_last());
        if es.last().0.len() > m { es.last().0.len() } else { m }
    }
}

/// Files placed directly at this level, in input order.
pub open spec fn here_files(es: Seq<Entry>) -> Seq<CommitFile>
    decreases es.len(),
{
    if es.len() == 0 {
        Seq::empty()
    } else {
        let r = here_files(es.drop_last());
        if es.last().0.len() == 0 {
            r.push(es.last().1)
        } else {
            r
        }
    }
}

/// Where `f` goes in `s`: after every file whose path is not greater.
pub open spec fn file_slot(s: Seq<CommitFile>, f: CommitFile) -> int
    decreases s.len(),
{
    if s.len() == 0 {
        0
    } else if seq_lt(f.path@, s.last().path@) {
        file_slot(s.drop_last(), f)
    } else {
        s.len() as int
    }
}

/// Files sorted by path; equal paths keep their input order.
pub open spec fn sort_files(fs: Seq<CommitFile>) -> Seq<CommitFile>
    decreases fs.len(),
{
    if fs.len() == 0 {
        Seq::empty()
    } else {
        let s = sort_files(fs.drop_last());
        s.insert(file_slot(s, fs.last()), fs.last())
    }
}

/// First directory names below this level, each once, in order of appearance.
pub open spec fn first_names(es: Seq<Entry>) -> Seq<Seq<char>>
    decreases es.len(),
{
    if es.len() == 0 {
        Seq::empty()
    } else {
        let r = first_names(es.drop_last());
        let e = es.last();
        if e.0.len() > 0 && !r.contains(e.0[0]) {
            r.push(e.0[0])
        } else {
            r
        }
    }
}

/// Entries under directory `name`, that directory taken off.
pub open spec fn strip_group(es: Seq<Entry>, name: Seq<char>) -> Seq<Entry>
    decreases es.len(),
{
    if es.len() == 0 {
        Seq::empty()
    } else {
        let r = strip_group(es.drop_last(), name);
        let e = es.last();
        if e.0.len() > 0 && e.0[0] == name {
            r.push((e.0.drop_first(), e.1))
        } else {
            r
        }
    }
}

/// A directory that holds no file and exactly one directory merges with it
/// (`src` + `foo` shows as `src/foo`).
pub open spec fn collapse(name: Seq<char>, es: Seq<Entry>, fuel: nat) -> (Seq<char>, Seq<Entry>)
    decreases fuel,
{
    if fuel > 0 && here_files(es).len() == 0 && first_names(es).len() == 1 {
        let d = first_names(es)[0];
        collapse(name + "/"@ + d, strip_group(es, d), (fuel - 1) as nat)
    } else {
        (name, es)
    }
}

/// Collapsed directory groups, in order of appearance.
pub open spec fn groups_of(es: Seq<Entry>, names: Seq<Seq<char>>, fuel: nat) -> Seq<(Seq<char>, Seq<Entry>)>
    decreases names.len(),
{
    if names.len() == 0 {
        Seq::empty()
    } else {
        groups_of(es, names.drop_last(), fuel).push(collapse(names.last(), strip_group(es, names.last()), fuel))
    }
}

/// Where group `g` goes in `s`: after every group whose name is not greater.
pub open spec fn group_slot(s: Seq<(Seq<char>, Seq<Entry>)>, g: (Seq<char>, Seq<Entry>)) -> int
    decreases s.len(),
{
    if s.len() == 0 {
        0
    } else if seq_lt(g.0, s.last().0) {
        group_slot(s.drop_last(), g)
    } else {
        s.len() as int
    }
}

/// Groups sorted by collapsed name.
pub open spec fn sort_groups(gs: Seq<(Seq<char>, Seq<Entry>)>) -> Seq<(Seq<char>, Seq<Entry>)>
    decreases gs.len(),
{
    if gs.len() == 0 {
        Seq::empty()
    } else {
        let s = sort_groups(gs.drop_last());
        s.insert(group_slot(s, gs.last()), gs.last())
    }
}

/// `dir/name`, or `name` at the top.
pub open spec fn join_path(dir: Seq<char>, name: Seq<char>) -> Seq<char> {
    if dir.len() == 0 { name } else { dir + "/"@ + name }
}

/// Node of one file: tree mode labels it by its base name, flat mode by its path.
pub open spec fn file_node(f: CommitFile, tree_mode: bool) -> NodeView {
    NodeView {
        id: "file:"@ + f.path@,
        kind: CommitFileRowKind::File,
        label: if tree_mode { base_name_spec(f.path@) } else { f.path@ },
        path: f.path@,
        file: Some(f),
        children: Seq::empty(),
    }
}

/// Tree-mode file nodes.
pub open spec fn file_nodes(fs: Seq<CommitFile>) -> Seq<NodeView> {
    fs.map_values(|f: CommitFile| file_node(f, true))
}

/// Nodes of one level under `dir`: directories sorted by collapsed name,
/// then the files here sorted by path.
pub open spec fn level_spec(es: Seq<Entry>, dir: Seq<char>, fuel: nat) -> Seq<NodeView>
    decreases fuel, 0int,
{
    if fuel == 0 {
        file_nodes(sort_files(here_files(es)))
    } else {
        let groups = sort_groups(groups_of(es, first_names(es), (fuel - 1) as nat));
        dir_nodes(groups, dir, (fuel - 1) as nat) + file_nodes(sort_files(here_files(es)))
    }
}

/// Directory nodes of the groups under `dir`.
pub open spec fn dir_nodes(gs: Seq<(Seq<char>, Seq<Entry>)>, dir: Seq<char>, fuel: nat) -> Seq<NodeView>
    decreases fuel, gs.len(),
{
    if gs.len() == 0 {
        Seq::empty()
    } else {
        let g = gs.last();
        let full = join_path(dir, g.0);
        dir_nodes(gs.drop_last(), dir, fuel).push(
            NodeView {
                id: "dir:"@ + full,
                kind: CommitFileRowKind::Dir,
                label: g.0,
                path: full,
                file: None,
                children: level_spec(g.1, full, fuel),
            },
        )
    }
}

/// The forest of a file list: flat mode lists every file by path in input
/// order; tree mode nests files under their (collapsed) directories.
pub open spec fn forest_spec(files: Seq<CommitFile>, tree_mode: bool) -> Seq<NodeView> {
    if !tree_mode {
        files.map_values(|f: CommitFile| file_node(f, false))
    } else {
        let es = entries_of(files);
        level_spec(es, Seq::empty(), max_depth(es))
    }
}


/* ── Building the forest ───────────────────────────────────────────────── */

/// An entry being placed: directories left, and the file.
type ExecEntry = (Vec<String>, CommitFile);

/// Views of exec entries.
pub open spec fn entry_views(v: Seq<(Vec<String>, CommitFile)>) -> Seq<Entry> {
    v.map_values(|e: (Vec<String>, CommitFile)| (string_views(e.0@), e.1))
}

fn copy_file(f: &CommitFile) -> (r: CommitFile)
    ensures
        r == *f,
{
    CommitFile {
        status: f.status.clone(),
        path: f.path.clone(),
        old_path: match &f.old_path {
            Some(p) => Some(p.clone()),
            None => None,
        },
    }
}

fn copy_strings(v: &Vec<String>, from: usize) -> (r: Vec<String>)
    requires
        from <= v@.len(),
    ensures
        string_views(r@) == string_views(v@).skip(from as int),
{
    let mut r: Vec<String> = Vec::new();
    let mut i: usize = from;
    let ghost sv = string_views(v@);
    assert(sv.skip(from as int).take(0) =~= Seq::<Seq<char>>::empty());
    while i < v.len()
        invariant
            from <= i <= v@.len(),
            sv == string_views(v@),
            string_views(r@) == sv.skip(from as int).take(i - from),
        decreases v@.len() - i,
    {
        let ghost before = string_views(r@);
        r.push(v[i].clone());
        assert(string_views(r@) =~= before.push(sv[i as int]));
        assert(sv.skip(from as int).take(i - from + 1) =~= sv.skip(from as int).take(i - from).push(sv[i as int]));
        i += 1;
    }
    assert(sv.skip(from as int).take(i - from) =~= sv.skip(from as int));
    r
}

fn copy_entry(e: &ExecEntry, from: usize) -> (r: ExecEntry)
    requires
        from <= e.0@.len(),
    ensures
        string_views(r.0@) == string_views(e.0@).skip(from as int),
        r.1 == e.1,
{
    (copy_strings(&e.0, from), copy_file(&e.1))
}

fn contains_str(v: &Vec<String>, x: &str) -> (b: bool)
    ensures
        b == string_views(v@).contains(x@),
{
    let ghost sv = string_views(v@);
    let mut i: usize = 0;
    while i < v.len()
        invariant
            i <= v@.len(),
            sv == string_views(v@),
            forall|k: int| 0 <= k < i ==> sv[k] != x@,
        decreases v@.len() - i,
    {
        assert(sv[i as int] == v@[i as int]@);
        if str_eq(v[i].as_str(), x) {
            return true;
        }
        i += 1;
    }
    false
}

/// Non-empty `/`-separated pieces of `path`.
fn path_parts_exec(path: &str) -> (r: Vec<String>)
    ensures
        string_views(r@) == path_parts(path@),
{
    let chars = str_chars(path);
    let pieces = split_chars(chars.as_slice(), '/');
    let ghost ps = views(pieces@);
    let mut r: Vec<String> = Vec::new();
    let mut i: usize = 0;
    assert(ps.take(0) =~= Seq::<Seq<char>>::empty());
    while i < pieces.len()
        invariant
            i <= pieces@.len(),
            ps == views(pieces@),
            string_views(r@) == drop_empty(ps.take(i as int)),
        decreases pieces@.len() - i,
    {
        assert(ps.take(i + 1).drop_last() =~= ps.take(i as int));
        assert(ps.take(i + 1).last() == pieces@[i as int]@);
        if pieces[i].len() > 0 {
            let ghost before = string_views(r@);
            r.push(string_from_chars(pieces[i].as_slice()));
            assert(string_views(r@) =~= before.push(pieces@[i as int]@));
        }
        i += 1;
    }
    assert(ps.take(i as int) =~= ps);
    r
}

fn entries_exec(files: &[CommitFile]) -> (r: Vec<ExecEntry>)
    ensures
        entry_views(r@) == entries_of(files@),
{
    let mut r: Vec<ExecEntry> = Vec::new();
    let mut i: usize = 0;
    assert(files@.take(0) =~= Seq::<CommitFile>::empty());
    while i < files.len()
        invariant
            i <= files@.len(),
            entry_views(r@) == entries_of(files@.take(i as int)),
        decreases files@.len() - i,
    {
        assert(files@.take(i + 1).drop_last() =~= files@.take(i as int));
        assert(files@.take(i + 1).last() == files@[i as int]);
        let mut parts = path_parts_exec(files[i].path.as_str());
        if parts.len() > 0 {
            let ghost pv = string_views(parts@);
            parts.pop();
            assert(string_views(parts@) =~= pv.drop_last());
            let ghost before = entry_views(r@);
            r.push((parts, copy_file(&files[i])));
            assert(entry_views(r@) =~= before.push((pv.drop_last(), files@[i as int])));
        }
        i += 1;
    }
    assert(files@.take(i as int) =~= files@);
    r
}

fn max_depth_exec(es: &Vec<ExecEntry>) -> (r: usize)
    ensures
        r == max_depth(entry_views(es@)),
{
    let ghost ev = entry_views(es@);
    let mut m: usize = 0;
    let mut i: usize = 0;
    assert(ev.take(0) =~= Seq::<Entry>::empty());
    while i < es.len()
        invariant
            i <= es@.len(),
            ev == entry_views(es@),
            m == max_depth(ev.take(i as int)),
        decreases es@.len() - i,
    {
        assert(ev.take(i + 1).drop_last() =~= ev.take(i as int));
        assert(ev.take(i + 1).last() == ev[i as int]);
        if es[i].0.len() > m {
            m = es[i].0.len();
        }
        i += 1;
    }
    assert(ev.take(i as int) =~= ev);
    m
}

fn here_files_exec(es: &Vec<ExecEntry>) -> (r: Vec<CommitFile>)
    ensures
        r@ == here_files(entry_views(es@)),
{
    let ghost ev = entry_views(es@);
    let mut r: Vec<CommitFile> = Vec::new();
    let mut i: usize = 0;
    assert(ev.take(0) =~= Seq::<Entry>::empty());
    while i < es.len()
        invariant
            i <= es@.len(),
            ev == entry_views(es@),
            r@ == here_files(ev.take(i as int)),
        decreases es@.len() - i,
    {
        assert(ev.take(i + 1).drop_last() =~= ev.take(i as int));
        assert(ev.take(i + 1).last() == ev[i as int]);
        if es[i].0.len() == 0 {
            r.push(copy_file(&es[i].1));
        }
        i += 1;
    }
    assert(ev.take(i as int) =~= ev);
    r
}

fn sort_files_exec(fs: Vec<CommitFile>) -> (r: Vec<CommitFile>)
    ensures
        r@ == sort_files(fs@),
{
    let mut out: Vec<CommitFile> = Vec::new();
    let mut i: usize = 0;
    assert(fs@.take(0) =~= Seq::<CommitFile>::empty());
    while i < fs.len()
        invariant
            i <= fs@.len(),
            out@ == sort_files(fs@.take(i as int)),
        decreases fs@.len() - i,
    {
        assert(fs@.take(i + 1).drop_last() =~= fs@.take(i as int));
        assert(fs@.take(i + 1).last() == fs@[i as int]);
        let f = copy_file(&fs[i]);
        let mut j: usize = out.len();
        assert(out@.take(j as int) =~= out@);
        while j > 0 && str_lt(f.path.as_str(), out[j - 1].path.as_str())
            invariant
                j <= out@.len(),
                file_slot(out@, f) == file_slot(out@.take(j as int), f),
            decreases j,
        {
            assert(out@.take(j as int).drop_last() =~= out@.take(j - 1));
            j -= 1;
        }
        out.insert(j, f);
        i += 1;
    }
    assert(fs@.take(i as int) =~= fs@);
    out
}


fn first_names_exec(es: &Vec<ExecEntry>) -> (r: Vec<String>)
    ensures
        string_views(r@) == first_names(entry_views(es@)),
{
    let ghost ev = entry_views(es@);
    let mut r: Vec<String> = Vec::new();
    let mut i: usize = 0;
    assert(ev.take(0) =~= Seq::<Entry>::empty());
    while i < es.len()
        invariant
            i <= es@.len(),
            ev == entry_views(es@),
            string_views(r@) == first_names(ev.take(i as int)),
        decreases es@.len() - i,
    {
        assert(ev.take(i + 1).drop_last() =~= ev.take(i as int));
        assert(ev.take(i + 1).last() == ev[i as int]);
        let dirs = &es[i].0;
        if dirs.len() > 0 {
            assert(ev[i as int].0[0] == dirs@[0]@);
            if !contains_str(&r, dirs[0].as_str()) {
                let ghost before = string_views(r@);
                r.push(dirs[0].clone());
                assert(string_views(r@) =~= before.push(dirs@[0]@));
            }
        }
        i += 1;
    }
    assert(ev.take(i as int) =~= ev);
    r
}

fn strip_group_exec(es: &Vec<ExecEntry>, name: &str) -> (r: Vec<ExecEntry>)
    ensures
        entry_views(r@) == strip_group(entry_views(es@), name@),
{
    let ghost ev = entry_views(es@);
    let mut r: Vec<ExecEntry> = Vec::new();
    let mut i: usize = 0;
    assert(ev.take(0) =~= Seq::<Entry>::empty());
    while i < es.len()
        invariant
            i <= es@.len(),
            ev == entry_views(es@),
            entry_views(r@) == strip_group(ev.take(i as int), name@),
        decreases es@.len() - i,
    {
        assert(ev.take(i + 1).drop_last() =~= ev.take(i as int));
        assert(ev.take(i + 1).last() == ev[i as int]);
        let e = &es[i];
        if e.0.len() > 0 && str_eq(e.0[0].as_str(), name) {
            assert(ev[i as int].0[0] == e.0@[0]@);
            let c = copy_entry(e, 1);
            let ghost before = entry_views(r@);
            r.push(c);
            assert(string_views(e.0@).skip(1) =~= string_views(e.0@).drop_first());
            assert(entry_views(r@) =~= before.push((ev[i as int].0.drop_first(), ev[i as int].1)));
        } else if e.0.len() > 0 {
            assert(ev[i as int].0[0] == e.0@[0]@);
        }
        i += 1;
    }
    assert(ev.take(i as int) =~= ev);
    r
}

fn collapse_exec(name0: String, es0: Vec<ExecEntry>, fuel0: usize) -> (r: (String, Vec<ExecEntry>))
    ensures
        (r.0@, entry_views(r.1@)) == collapse(name0@, entry_views(es0@), fuel0 as nat),
{
    let mut name = name0;
    let mut es = es0;
    let mut fuel = fuel0;
    loop
        invariant
            collapse(name0@, entry_views(es0@), fuel0 as nat) == collapse(name@, entry_views(es@), fuel as nat),
        decreases fuel,
    {
        if fuel == 0 {
            return (name, es);
        }
        let here = here_files_exec(&es);
        let names = first_names_exec(&es);
        if here.len() != 0 || names.len() != 1 {
            return (name, es);
        }
        let d = names[0].clone();
        let next = strip_group_exec(&es, d.as_str());
        push_str(&mut name, "/");
        push_str(&mut name, d.as_str());
        es = next;
        fuel = fuel - 1;
    }
}

/// Collapsed groups in order of appearance.
fn groups_exec(es: &Vec<ExecEntry>, fuel: usize) -> (r: Vec<(String, Vec<ExecEntry>)>)
    ensures
        r@.map_values(|g: (String, Vec<ExecEntry>)| (g.0@, entry_views(g.1@))) == groups_of(
            entry_views(es@),
            first_names(entry_views(es@)),
            fuel as nat,
        ),
{
    let names = first_names_exec(es);
    let ghost nv = string_views(names@);
    let ghost ev = entry_views(es@);
    let mut r: Vec<(String, Vec<ExecEntry>)> = Vec::new();
    let mut i: usize = 0;
    assert(nv.take(0) =~= Seq::<Seq<char>>::empty());
    while i < names.len()
        invariant
            i <= names@.len(),
            nv == string_views(names@),
            ev == entry_views(es@),
            r@.map_values(|g: (String, Vec<ExecEntry>)| (g.0@, entry_views(g.1@))) == groups_of(ev, nv.take(i as int), fuel as nat),
        decreases names@.len() - i,
    {
        assert(nv.take(i + 1).drop_last() =~= nv.take(i as int));
        assert(nv.take(i + 1).last() == names@[i as int]@);
        let sub = strip_group_exec(es, names[i].as_str());
        let g = collapse_exec(names[i].clone(), sub, fuel);
        let ghost before = r@.map_values(|g: (String, Vec<ExecEntry>)| (g.0@, entry_views(g.1@)));
        let ghost gv = (g.0@, entry_views(g.1@));
        r.push(g);
        assert(r@.map_values(|g: (String, Vec<ExecEntry>)| (g.0@, entry_views(g.1@))) =~= before.push(gv));
        i += 1;
    }
    assert(nv.take(i as int) =~= nv);
    r
}

/// Views of exec groups.
pub open spec fn group_views(v: Seq<(String, Vec<(Vec<String>, CommitFile)>)>) -> Seq<(Seq<char>, Seq<Entry>)> {
    v.map_values(|g: (String, Vec<(Vec<String>, CommitFile)>)| (g.0@, entry_views(g.1@)))
}

fn sort_groups_exec(gs: Vec<(String, Vec<ExecEntry>)>) -> (r: Vec<(String, Vec<ExecEntry>)>)
    ensures
        group_views(r@) == sort_groups(group_views(gs@)),
{
    let ghost gv = group_views(gs@);
    let mut gs = gs;
    let mut rev: Vec<(String, Vec<ExecEntry>)> = Vec::new();
    // Take the groups off the back, so they can be moved in front-to-back order.
    while gs.len() > 0
        invariant
            gv == group_views(gs@) + group_views(rev@).reverse(),
        decreases gs@.len(),
    {
        let ghost g0 = group_views(gs@);
        let ghost r0 = group_views(rev@);
        let g = gs.pop().unwrap();
        rev.push(g);
        assert(group_views(gs@) =~= g0.drop_last());
        assert(group_views(rev@) =~= r0.push(g0.last()));
        assert(g0 =~= g0.drop_last().push(g0.last()));
        assert(r0.push(g0.last()).reverse() =~= seq![g0.last()] + r0.reverse());
        assert(gv =~= group_views(gs@) + group_views(rev@).reverse());
    }
    assert(gv =~= group_views(rev@).reverse());
    let n = rev.len();
    let mut out: Vec<(String, Vec<ExecEntry>)> = Vec::new();
    let mut i: usize = 0;
    assert(gv.take(0) =~= Seq::<(Seq<char>, Seq<Entry>)>::empty());
    while rev.len() > 0
        invariant
            i + rev@.len() == n,
            n == gv.len(),
            gv.skip(i as int) =~= group_views(rev@).reverse(),
            group_views(out@) == sort_groups(gv.take(i as int)),
        decreases rev@.len(),
    {
        let ghost r0 = group_views(rev@);
        let g = rev.pop().unwrap();
        assert(group_views(rev@) =~= r0.drop_last());
        assert(gv[i as int] == gv.skip(i as int)[0]);
        assert(r0.reverse()[0] == r0.last());
        let ghost gvi = (g.0@, entry_views(g.1@));
        assert(gvi == gv[i as int]);
        assert(gv.take(i + 1).drop_last() =~= gv.take(i as int));
        assert(gv.take(i + 1).last() == gv[i as int]);
        assert(gv.skip(i + 1) =~= gv.skip(i as int).drop_first());
        assert(r0.drop_last().reverse() =~= r0.reverse().drop_first());
        let mut j: usize = out.len();
        let ghost ov = group_views(out@);
        assert(ov.take(j as int) =~= ov);
        while j > 0 && str_lt(g.0.as_str(), out[j - 1].0.as_str())
            invariant
                j <= out@.len(),
                ov == group_views(out@),
                gvi.0 == g.0@,
                group_slot(ov, gvi) == group_slot(ov.take(j as int), gvi),
            decreases j,
        {
            assert(ov[j - 1].0 == out@[j - 1].0@);
            assert(ov.take(j as int).drop_last() =~= ov.take(j - 1));
            assert(ov.take(j as int).last() == ov[j - 1]);
            j -= 1;
        }
        assert(j > 0 ==> ov.take(j as int).last() == ov[j - 1]);
        assert(j > 0 ==> ov[j - 1].0 == out@[j - 1].0@);
        out.insert(j, g);
        assert(group_views(out@) =~= ov.insert(j as int, gvi));
        i += 1;
    }
    assert(gv.take(i as int) =~= gv);
    out
}


fn make_file_node(f: &CommitFile, tree_mode: bool) -> (r: CommitFileNode)
    ensures
        node_view(r) == file_node(*f, tree_mode),
{
    let mut id = String::new();
    push_str(&mut id, "file:");
    push_str(&mut id, f.path.as_str());
    let label = if tree_mode { base_name(f.path.as_str()) } else { f.path.clone() };
    let r = CommitFileNode {
        id,
        kind: CommitFileRowKind::File,
        label,
        path: f.path.clone(),
        file: Some(copy_file(f)),
        children: Vec::new(),
    };
    assert(nodes_view(r.children@) =~= Seq::<NodeView>::empty());
    r
}

proof fn lemma_nodes_view_push(s: Seq<CommitFileNode>, n: CommitFileNode)
    ensures
        nodes_view(s.push(n)) == nodes_view(s).push(node_view(n)),
{
    assert(s.push(n).drop_last() =~= s);
}

fn push_file_nodes(out: &mut Vec<CommitFileNode>, files: &Vec<CommitFile>, tree_mode: bool)
    ensures
        nodes_view(final(out)@) == nodes_view(old(out)@) + files@.map_values(|f: CommitFile| file_node(f, tree_mode)),
{
    let ghost start = nodes_view(out@);
    let ghost fv = files@.map_values(|f: CommitFile| file_node(f, tree_mode));
    let mut k: usize = 0;
    assert(start + fv.take(0) =~= start);
    while k < files.len()
        invariant
            k <= files@.len(),
            fv == files@.map_values(|f: CommitFile| file_node(f, tree_mode)),
            nodes_view(out@) == start + fv.take(k as int),
        decreases files@.len() - k,
    {
        let n = make_file_node(&files[k], tree_mode);
        proof {
            lemma_nodes_view_push(out@, n);
        }
        out.push(n);
        assert(start + fv.take(k + 1) =~= (start + fv.take(k as int)).push(fv[k as int]));
        k += 1;
    }
    assert(fv.take(k as int) =~= fv);
}

fn join_path_exec(dir: &str, name: &str) -> (r: String)
    ensures
        r@ == join_path(dir@, name@),
{
    let mut r = crate::text::owned(dir);
    if !dir.is_empty() {
        push_str(&mut r, "/");
    }
    push_str(&mut r, name);
    proof {
        if dir@.len() == 0 {
            assert(r@ =~= name@);
        }
    }
    r
}

fn level(es: &Vec<ExecEntry>, dir: &str, fuel: usize) -> (r: Vec<CommitFileNode>)
    ensures
        nodes_view(r@) == level_spec(entry_views(es@), dir@, fuel as nat),
    decreases fuel,
{
    let files = sort_files_exec(here_files_exec(es));
    let mut out: Vec<CommitFileNode> = Vec::new();
    assert(nodes_view(out@) =~= Seq::<NodeView>::empty());
    if fuel > 0 {
        let groups = sort_groups_exec(groups_exec(es, fuel - 1));
        let ghost gv = group_views(groups@);
        let mut i: usize = 0;
        assert(gv.take(0) =~= Seq::<(Seq<char>, Seq<Entry>)>::empty());
        while i < groups.len()
            invariant
                i <= groups@.len(),
                fuel > 0,
                gv == group_views(groups@),
                nodes_view(out@) == dir_nodes(gv.take(i as int), dir@, (fuel - 1) as nat),
            decreases groups@.len() - i,
        {
            let g = &groups[i];
            assert(gv[i as int] == (g.0@, entry_views(g.1@)));
            let full = join_path_exec(dir, g.0.as_str());
            let children = level(&g.1, full.as_str(), fuel - 1);
            let mut id = String::new();
            push_str(&mut id, "dir:");
            push_str(&mut id, full.as_str());
            let n = CommitFileNode {
                id,
                kind: CommitFileRowKind::Dir,
                label: g.0.clone(),
                path: full,
                file: None,
                children,
            };
            proof {
                lemma_nodes_view_push(out@, n);
            }
            out.push(n);
            assert(gv.take(i + 1).drop_last() =~= gv.take(i as int));
            assert(gv.take(i + 1).last() == gv[i as int]);
            i += 1;
        }
        assert(gv.take(i as int) =~= gv);
    }
    push_file_nodes(&mut out, &files, true);
    out
}

/// Dir / file forest for a commit, stash, or worktree file list.
pub fn materialize_commit_file_forest(files: &[CommitFile], tree_mode: bool) -> (r: Vec<CommitFileNode>)
    ensures
        nodes_view(r@) == forest_spec(files@, tree_mode),
{
    if !tree_mode {
        let mut out: Vec<CommitFileNode> = Vec::new();
        assert(nodes_view(out@) =~= Seq::<NodeView>::empty());
        let mut k: usize = 0;
        let ghost fv = files@.map_values(|f: CommitFile| file_node(f, false));
        while k < files.len()
            invariant
                k <= files@.len(),
                fv == files@.map_values(|f: CommitFile| file_node(f, false)),
                nodes_view(out@) == fv.take(k as int),
            decreases files@.len() - k,
        {
            let n = make_file_node(&files[k], false);
            proof {
                lemma_nodes_view_push(out@, n);
            }
            out.push(n);
            assert(fv.take(k + 1) =~= fv.take(k as int).push(fv[k as int]));
            k += 1;
        }
        assert(fv.take(k as int) =~= fv);
        return out;
    }
    let es = entries_exec(files);
    let fuel = max_depth_exec(&es);
    proof {
        reveal_strlit("");
    }
    let r = level(&es, "", fuel);
    assert(""@ =~= Seq::<char>::empty());
    r
}


proof fn lemma_nodes_view_index(s: Seq<CommitFileNode>)
    ensures
        nodes_view(s).len() == s.len(),
        forall|i: int| 0 <= i < s.len() ==> #[trigger] nodes_view(s)[i] == node_view(s[i]),
    decreases s.len(),
{
    if s.len() > 0 {
        lemma_nodes_view_index(s.drop_last());
        assert forall|i: int| 0 <= i < s.len() implies #[trigger] nodes_view(s)[i] == node_view(s[i]) by {
            if i < s.len() - 1 {
                assert(s.drop_last()[i] == s[i]);
            }
        }
    }
}

/* ── Flattened rows ────────────────────────────────────────────────────── */

/// One painted commit-file row after fold.
#[derive(Clone, Debug, PartialEq, Eq)]
pub struct CommitFileRow {
    pub id: String,
    pub depth: usize,
    pub kind: CommitFileRowKind,
    /// The node's own name: collapsed directory, base name, or full path (flat).
    pub name: String,
    pub path: String,
    pub foldable: bool,
    pub folded: bool,
    pub file: Option<CommitFile>,
}

impl CommitFileRow {
    pub fn is_dir(&self) -> (b: bool)
        ensures
            b == (self.kind is Dir),
    {
        match self.kind {
            CommitFileRowKind::Dir => true,
            CommitFileRowKind::File => false,
        }
    }

    pub fn is_file(&self) -> (b: bool)
        ensures
            b == (self.kind is File),
    {
        match self.kind {
            CommitFileRowKind::Dir => false,
            CommitFileRowKind::File => true,
        }
    }
}

/// A row as plain values.
pub struct RowView {
    pub id: Seq<char>,
    pub depth: usize,
    pub kind: CommitFileRowKind,
    pub name: Seq<char>,
    pub path: Seq<char>,
    pub foldable: bool,
    pub folded: bool,
    pub file: Option<CommitFile>,
}

/// View of one row.
pub open spec fn row_view(r: CommitFileRow) -> RowView {
    RowView {
        id: r.id@,
        depth: r.depth,
        kind: r.kind,
        name: r.name@,
        path: r.path@,
        foldable: r.foldable,
        folded: r.folded,
        file: r.file,
    }
}

/// Views of rows.
pub open spec fn row_views(rs: Seq<CommitFileRow>) -> Seq<RowView> {
    rs.map_values(|r: CommitFileRow| row_view(r))
}

/// One level deeper (held at `usize::MAX`).
pub open spec fn next_depth(d: usize) -> usize {
    if d < usize::MAX { (d + 1) as usize } else { d }
}

/// Rows of a node and, unless it is folded, of its children one level deeper.
pub open spec fn node_rows(n: NodeView, depth: usize, folds: Seq<Seq<char>>) -> Seq<RowView>
    decreases n, 0int,
{
    let foldable = n.children.len() > 0;
    let folded = foldable && folds.contains(n.id);
    let row = RowView {
        id: n.id,
        depth,
        kind: n.kind,
        name: n.label,
        path: n.path,
        foldable,
        folded,
        file: n.file,
    };
    if folded {
        seq![row]
    } else {
        seq![row] + rows_of(n.children, next_depth(depth), folds)
    }
}

/// Rows of a list of nodes, in order.
pub open spec fn rows_of(ns: Seq<NodeView>, depth: usize, folds: Seq<Seq<char>>) -> Seq<RowView>
    decreases ns, ns.len(),
{
    if ns.len() == 0 {
        Seq::empty()
    } else {
        rows_of(ns.drop_last(), depth, folds) + node_rows(ns.last(), depth, folds)
    }
}

fn copy_file_opt(f: &Option<CommitFile>) -> (r: Option<CommitFile>)
    ensures
        r == *f,
{
    match f {
        Some(x) => Some(copy_file(x)),
        None => None,
    }
}

fn walk(node: &CommitFileNode, depth: usize, folds: &[String], out: &mut Vec<CommitFileRow>)
    ensures
        row_views(final(out)@) == row_views(old(out)@) + node_rows(node_view(*node), depth, string_views(folds@)),
    decreases node,
{
    let ghost fv = string_views(folds@);
    let ghost nv = node_view(*node);
    let foldable = node.children.len() > 0;
    proof {
        lemma_nodes_view_index(node.children@);
    }
    let mut in_folds = false;
    let mut f: usize = 0;
    while f < folds.len()
        invariant
            f <= folds@.len(),
            fv == string_views(folds@),
            in_folds == (exists|k: int| 0 <= k < f && fv[k] == node.id@),
        decreases folds@.len() - f,
    {
        assert(fv[f as int] == folds@[f as int]@);
        if str_eq(folds[f].as_str(), node.id.as_str()) {
            in_folds = true;
        }
        f += 1;
    }
    assert(in_folds == fv.contains(node.id@));
    let folded = foldable && in_folds;
    let row = CommitFileRow {
        id: node.id.clone(),
        depth,
        kind: node.kind,
        name: node.label.clone(),
        path: node.path.clone(),
        foldable,
        folded,
        file: copy_file_opt(&node.file),
    };
    let ghost start = row_views(out@);
    out.push(row);
    assert(row_views(out@) =~= start.push(row_view(row)));
    if folded {
        assert(start + node_rows(nv, depth, fv) =~= start.push(row_view(row)));
        return;
    }
    let next: usize = if depth < usize::MAX { depth + 1 } else { depth };
    let ghost cv = nv.children;
    let mut k: usize = 0;
    assert(cv.take(0) =~= Seq::<NodeView>::empty());
    while k < node.children.len()
        invariant
            k <= node.children@.len(),
            cv == nodes_view(node.children@),
            cv.len() == node.children@.len(),
            forall|i: int| 0 <= i < node.children@.len() ==> #[trigger] cv[i] == node_view(node.children@[i]),
            row_views(out@) == start.push(row_view(row)) + rows_of(cv.take(k as int), next, fv),
            next == next_depth(depth),
            fv == string_views(folds@),
        decreases node.children@.len() - k,
    {
        proof {
            assert(decreases_to!(node => node.children));
            assert(decreases_to!(node.children => node.children@));
            assert(decreases_to!(node.children@ => node.children@[k as int]));
        }
        let ghost before = row_views(out@);
        walk(&node.children[k], next, folds, out);
        assert(cv.take(k + 1).drop_last() =~= cv.take(k as int));
        assert(cv.take(k + 1).last() == cv[k as int]);
        assert(row_views(out@) =~= start.push(row_view(row)) + rows_of(cv.take(k + 1), next, fv));
        k += 1;
    }
    assert(cv.take(k as int) =~= cv);
    assert(start + node_rows(nv, depth, fv) =~= start.push(row_view(row)) + rows_of(cv, next, fv));
}

/// Rows of the forest in order, descending into every directory that
/// `folds` does not name.
pub open spec fn flatten_spec(files: Seq<CommitFile>, tree_mode: bool, folds: Seq<Seq<char>>) -> Seq<RowView> {
    rows_of(forest_spec(files, tree_mode), 0, folds)
}

/// Flatten a commit-file forest, honoring `folds`.
pub fn flatten_commit_files(files: &[CommitFile], tree_mode: bool, folds: &[String]) -> (r: Vec<CommitFileRow>)
    ensures
        row_views(r@) == flatten_spec(files@, tree_mode, string_views(folds@)),
{
    let nodes = materialize_commit_file_forest(files, tree_mode);
    let ghost ns = nodes_view(nodes@);
    let ghost fv = string_views(folds@);
    proof {
        lemma_nodes_view_index(nodes@);
    }
    let mut out: Vec<CommitFileRow> = Vec::new();
    let mut k: usize = 0;
    assert(row_views(out@) =~= rows_of(ns.take(0), 0, fv));
    while k < nodes.len()
        invariant
            k <= nodes@.len(),
            ns == nodes_view(nodes@),
            ns.len() == nodes@.len(),
            forall|i: int| 0 <= i < nodes@.len() ==> #[trigger] ns[i] == node_view(nodes@[i]),
            fv == string_views(folds@),
            row_views(out@) == rows_of(ns.take(k as int), 0, fv),
        decreases nodes@.len() - k,
    {
        walk(&nodes[k], 0, folds, &mut out);
        assert(ns.take(k + 1).drop_last() =~= ns.take(k as int));
        assert(ns.take(k + 1).last() == ns[k as int]);
        k += 1;
    }
    assert(ns.take(k as int) =~= ns);
    out
}


/* ── Fold helpers ──────────────────────────────────────────────────────── */

/// First node (pre-order) with `id` in a node's subtree.
pub open spec fn find_in(n: NodeView, id: Seq<char>) -> Option<NodeView>
    decreases n, 0int,
{
    if n.id == id {
        Some(n)
    } else {
        find_list(n.children, id)
    }
}

/// First node (pre-order) with `id` in a list of subtrees.
pub open spec fn find_list(ns: Seq<NodeView>, id: Seq<char>) -> Option<NodeView>
    decreases ns, ns.len(),
{
    if ns.len() == 0 {
        None
    } else {
        match find_list(ns.drop_last(), id) {
            Some(x) => Some(x),
            None => find_in(ns.last(), id),
        }
    }
}

/// Ids of a directory (or any node with children) and of such nodes below it, pre-order.
pub open spec fn foldable_ids(n: NodeView) -> Seq<Seq<char>>
    decreases n, 0int,
{
    if n.kind is Dir || n.children.len() > 0 {
        seq![n.id] + list_foldable_ids(n.children)
    } else {
        Seq::empty()
    }
}

/// Foldable ids of a list of subtrees, in order.
pub open spec fn list_foldable_ids(ns: Seq<NodeView>) -> Seq<Seq<char>>
    decreases ns, ns.len(),
{
    if ns.len() == 0 {
        Seq::empty()
    } else {
        list_foldable_ids(ns.drop_last()) + foldable_ids(ns.last())
    }
}

/// Ids that fold with `focus_id`: nothing for a file or a missing id.
pub open spec fn subtree_ids_spec(files: Seq<CommitFile>, tree_mode: bool, focus_id: Seq<char>) -> Seq<Seq<char>> {
    match find_list(forest_spec(files, tree_mode), focus_id) {
        Some(n) => if n.kind is File { Seq::empty() } else { foldable_ids(n) },
        None => Seq::empty(),
    }
}

fn find_commit_node<'a>(node: &'a CommitFileNode, id: &str) -> (r: Option<&'a CommitFileNode>)
    ensures
        match r {
            Some(x) => find_in(node_view(*node), id@) == Some(node_view(*x)),
            None => find_in(node_view(*node), id@) is None,
        },
    decreases node,
{
    if str_eq(node.id.as_str(), id) {
        return Some(node);
    }
    let ghost cv = nodes_view(node.children@);
    proof {
        lemma_nodes_view_index(node.children@);
    }
    let mut k: usize = 0;
    while k < node.children.len()
        invariant
            k <= node.children@.len(),
            cv == nodes_view(node.children@),
            cv.len() == node.children@.len(),
            forall|i: int| 0 <= i < node.children@.len() ==> #[trigger] cv[i] == node_view(node.children@[i]),
            find_list(cv.take(k as int), id@) is None,
            node.id@ != id@,
            node_view(*node).children == cv,
        decreases node.children@.len() - k,
    {
        proof {
            assert(decreases_to!(node => node.children));
            assert(decreases_to!(node.children => node.children@));
            assert(decreases_to!(node.children@ => node.children@[k as int]));
        }
        assert(cv.take(k + 1).drop_last() =~= cv.take(k as int));
        assert(cv.take(k + 1).last() == cv[k as int]);
        match find_commit_node(&node.children[k], id) {
            Some(hit) => {
                proof {
                    lemma_find_list_prefix(cv, k as int + 1, id@);
                }
                return Some(hit);
            },
            None => {},
        }
        k += 1;
    }
    assert(cv.take(k as int) =~= cv);
    None
}

/// A hit in a prefix is the hit of the whole list.
proof fn lemma_find_list_prefix(ns: Seq<NodeView>, j: int, id: Seq<char>)
    requires
        0 <= j <= ns.len(),
        find_list(ns.take(j), id) is Some,
    ensures
        find_list(ns, id) == find_list(ns.take(j), id),
    decreases ns.len(),
{
    if j == ns.len() {
        assert(ns.take(j) =~= ns);
    } else {
        assert(ns.drop_last().take(j) =~= ns.take(j));
        lemma_find_list_prefix(ns.drop_last(), j, id);
    }
}


fn walk_commit_foldable(node: &CommitFileNode, out: &mut Vec<String>)
    ensures
        string_views(final(out)@) == string_views(old(out)@) + foldable_ids(node_view(*node)),
    decreases node,
{
    let is_dir = match node.kind {
        CommitFileRowKind::Dir => true,
        CommitFileRowKind::File => false,
    };
    let ghost start = string_views(out@);
    if !(is_dir || node.children.len() > 0) {
        assert(start + foldable_ids(node_view(*node)) =~= start);
        return;
    }
    out.push(node.id.clone());
    assert(string_views(out@) =~= start.push(node.id@));
    let ghost cv = nodes_view(node.children@);
    proof {
        lemma_nodes_view_index(node.children@);
    }
    let mut k: usize = 0;
    assert(cv.take(0) =~= Seq::<NodeView>::empty());
    while k < node.children.len()
        invariant
            k <= node.children@.len(),
            cv == nodes_view(node.children@),
            cv.len() == node.children@.len(),
            forall|i: int| 0 <= i < node.children@.len() ==> #[trigger] cv[i] == node_view(node.children@[i]),
            string_views(out@) == start.push(node.id@) + list_foldable_ids(cv.take(k as int)),
        decreases node.children@.len() - k,
    {
        proof {
            assert(decreases_to!(node => node.children));
            assert(decreases_to!(node.children => node.children@));
            assert(decreases_to!(node.children@ => node.children@[k as int]));
        }
        walk_commit_foldable(&node.children[k], out);
        assert(cv.take(k + 1).drop_last() =~= cv.take(k as int));
        assert(cv.take(k + 1).last() == cv[k as int]);
        assert(string_views(out@) =~= start.push(node.id@) + list_foldable_ids(cv.take(k + 1)));
        k += 1;
    }
    assert(cv.take(k as int) =~= cv);
    assert(start + foldable_ids(node_view(*node)) =~= start.push(node.id@) + list_foldable_ids(cv));
}

/// Foldable ids for `focus_id` and foldable descendants in the commit-file forest.
pub fn collect_foldable_subtree_ids(files: &[CommitFile], tree_mode: bool, focus_id: &str) -> (r: Vec<String>)
    ensures
        string_views(r@) == subtree_ids_spec(files@, tree_mode, focus_id@),
{
    let nodes = materialize_commit_file_forest(files, tree_mode);
    let ghost ns = nodes_view(nodes@);
    proof {
        lemma_nodes_view_index(nodes@);
    }
    let mut k: usize = 0;
    assert(ns.take(0) =~= Seq::<NodeView>::empty());
    while k < nodes.len()
        invariant
            k <= nodes@.len(),
            ns == nodes_view(nodes@),
            ns.len() == nodes@.len(),
            forall|i: int| 0 <= i < nodes@.len() ==> #[trigger] ns[i] == node_view(nodes@[i]),
            ns == forest_spec(files@, tree_mode),
            find_list(ns.take(k as int), focus_id@) is None,
        decreases nodes@.len() - k,
    {
        assert(ns.take(k + 1).drop_last() =~= ns.take(k as int));
        assert(ns.take(k + 1).last() == ns[k as int]);
        match find_commit_node(&nodes[k], focus_id) {
            Some(found) => {
                proof {
                    lemma_find_list_prefix(ns, k as int + 1, focus_id@);
                }
                let mut ids: Vec<String> = Vec::new();
                match found.kind {
                    CommitFileRowKind::File => {
                        assert(string_views(ids@) =~= Seq::<Seq<char>>::empty());
                        return ids;
                    },
                    CommitFileRowKind::Dir => {},
                }
                assert(string_views(ids@) =~= Seq::<Seq<char>>::empty());
                walk_commit_foldable(found, &mut ids);
                assert(string_views(ids@) =~= foldable_ids(node_view(*found)));
                return ids;
            },
            None => {},
        }
        k += 1;
    }
    assert(ns.take(k as int) =~= ns);
    let empty: Vec<String> = Vec::new();
    assert(string_views(empty@) =~= Seq::<Seq<char>>::empty());
    empty
}

/// `a/b/c` from its pieces.
pub open spec fn joined(ps: Seq<Seq<char>>) -> Seq<char>
    decreases ps.len(),
{
    if ps.len() == 0 {
        Seq::empty()
    } else if ps.len() == 1 {
        ps[0]
    } else {
        joined(ps.drop_last()) + "/"@ + ps.last()
    }
}

/// `dir:` ids of every directory above a file, outermost first.
pub open spec fn ancestor_ids_spec(file_path: Seq<char>) -> Seq<Seq<char>> {
    let parts = path_parts(file_path);
    if parts.len() < 2 {
        Seq::empty()
    } else {
        Seq::new((parts.len() - 1) as nat, |k: int| "dir:"@ + joined(parts.take(k + 1)))
    }
}

/// Dir ids that must unfold so `file_path` is visible.
pub fn ancestor_dir_ids(file_path: &str) -> (r: Vec<String>)
    ensures
        string_views(r@) == ancestor_ids_spec(file_path@),
{
    let parts = path_parts_exec(file_path);
    let ghost pv = string_views(parts@);
    let mut ids: Vec<String> = Vec::new();
    if parts.len() < 2 {
        assert(string_views(ids@) =~= Seq::<Seq<char>>::empty());
        return ids;
    }
    let ghost want = ancestor_ids_spec(file_path@);
    let mut acc = String::new();
    let mut k: usize = 0;
    assert(string_views(ids@) =~= want.take(0));
    while k < parts.len() - 1
        invariant
            parts@.len() >= 2,
            k <= parts@.len() - 1,
            pv == string_views(parts@),
            pv == path_parts(file_path@),
            want == ancestor_ids_spec(file_path@),
            acc@ == joined(pv.take(k as int)),
            string_views(ids@) == want.take(k as int),
        decreases parts@.len() - 1 - k,
    {
        let ghost before = acc@;
        assert(pv[k as int] == parts@[k as int]@);
        if k == 0 {
            acc = parts[0].clone();
            assert(pv.take(1) =~= seq![pv[0]]);
        } else {
            push_str(&mut acc, "/");
            push_str(&mut acc, parts[k].as_str());
            assert(pv.take(k + 1).drop_last() =~= pv.take(k as int));
            assert(pv.take(k + 1).last() == pv[k as int]);
        }
        assert(acc@ == joined(pv.take(k + 1)));
        let mut id = String::new();
        push_str(&mut id, "dir:");
        push_str(&mut id, acc.as_str());
        let ghost ib = string_views(ids@);
        ids.push(id);
        assert(string_views(ids@) =~= ib.push("dir:"@ + joined(pv.take(k + 1))));
        assert(want.take(k + 1) =~= want.take(k as int).push(want[k as int]));
        k += 1;
    }
    assert(want.take(k as int) =~= want);
    ids
}


/* ── Laws ──────────────────────────────────────────────────────────────── */

/// Paths never decrease along `s`.
pub open spec fn paths_sorted(s: Seq<CommitFile>) -> bool {
    forall|i: int, j: int| 0 <= i < j < s.len() ==> !seq_lt(#[trigger] s[j].path@, #[trigger] s[i].path@)
}

proof fn lemma_file_slot(s: Seq<CommitFile>, f: CommitFile)
    ensures
        0 <= file_slot(s, f) <= s.len(),
        forall|k: int| file_slot(s, f) <= k < s.len() ==> seq_lt(f.path@, #[trigger] s[k].path@),
        file_slot(s, f) > 0 ==> !seq_lt(f.path@, s[file_slot(s, f) - 1].path@),
    decreases s.len(),
{
    if s.len() > 0 && seq_lt(f.path@, s.last().path@) {
        lemma_file_slot(s.drop_last(), f);
        assert forall|k: int| file_slot(s, f) <= k < s.len() implies seq_lt(f.path@, #[trigger] s[k].path@) by {
            if k < s.len() - 1 {
                assert(s.drop_last()[k] == s[k]);
            }
        }
        if file_slot(s, f) > 0 {
            assert(s.drop_last()[file_slot(s, f) - 1] == s[file_slot(s, f) - 1]);
        }
    }
}

/// Each level lists its files in path order (files with equal paths keep
/// their input order).
pub proof fn lemma_sort_files_sorted(fs: Seq<CommitFile>)
    ensures
        paths_sorted(sort_files(fs)),
        sort_files(fs).len() == fs.len(),
    decreases fs.len(),
{
    if fs.len() > 0 {
        lemma_sort_files_sorted(fs.drop_last());
        let t = sort_files(fs.drop_last());
        let f = fs.last();
        lemma_file_slot(t, f);
        let p = file_slot(t, f);
        let s = t.insert(p, f);
        assert(s == sort_files(fs));
        assert forall|i: int, j: int| 0 <= i < j < s.len() implies !seq_lt(#[trigger] s[j].path@, #[trigger] s[i].path@) by {
            if i == p {
                assert(s[j] == t[j - 1]);
                assert(seq_lt(f.path@, t[j - 1].path@));
                lemma_lt_total(f.path@, t[j - 1].path@);
            } else if j == p {
                assert(s[i] == t[i]);
                let q = t[p - 1].path@;
                if i < p - 1 {
                    assert(!seq_lt(t[p - 1].path@, t[i].path@));
                }
                lemma_lt_total(q, f.path@);
                if seq_lt(f.path@, t[i].path@) {
                    if seq_lt(q, f.path@) {
                        lemma_lt_transitive(q, f.path@, t[i].path@);
                    }
                }
            } else {
                let i0 = if i < p { i } else { i - 1 };
                let j0 = if j < p { j } else { j - 1 };
                assert(s[i] == t[i0]);
                assert(s[j] == t[j0]);
            }
        }
    }
}

} // verus!
