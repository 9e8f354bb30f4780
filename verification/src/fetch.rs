//! Background fetch period.

use vstd::prelude::*;

use crate::text::{parse_i64, parse_i64_spec, str_chars, str_eq, string_views};

verus! {

/// Default background-fetch period (5 minutes).
pub const DEFAULT_FETCH_MS: u64 = 300_000;

/// Floor when fetch is enabled.
pub const MIN_FETCH_MS: u64 = 30_000;

/// Poll period for a raw `WS_STATUS_FETCH_MS` value.
pub open spec fn fetch_interval_spec(raw: Option<Seq<char>>) -> u64 {
    match raw {
        None => DEFAULT_FETCH_MS,
        Some(s) => match parse_i64_spec(s) {
            None => DEFAULT_FETCH_MS,
            Some(n) => if n < 0 {
                DEFAULT_FETCH_MS
            } else if n == 0 {
                0
            } else if n < MIN_FETCH_MS {
                MIN_FETCH_MS
            } else {
                n as u64
            },
        },
    }
}

/// Poll period from `WS_STATUS_FETCH_MS`. `0` disables. Missing / invalid → default.
pub fn fetch_interval_ms(raw: Option<&str>) -> (ms: u64)
    ensures
        ms == fetch_interval_spec(match raw {
            Some(t) => Some(t@),
            None => None,
        }),
{
    let raw = match raw {
        Some(r) => r,
        None => return DEFAULT_FETCH_MS,
    };
    let chars = str_chars(raw);
    let parsed = match parse_i64(chars.as_slice()) {
        Some(n) => n,
        None => return DEFAULT_FETCH_MS,
    };
    if parsed < 0 {
        return DEFAULT_FETCH_MS;
    }
    if parsed == 0 {
        return 0;
    }
    let p = parsed as u64;
    if p < MIN_FETCH_MS { MIN_FETCH_MS } else { p }
}

/// An enabled period is never below the floor; `0` means disabled.
pub proof fn lemma_fetch_interval_floor(raw: Option<Seq<char>>)
    ensures
        fetch_interval_spec(raw) == 0 || fetch_interval_spec(raw) >= MIN_FETCH_MS,
{
}


/// What the background fetch reads of one checkout in the snapshot.
#[derive(Clone, Debug, PartialEq, Eq)]
pub struct FetchCheckout {
    /// Checkout path relative to the workspace.
    pub repo: String,
    /// Primary checkout of a linked worktree.
    pub primary_repo: Option<String>,
}

/// Hidden as ignored: the checkout, or the repo it is a worktree of, is on the ignore list.
pub open spec fn hidden_ignored(c: FetchCheckout, ignored: Seq<Seq<char>>) -> bool {
    ignored.contains(c.repo@) || (c.primary_repo is Some && ignored.contains(c.primary_repo->0@))
}

/// Paths the timer fetches, in snapshot order.
pub open spec fn fetch_targets_spec(cs: Seq<FetchCheckout>, ignored: Seq<Seq<char>>, show_ignored: bool) -> Seq<Seq<char>>
    decreases cs.len(),
{
    if cs.len() == 0 {
        Seq::empty()
    } else {
        let r = fetch_targets_spec(cs.drop_last(), ignored, show_ignored);
        if show_ignored || !hidden_ignored(cs.last(), ignored) {
            r.push(cs.last().repo@)
        } else {
            r
        }
    }
}

fn listed(ignored: &[String], name: &str) -> (b: bool)
    ensures
        b == string_views(ignored@).contains(name@),
{
    let ghost sv = string_views(ignored@);
    let mut i: usize = 0;
    while i < ignored.len()
        invariant
            i <= ignored@.len(),
            sv == string_views(ignored@),
            forall|k: int| 0 <= k < i ==> sv[k] != name@,
        decreases ignored@.len() - i,
    {
        assert(sv[i as int] == ignored@[i as int]@);
        if str_eq(ignored[i].as_str(), name) {
            return true;
        }
        i += 1;
    }
    false
}

/// Snapshot paths the background fetch timer may touch.
///
/// Every checkout except hidden ignored, including linked worktrees.
/// When ignored repos are shown, those paths are included too.
pub fn background_fetch_targets(checkouts: &[FetchCheckout], ignored: &[String], show_ignored: bool) -> (r: Vec<String>)
    ensures
        string_views(r@) == fetch_targets_spec(checkouts@, string_views(ignored@), show_ignored),
{
    let ghost iv = string_views(ignored@);
    let mut out: Vec<String> = Vec::new();
    let mut i: usize = 0;
    assert(checkouts@.take(0) =~= Seq::<FetchCheckout>::empty());
    while i < checkouts.len()
        invariant
            i <= checkouts@.len(),
            iv == string_views(ignored@),
            string_views(out@) == fetch_targets_spec(checkouts@.take(i as int), iv, show_ignored),
        decreases checkouts@.len() - i,
    {
        assert(checkouts@.take(i + 1).drop_last() =~= checkouts@.take(i as int));
        assert(checkouts@.take(i + 1).last() == checkouts@[i as int]);
        let c = &checkouts[i];
        let hidden = listed(ignored, c.repo.as_str()) || match &c.primary_repo {
            Some(p) => listed(ignored, p.as_str()),
            None => false,
        };
        if show_ignored || !hidden {
            let ghost before = string_views(out@);
            out.push(c.repo.clone());
            assert(string_views(out@) =~= before.push(c.repo@));
        }
        i += 1;
    }
    assert(checkouts@.take(i as int) =~= checkouts@);
    out
}

} // verus!
