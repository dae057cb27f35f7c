//! The record of drivers installed from the catalog, so that they can be rolled
//! back later. The list is kept newest first, holds at most fifty entries, and
//! a driver-store package name (`oemNN.inf`) belongs to one entry at most.

use std::time::{Duration, SystemTime, SystemTimeError};
use vstd::prelude::*;

verus! {

/// One recorded install.
#[derive(Clone, Debug, PartialEq)]
pub struct HistoryEntry {
    pub device_name: String,
    pub version: Option<String>,
    /// Driver-store package names (`oemNN.inf`): the rollback handles.
    pub published_names: Vec<String>,
    pub installed_at_unix: u64,
}

/// The most entries the history keeps.
pub const MAX_ENTRIES: usize = 50;

// ---------------------------------------------------------------------------
// The model
// ---------------------------------------------------------------------------

/// `e` lists the package name `p`.
pub open spec fn has_name(e: HistoryEntry, p: Seq<char>) -> bool {
    exists|i: int| 0 <= i < e.published_names@.len() && #[trigger] e.published_names@[i]@ == p
}

/// `a` and `b` list a package name in common.
pub open spec fn shares(a: HistoryEntry, b: HistoryEntry) -> bool {
    exists|j: int| 0 <= j < b.published_names@.len() && has_name(a, #[trigger] b.published_names@[j]@)
}

/// The entries of `s` that list no package name in common with `e`, in order.
pub open spec fn without_sharing(s: Seq<HistoryEntry>, e: HistoryEntry) -> Seq<HistoryEntry>
    decreases s.len(),
{
    if s.len() == 0 {
        seq![]
    } else if shares(s[0], e) {
        without_sharing(s.drop_first(), e)
    } else {
        seq![s[0]] + without_sharing(s.drop_first(), e)
    }
}

/// The entries of `s` that do not list the package name `p`, in order.
pub open spec fn without_name(s: Seq<HistoryEntry>, p: Seq<char>) -> Seq<HistoryEntry>
    decreases s.len(),
{
    if s.len() == 0 {
        seq![]
    } else if has_name(s[0], p) {
        without_name(s.drop_first(), p)
    } else {
        seq![s[0]] + without_name(s.drop_first(), p)
    }
}

/// The history after recording `e`: `e` first, then the earlier entries that
/// share no package name with it, cut to fifty entries.
pub open spec fn add_spec(s: Seq<HistoryEntry>, e: HistoryEntry) -> Seq<HistoryEntry> {
    let l = seq![e] + without_sharing(s, e);
    if l.len() <= MAX_ENTRIES {
        l
    } else {
        l.take(MAX_ENTRIES as int)
    }
}

// ---------------------------------------------------------------------------
// Operations
// ---------------------------------------------------------------------------

/// Whether `names` holds a string equal to `p`.
fn contains_name(names: &Vec<String>, p: &String) -> (r: bool)
    ensures
        r == exists|j: int| 0 <= j < names@.len() && #[trigger] names@[j]@ == p@,
{
    let mut j: usize = 0;
    while j < names.len()
        invariant
            0 <= j <= names@.len(),
            forall|k: int| 0 <= k < j ==> #[trigger] names@[k]@ != p@,
        decreases names.len() - j,
    {
        if names[j] == *p {
            return true;
        }
        j = j + 1;
    }
    false
}

/// Whether `a` and `b` list a package name in common.
fn shares_exec(a: &HistoryEntry, b: &HistoryEntry) -> (r: bool)
    ensures
        r == shares(*a, *b),
{
    let mut j: usize = 0;
    while j < b.published_names.len()
        invariant
            0 <= j <= b.published_names@.len(),
            forall|k: int| 0 <= k < j ==> !has_name(*a, #[trigger] b.published_names@[k]@),
        decreases b.published_names.len() - j,
    {
        if contains_name(&a.published_names, &b.published_names[j]) {
            assert(has_name(*a, b.published_names@[j as int]@));
            return true;
        }
        j = j + 1;
    }
    false
}

/// Whether `e` lists the package name `p`.
fn has_name_exec(e: &HistoryEntry, p: &str) -> (r: bool)
    ensures
        r == has_name(*e, p@),
{
    let target: String = p.to_owned();
    let mut i: usize = 0;
    while i < e.published_names.len()
        invariant
            target@ == p@,
            0 <= i <= e.published_names@.len(),
            forall|k: int| 0 <= k < i ==> #[trigger] e.published_names@[k]@ != p@,
        decreases e.published_names.len() - i,
    {
        if e.published_names[i] == target {
            return true;
        }
        i = i + 1;
    }
    false
}

/// Records an install at the front of the history (most recent first). Any
/// earlier entry that shares a package name with it is dropped, and the
/// history is cut to fifty entries.
pub fn add(entries: &mut Vec<HistoryEntry>, entry: HistoryEntry)
    ensures
        final(entries)@ == add_spec(old(entries)@, entry),
{
    let ghost orig = entries@;
    let mut kept: Vec<HistoryEntry> = Vec::new();
    assert(orig.skip(0) =~= orig);
    while entries.len() > 0
        invariant
            kept@ + without_sharing(entries@, entry) == without_sharing(orig, entry),
        decreases entries@.len(),
    {
        let ghost before = entries@;
        let e = entries.remove(0);
        assert(before.drop_first() =~= entries@);
        if shares_exec(&e, &entry) {
        } else {
            let ghost k0 = kept@;
            kept.push(e);
            assert(k0 + (seq![e] + without_sharing(entries@, entry)) =~= kept@
                + without_sharing(entries@, entry));
        }
    }
    assert(kept@ + Seq::<HistoryEntry>::empty() =~= kept@);
    kept.insert(0, entry);
    assert(kept@ =~= seq![entry] + without_sharing(orig, entry));
    kept.truncate(MAX_ENTRIES);
    *entries = kept;
}

/// Drops every history entry that lists the given package name.
pub fn remove(entries: &mut Vec<HistoryEntry>, published_name: &str)
    ensures
        final(entries)@ == without_name(old(entries)@, published_name@),
{
    let ghost orig = entries@;
    let mut kept: Vec<HistoryEntry> = Vec::new();
    while entries.len() > 0
        invariant
            kept@ + without_name(entries@, published_name@) == without_name(orig, published_name@),
        decreases entries@.len(),
    {
        let ghost before = entries@;
        let e = entries.remove(0);
        assert(before.drop_first() =~= entries@);
        if has_name_exec(&e, published_name) {
        } else {
            let ghost k0 = kept@;
            kept.push(e);
            assert(k0 + (seq![e] + without_name(entries@, published_name@)) =~= kept@
                + without_name(entries@, published_name@));
        }
    }
    assert(kept@ + Seq::<HistoryEntry>::empty() =~= kept@);
    *entries = kept;
}

// ---------------------------------------------------------------------------
// Laws
// ---------------------------------------------------------------------------

/// No two entries of `s` list a package name in common.
pub open spec fn names_disjoint(s: Seq<HistoryEntry>) -> bool {
    forall|k: int, l: int| 0 <= k < l < s.len() ==> !shares(#[trigger] s[k], #[trigger] s[l])
}

proof fn lemma_shares_symmetric(a: HistoryEntry, b: HistoryEntry)
    requires
        shares(a, b),
    ensures
        shares(b, a),
{
    let j = choose|j: int| 0 <= j < b.published_names@.len() && has_name(a, #[trigger] b.published_names@[j]@);
    let i = choose|i: int| 0 <= i < a.published_names@.len() && #[trigger] a.published_names@[i]@ == b.published_names@[j]@;
    assert(has_name(b, a.published_names@[i]@));
}

#[verifier::rlimit(40)]
proof fn lemma_without_sharing_facts(s: Seq<HistoryEntry>, e: HistoryEntry)
    ensures
        without_sharing(s, e).len() <= s.len(),
        forall|k: int| 0 <= k < without_sharing(s, e).len() ==> !shares(#[trigger] without_sharing(s, e)[k], e),
        forall|k: int| 0 <= k < without_sharing(s, e).len() ==> exists|j: int| 0 <= j < s.len() && s[j] == #[trigger] without_sharing(s, e)[k],
        names_disjoint(s) ==> names_disjoint(without_sharing(s, e)),
    decreases s.len(),
{
    if s.len() > 0 {
        let t = s.drop_first();
        lemma_without_sharing_facts(t, e);
        let rt = without_sharing(t, e);
        let r = without_sharing(s, e);
        assert forall|k: int| 0 <= k < r.len() implies exists|j: int| 0 <= j < s.len() && s[j] == #[trigger] r[k] by {
            if shares(s[0], e) {
                let j = choose|j: int| 0 <= j < t.len() && t[j] == #[trigger] rt[k];
                assert(s[j + 1] == r[k]);
            } else if k == 0 {
                assert(s[0] == r[0]);
            } else {
                assert(r[k] == rt[k - 1]);
                let j = choose|j: int| 0 <= j < t.len() && t[j] == #[trigger] rt[k - 1];
                assert(s[j + 1] == r[k]);
            }
        }
        assert forall|k: int| 0 <= k < r.len() implies !shares(#[trigger] r[k], e) by {
            if !shares(s[0], e) && k > 0 {
                assert(r[k] == rt[k - 1]);
            }
        }
        if names_disjoint(s) {
            assert(names_disjoint(t)) by {
                assert forall|k: int, l: int| 0 <= k < l < t.len() implies !shares(#[trigger] t[k], #[trigger] t[l]) by {
                    assert(t[k] == s[k + 1] && t[l] == s[l + 1]);
                }
            }
            assert forall|k: int, l: int| 0 <= k < l < r.len() implies !shares(#[trigger] r[k], #[trigger] r[l]) by {
                if !shares(s[0], e) {
                    if k == 0 {
                        assert(r[l] == rt[l - 1]);
                        let j = choose|j: int| 0 <= j < t.len() && t[j] == #[trigger] rt[l - 1];
                        assert(s[j + 1] == r[l]);
                        assert(!shares(s[0], s[j + 1]));
                    } else {
                        assert(r[k] == rt[k - 1] && r[l] == rt[l - 1]);
                    }
                }
            }
        }
    }
}

#[verifier::rlimit(40)]
proof fn lemma_without_name_facts(s: Seq<HistoryEntry>, p: Seq<char>)
    ensures
        forall|k: int| 0 <= k < without_name(s, p).len() ==> !has_name(#[trigger] without_name(s, p)[k], p),
        forall|k: int| 0 <= k < without_name(s, p).len() ==> exists|j: int| 0 <= j < s.len() && s[j] == #[trigger] without_name(s, p)[k],
        names_disjoint(s) ==> names_disjoint(without_name(s, p)),
        (forall|k: int| 0 <= k < s.len() ==> !has_name(#[trigger] s[k], p)) ==> without_name(s, p) == s,
    decreases s.len(),
{
    if s.len() > 0 {
        let t = s.drop_first();
        lemma_without_name_facts(t, p);
        let rt = without_name(t, p);
        let r = without_name(s, p);
        assert forall|k: int| 0 <= k < r.len() implies exists|j: int| 0 <= j < s.len() && s[j] == #[trigger] r[k] by {
            if has_name(s[0], p) {
                let j = choose|j: int| 0 <= j < t.len() && t[j] == #[trigger] rt[k];
                assert(s[j + 1] == r[k]);
            } else if k == 0 {
                assert(s[0] == r[0]);
            } else {
                assert(r[k] == rt[k - 1]);
                let j = choose|j: int| 0 <= j < t.len() && t[j] == #[trigger] rt[k - 1];
                assert(s[j + 1] == r[k]);
            }
        }
        assert forall|k: int| 0 <= k < r.len() implies !has_name(#[trigger] r[k], p) by {
            if !has_name(s[0], p) && k > 0 {
                assert(r[k] == rt[k - 1]);
            }
        }
        if names_disjoint(s) {
            assert(names_disjoint(t)) by {
                assert forall|k: int, l: int| 0 <= k < l < t.len() implies !shares(#[trigger] t[k], #[trigger] t[l]) by {
                    assert(t[k] == s[k + 1] && t[l] == s[l + 1]);
                }
            }
            assert forall|k: int, l: int| 0 <= k < l < r.len() implies !shares(#[trigger] r[k], #[trigger] r[l]) by {
                if !has_name(s[0], p) {
                    if k == 0 {
                        assert(r[l] == rt[l - 1]);
                        let j = choose|j: int| 0 <= j < t.len() && t[j] == #[trigger] rt[l - 1];
                        assert(s[j + 1] == r[l]);
                        assert(!shares(s[0], s[j + 1]));
                    } else {
                        assert(r[k] == rt[k - 1] && r[l] == rt[l - 1]);
                    }
                }
            }
        }
        if forall|k: int| 0 <= k < s.len() ==> !has_name(#[trigger] s[k], p) {
            assert forall|k: int| 0 <= k < t.len() implies !has_name(#[trigger] t[k], p) by {
                assert(t[k] == s[k + 1]);
            }
            assert(!has_name(s[0], p));
            assert(r =~= s);
        }
    }
}

/// Recording an install puts it first, keeps at most fifty entries, and leaves
/// no other entry that shares a package name with it.
pub proof fn lemma_add_puts_entry_first(s: Seq<HistoryEntry>, e: HistoryEntry)
    ensures
        add_spec(s, e).len() >= 1,
        add_spec(s, e).len() <= MAX_ENTRIES,
        add_spec(s, e)[0] == e,
        forall|k: int| 1 <= k < add_spec(s, e).len() ==> !shares(#[trigger] add_spec(s, e)[k], e),
{
    lemma_without_sharing_facts(s, e);
    let l = seq![e] + without_sharing(s, e);
    assert forall|k: int| 1 <= k < add_spec(s, e).len() implies !shares(#[trigger] add_spec(s, e)[k], e) by {
        assert(add_spec(s, e)[k] == l[k]);
        assert(l[k] == without_sharing(s, e)[k - 1]);
    }
}

/// Recording an install keeps the package names of different entries apart:
/// the earlier entries that shared a name with the new one are dropped.
pub proof fn lemma_add_keeps_names_disjoint(s: Seq<HistoryEntry>, e: HistoryEntry)
    requires
        names_disjoint(s),
    ensures
        names_disjoint(add_spec(s, e)),
{
    lemma_without_sharing_facts(s, e);
    let w = without_sharing(s, e);
    let l = seq![e] + w;
    assert(names_disjoint(l)) by {
        assert forall|k: int, l2: int| 0 <= k < l2 < l.len() implies !shares(#[trigger] l[k], #[trigger] l[l2]) by {
            assert(l[l2] == w[l2 - 1]);
            if k == 0 {
                assert(!shares(w[l2 - 1], e));
                if shares(e, w[l2 - 1]) {
                    lemma_shares_symmetric(e, w[l2 - 1]);
                }
            } else {
                assert(l[k] == w[k - 1]);
            }
        }
    }
    if l.len() > MAX_ENTRIES {
        let t = l.take(MAX_ENTRIES as int);
        assert forall|k: int, l2: int| 0 <= k < l2 < t.len() implies !shares(#[trigger] t[k], #[trigger] t[l2]) by {
            assert(t[k] == l[k] && t[l2] == l[l2]);
        }
    }
}

/// After a package name is removed, no entry lists it; entries stay apart.
pub proof fn lemma_remove_clears_name(s: Seq<HistoryEntry>, p: Seq<char>)
    ensures
        forall|k: int| 0 <= k < without_name(s, p).len() ==> !has_name(#[trigger] without_name(s, p)[k], p),
        names_disjoint(s) ==> names_disjoint(without_name(s, p)),
{
    lemma_without_name_facts(s, p);
}

/// Removing a package name twice is the same as removing it once.
pub proof fn lemma_remove_idempotent(s: Seq<HistoryEntry>, p: Seq<char>)
    ensures
        without_name(without_name(s, p), p) == without_name(s, p),
{
    lemma_without_name_facts(s, p);
    lemma_without_name_facts(without_name(s, p), p);
}

/// An install recorded with a package name can be found again by that name,
/// and removing that name afterwards forgets every record of it: a recorded
/// install can always be rolled back.
pub proof fn lemma_recorded_install_can_be_rolled_back(s: Seq<HistoryEntry>, e: HistoryEntry, p: Seq<char>)
    requires
        has_name(e, p),
    ensures
        has_name(add_spec(s, e)[0], p),
        forall|k: int| 0 <= k < without_name(add_spec(s, e), p).len() ==> !has_name(#[trigger] without_name(add_spec(s, e), p)[k], p),
{
    lemma_add_puts_entry_first(s, e);
    lemma_without_name_facts(add_spec(s, e), p);
}

/// Recording an install keeps exactly the earlier entries that share no
/// package name with it, in their order: the history after `add` is the new
/// entry followed by the filter of the old history by "shares no name with
/// the new entry", cut to fifty.
pub proof fn lemma_add_keeps_exactly_the_unrelated(s: Seq<HistoryEntry>, e: HistoryEntry)
    ensures
        without_sharing(s, e) == s.filter(|x: HistoryEntry| !shares(x, e)),
        add_spec(s, e) == (if s.filter(|x: HistoryEntry| !shares(x, e)).len() + 1 <= MAX_ENTRIES {
            seq![e] + s.filter(|x: HistoryEntry| !shares(x, e))
        } else {
            (seq![e] + s.filter(|x: HistoryEntry| !shares(x, e))).take(MAX_ENTRIES as int)
        }),
    decreases s.len(),
{
    let pred = |x: HistoryEntry| !shares(x, e);
    if s.len() > 0 {
        lemma_add_keeps_exactly_the_unrelated(s.drop_first(), e);
        assert(s =~= seq![s[0]] + s.drop_first());
        s.drop_first().lemma_filter_prepend(s[0], pred);
        if shares(s[0], e) {
            assert(Seq::<HistoryEntry>::empty() + s.drop_first().filter(pred) =~= s.drop_first().filter(pred));
        }
    } else {
        assert(s.filter(pred) =~= s);
    }
}

/// When no earlier entry shares a package name with the new one and the
/// history has room, recording it only puts it in front: every earlier entry
/// stays, in order.
pub proof fn lemma_add_keeps_unrelated_entries(s: Seq<HistoryEntry>, e: HistoryEntry)
    requires
        forall|k: int| 0 <= k < s.len() ==> !shares(#[trigger] s[k], e),
        s.len() < MAX_ENTRIES,
    ensures
        add_spec(s, e) == seq![e] + s,
    decreases s.len(),
{
    lemma_add_keeps_exactly_the_unrelated(s, e);
    lemma_filter_all(s, |x: HistoryEntry| !shares(x, e));
}

/// Filtering a sequence whose every element passes leaves it unchanged.
proof fn lemma_filter_all(s: Seq<HistoryEntry>, pred: spec_fn(HistoryEntry) -> bool)
    requires
        forall|k: int| 0 <= k < s.len() ==> pred(#[trigger] s[k]),
    ensures
        s.filter(pred) == s,
    decreases s.len(),
{
    reveal(Seq::filter);
    if s.len() > 0 {
        lemma_filter_all(s.drop_last(), pred);
        assert(pred(s[s.len() - 1]));
        assert(s.drop_last().push(s.last()) =~= s);
    }
}

/// Removing a package name keeps exactly the entries that do not list it, in
/// order: the history after `remove` is the filter of the old history by
/// "does not list the name".
pub proof fn lemma_remove_keeps_exactly_the_others(s: Seq<HistoryEntry>, p: Seq<char>)
    ensures
        without_name(s, p) == s.filter(|x: HistoryEntry| !has_name(x, p)),
    decreases s.len(),
{
    let pred = |x: HistoryEntry| !has_name(x, p);
    if s.len() > 0 {
        lemma_remove_keeps_exactly_the_others(s.drop_first(), p);
        assert(s =~= seq![s[0]] + s.drop_first());
        s.drop_first().lemma_filter_prepend(s[0], pred);
        if has_name(s[0], p) {
            assert(Seq::<HistoryEntry>::empty() + s.drop_first().filter(pred) =~= s.drop_first().filter(pred));
        }
    } else {
        assert(s.filter(pred) =~= s);
    }
}

/// When only the entry at `j` lists the package name, removing the name drops
/// that entry and keeps all others, newer and older, in order.
pub proof fn lemma_remove_single_listing(s: Seq<HistoryEntry>, p: Seq<char>, j: int)
    requires
        0 <= j < s.len(),
        has_name(s[j], p),
        forall|k: int| 0 <= k < s.len() && k != j ==> !has_name(#[trigger] s[k], p),
    ensures
        without_name(s, p) == s.take(j) + s.skip(j + 1),
    decreases s.len(),
{
    let t = s.drop_first();
    if j == 0 {
        assert forall|k: int| 0 <= k < t.len() implies !has_name(#[trigger] t[k], p) by {
            assert(t[k] == s[k + 1]);
        }
        lemma_without_name_facts(t, p);
        assert(s.take(0) + s.skip(1) =~= t);
    } else {
        assert(!has_name(s[0], p));
        assert(t[j - 1] == s[j]);
        assert forall|k: int| 0 <= k < t.len() && k != j - 1 implies !has_name(#[trigger] t[k], p) by {
            assert(t[k] == s[k + 1]);
        }
        lemma_remove_single_listing(t, p, j - 1);
        assert(seq![s[0]] + (t.take(j - 1) + t.skip(j)) =~= s.take(j) + s.skip(j + 1));
    }
}

// ---------------------------------------------------------------------------
// The clock
// ---------------------------------------------------------------------------

#[verifier::external_type_specification]
#[verifier::external_body]
pub struct ExSystemTime(SystemTime);

#[verifier::external_type_specification]
#[verifier::external_body]
pub struct ExSystemTimeError(SystemTimeError);

/// Calls `SystemTime::now`. The reading depends on the clock, so nothing is
/// stated of it.
#[verifier::external_body]
fn system_now() -> SystemTime {
    SystemTime::now()
}

/// Calls `SystemTime::duration_since` with `UNIX_EPOCH`: the time elapsed
/// since the epoch, or an error for a time before it. The result depends on a
/// clock reading, so nothing is stated of it.
#[verifier::external_body]
fn since_unix_epoch(t: &SystemTime) -> Result<Duration, SystemTimeError> {
    t.duration_since(std::time::UNIX_EPOCH)
}

/// Calls `Duration::as_secs`, the whole seconds of a duration. A `Duration` is
/// opaque here, so nothing is stated of the number.
#[verifier::external_body]
fn whole_seconds(d: &Duration) -> u64 {
    d.as_secs()
}

/// The current time as whole seconds since the Unix epoch; 0 when the clock
/// reads a time before the epoch.
pub fn now_unix() -> u64 {
    let now = system_now();
    match since_unix_epoch(&now) {
        Ok(d) => whole_seconds(&d),
        Err(_) => 0,
    }
}

} // verus!
