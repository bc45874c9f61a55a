//! Usage queries: which capabilities an installed Codex offers, which batch
//! requests are accepted, and how the reported usage windows are ordered.

use vstd::prelude::*;
use vstd::string::*;

use crate::digest::{hex_sha256, hex_text, sha256_digest};
use crate::error::{CoreError, CoreResult};
use crate::layout::{is_valid_id, validate_id};
use crate::model::{Account, CapabilityProbe, UsageRefreshResult, UsageSnapshot, UsageWindow};
use crate::rows::{is_storage_failure, opt_view};
use crate::json::{
    collect_windows, find_key, get_member, key_in, member, member_of, text_in, text_value,
    unsigned_in, unsigned_value, windows_in, JsonValue,
};
use crate::order::{is_stable_sort, sort_by_keys};
use crate::storage::{read_from, 
    as_opt_str, fresh_id, grown, is_account_update, is_usage_insert, now, storage_or, Storage,
};
use crate::terminal::{lossy_text, utf8_lossy};
use crate::text::{contains_text, has_substring, str_eq};

verus! {

/// How long a cached usage snapshot stays fresh, in seconds.
pub const CACHE_SECONDS: i64 = 300;

/// The most usage queries that run at once.
pub const MAX_CONCURRENT_USAGE_QUERIES: usize = 4;

/// How long one App Server response is waited for, in seconds.
pub const QUERY_TIMEOUT_SECONDS: u64 = 10;

/// The most accounts one batch refresh names.
pub const MAX_BATCH_ACCOUNTS: usize = 128;

/// What an installed Codex offers, from its generated client request schema:
/// the schema's digest, and whether it names each account method.
pub fn capability_probe(codex_version: String, client_request: &[u8], reset_credits: bool) -> (r:
    CapabilityProbe)
    ensures
        r.codex_version == codex_version,
        r.schema_fingerprint@ == hex_text(sha256_digest(client_request@)),
        r.account_read == has_substring(lossy_text(client_request@), "account/read"@),
        r.rate_limits_read == has_substring(lossy_text(client_request@), "account/rateLimits/read"@),
        r.token_usage_read == has_substring(lossy_text(client_request@), "account/tokenUsage/read"@),
        r.reset_credits == reset_credits,
{
    let schema = utf8_lossy(client_request);
    CapabilityProbe {
        codex_version,
        schema_fingerprint: hex_sha256(client_request),
        account_read: contains_text(schema.as_str(), "account/read"),
        rate_limits_read: contains_text(schema.as_str(), "account/rateLimits/read"),
        token_usage_read: contains_text(schema.as_str(), "account/tokenUsage/read"),
        reset_credits,
    }
}

/// A usage refresh needs the account and rate-limit methods.
pub fn check_usage_capabilities(probe: &CapabilityProbe) -> (r: CoreResult<()>)
    ensures
        r is Ok <==> probe.account_read && probe.rate_limits_read,
        r matches Err(e) ==> e.code@ == "CAPABILITY_UNAVAILABLE"@,
{
    if !probe.account_read || !probe.rate_limits_read {
        return Err(
            CoreError::new(
                "CAPABILITY_UNAVAILABLE",
                "installed Codex schema lacks required account capabilities",
            ),
        );
    }
    Ok(())
}

/// A batch refresh names 1 to 128 accounts, each a valid identifier, none
/// twice.
pub open spec fn is_valid_batch(ids: Seq<String>) -> bool {
    &&& 0 < ids.len() <= 128
    &&& forall|i: int| 0 <= i < ids.len() ==> is_valid_id(vstd::utf8::encode_utf8(#[trigger] ids[i]@))
    &&& forall|i: int, j: int| 0 <= i < j < ids.len() ==> ids[i]@ != ids[j]@
}

pub fn validate_batch(account_ids: &Vec<String>) -> (r: CoreResult<()>)
    ensures
        r is Ok <==> is_valid_batch(account_ids@),
        r matches Err(e) ==> e.code@ == "INVALID_REQUEST"@,
{
    let n = account_ids.len();
    if n == 0 || n > MAX_BATCH_ACCOUNTS {
        return Err(CoreError::new("INVALID_REQUEST", "Usage batch must contain 1..=128 accounts"));
    }
    let mut k: usize = 0;
    while k < n
        invariant
            n == account_ids@.len(),
            0 < n <= 128,
            k <= n,
            forall|i: int| 0 <= i < k ==> is_valid_id(vstd::utf8::encode_utf8(#[trigger] account_ids@[i]@)),
            forall|i: int, j: int| 0 <= i < j < k ==> account_ids@[i]@ != account_ids@[j]@,
        decreases n - k,
    {
        validate_id(account_ids[k].as_str())?;
        let mut m: usize = 0;
        while m < k
            invariant
                n == account_ids@.len(),
                m <= k < n,
                forall|i: int| 0 <= i < m ==> account_ids@[i]@ != account_ids@[k as int]@,
            decreases k - m,
        {
            if str_eq(account_ids[m].as_str(), account_ids[k].as_str()) {
                return Err(
                    CoreError::new("INVALID_REQUEST", "Usage batch contains a duplicate account"),
                );
            }
            m = m + 1;
        }
        k = k + 1;
    }
    Ok(())
}

/// The order of window durations: an unknown duration first, then shortest
/// first.
pub open spec fn duration_le(a: Option<u64>, b: Option<u64>) -> bool {
    match (a, b) {
        (None, _) => true,
        (Some(_), None) => false,
        (Some(x), Some(y)) => x <= y,
    }
}

fn duration_le_exec(a: Option<u64>, b: Option<u64>) -> (r: bool)
    ensures
        r == duration_le(a, b),
{
    match (a, b) {
        (None, _) => true,
        (Some(_), None) => false,
        (Some(x), Some(y)) => x <= y,
    }
}

/// `w` placed into windows already in duration order: after every window
/// whose duration is not longer, so that equal durations keep their order.
pub open spec fn insert_window(sorted: Seq<UsageWindow>, w: UsageWindow) -> Seq<UsageWindow>
    decreases sorted.len(),
{
    if sorted.len() == 0 {
        seq![w]
    } else if duration_le(sorted.last().duration_minutes, w.duration_minutes) {
        sorted.push(w)
    } else {
        insert_window(sorted.drop_last(), w).push(sorted.last())
    }
}

/// Windows in duration order, equal durations in their reported order (a
/// stable sort by duration).
pub open spec fn sort_windows(ws: Seq<UsageWindow>) -> Seq<UsageWindow>
    decreases ws.len(),
{
    if ws.len() == 0 {
        Seq::<UsageWindow>::empty()
    } else {
        insert_window(sort_windows(ws.drop_last()), ws.last())
    }
}

/// Two windows that report the same duration and reset time.
pub open spec fn same_window(a: UsageWindow, b: UsageWindow) -> bool {
    a.duration_minutes == b.duration_minutes && a.resets_at == b.resets_at
}

/// Windows with each run of repeats reduced to its first.
pub open spec fn dedup_windows(ws: Seq<UsageWindow>) -> Seq<UsageWindow>
    decreases ws.len(),
{
    if ws.len() == 0 {
        Seq::<UsageWindow>::empty()
    } else {
        let d = dedup_windows(ws.drop_last());
        if d.len() > 0 && same_window(ws.last(), d.last()) {
            d
        } else {
            d.push(ws.last())
        }
    }
}

proof fn lemma_insert_window_len(sorted: Seq<UsageWindow>, w: UsageWindow)
    ensures
        insert_window(sorted, w).len() == sorted.len() + 1,
    decreases sorted.len(),
{
    if sorted.len() > 0 && !duration_le(sorted.last().duration_minutes, w.duration_minutes) {
        lemma_insert_window_len(sorted.drop_last(), w);
    }
}

proof fn lemma_insert_window_at(sorted: Seq<UsageWindow>, w: UsageWindow, i: int)
    requires
        0 <= i <= sorted.len(),
        forall|j: int| i <= j < sorted.len() ==> !duration_le(#[trigger] sorted[j].duration_minutes, w.duration_minutes),
        i == 0 || duration_le(sorted[i - 1].duration_minutes, w.duration_minutes),
    ensures
        insert_window(sorted, w) == sorted.take(i) + seq![w] + sorted.skip(i),
    decreases sorted.len(),
{
    if sorted.len() == 0 {
        assert(sorted.take(i) + seq![w] + sorted.skip(i) =~= seq![w]);
    } else if i == sorted.len() {
        assert(sorted.take(i) + seq![w] + sorted.skip(i) =~= sorted.push(w));
    } else {
        let d = sorted.drop_last();
        assert(!duration_le(sorted[sorted.len() - 1].duration_minutes, w.duration_minutes));
        lemma_insert_window_at(d, w, i);
        assert(d.take(i) + seq![w] + d.skip(i) + seq![sorted.last()] =~= sorted.take(i) + seq![w]
            + sorted.skip(i));
    }
}

/// The windows as a snapshot reports them: in duration order, repeats of
/// the same duration and reset time dropped.
pub open spec fn normalized_windows(ws: Seq<UsageWindow>) -> Seq<UsageWindow> {
    dedup_windows(sort_windows(ws))
}

/// Some window of `ws` reports the duration and reset time of `w`.
pub open spec fn represented(ws: Seq<UsageWindow>, w: UsageWindow) -> bool {
    exists|i: int| 0 <= i < ws.len() && #[trigger] same_window(ws[i], w)
}

/// Windows in duration order: no window has a longer duration than one
/// after it.
pub open spec fn windows_sorted(ws: Seq<UsageWindow>) -> bool {
    forall|i: int, j: int|
        0 <= i < j < ws.len() ==> duration_le(
            #[trigger] ws[i].duration_minutes,
            #[trigger] ws[j].duration_minutes,
        )
}

proof fn lemma_contains_push(s: Seq<UsageWindow>, w: UsageWindow)
    ensures
        forall|x: UsageWindow| #[trigger] s.push(w).contains(x) <==> (s.contains(x) || x == w),
{
    let r = s.push(w);
    assert forall|x: UsageWindow| #[trigger] r.contains(x) <==> (s.contains(x) || x == w) by {
        if s.contains(x) {
            let k = choose|k: int| 0 <= k < s.len() && s[k] == x;
            assert(r[k] == x);
        }
        if x == w {
            assert(r[s.len() as int] == w);
        }
        if r.contains(x) {
            let k = choose|k: int| 0 <= k < r.len() && r[k] == x;
            if k < s.len() {
                assert(s[k] == x);
            }
        }
    }
}

proof fn lemma_contains_drop_last(s: Seq<UsageWindow>)
    requires
        s.len() > 0,
    ensures
        forall|x: UsageWindow| #[trigger] s.contains(x) <==> (s.drop_last().contains(x) || x == s.last()),
{
    lemma_contains_push(s.drop_last(), s.last());
    assert(s.drop_last().push(s.last()) =~= s);
}

proof fn lemma_insert_window_keeps(sorted: Seq<UsageWindow>, w: UsageWindow)
    ensures
        forall|x: UsageWindow| #[trigger] insert_window(sorted, w).contains(x) <==> (sorted.contains(x) || x == w),
        windows_sorted(sorted) ==> windows_sorted(insert_window(sorted, w)),
    decreases sorted.len(),
{
    lemma_insert_window_len(sorted, w);
    if sorted.len() == 0 {
        lemma_contains_push(sorted, w);
        assert(sorted.push(w) =~= seq![w]);
    } else if duration_le(sorted.last().duration_minutes, w.duration_minutes) {
        let r = sorted.push(w);
        lemma_contains_push(sorted, w);
        if windows_sorted(sorted) {
            assert forall|i: int, j: int| 0 <= i < j < r.len() implies duration_le(
                #[trigger] r[i].duration_minutes,
                #[trigger] r[j].duration_minutes,
            ) by {
                if j < sorted.len() {
                    assert(r[i] == sorted[i] && r[j] == sorted[j]);
                } else {
                    let n = sorted.len() - 1;
                    assert(r[i] == sorted[i]);
                    if i < n {
                        assert(duration_le(sorted[i].duration_minutes, sorted[n].duration_minutes));
                    }
                }
            }
        }
    } else {
        let d = sorted.drop_last();
        let inner = insert_window(d, w);
        let r = inner.push(sorted.last());
        lemma_insert_window_keeps(d, w);
        lemma_insert_window_len(d, w);
        lemma_contains_push(inner, sorted.last());
        lemma_contains_drop_last(sorted);
        if windows_sorted(sorted) {
            assert(windows_sorted(d)) by {
                assert forall|i: int, j: int| 0 <= i < j < d.len() implies duration_le(
                    #[trigger] d[i].duration_minutes,
                    #[trigger] d[j].duration_minutes,
                ) by {
                    assert(d[i] == sorted[i] && d[j] == sorted[j]);
                }
            }
            let n = sorted.len() - 1;
            assert forall|i: int, j: int| 0 <= i < j < r.len() implies duration_le(
                #[trigger] r[i].duration_minutes,
                #[trigger] r[j].duration_minutes,
            ) by {
                if j < inner.len() {
                    assert(r[i] == inner[i] && r[j] == inner[j]);
                } else {
                    assert(r[i] == inner[i]);
                    assert(r[j] == sorted[n]);
                    assert(inner.contains(inner[i]));
                    if d.contains(inner[i]) {
                        let k = choose|k: int| 0 <= k < d.len() && d[k] == inner[i];
                        assert(sorted[k] == d[k]);
                        assert(duration_le(sorted[k].duration_minutes, sorted[n].duration_minutes));
                    }
                }
            }
        }
    }
}

proof fn lemma_sort_windows_keeps(ws: Seq<UsageWindow>)
    ensures
        forall|x: UsageWindow| #[trigger] sort_windows(ws).contains(x) <==> ws.contains(x),
        windows_sorted(sort_windows(ws)),
    decreases ws.len(),
{
    if ws.len() > 0 {
        lemma_sort_windows_keeps(ws.drop_last());
        lemma_insert_window_keeps(sort_windows(ws.drop_last()), ws.last());
        lemma_contains_drop_last(ws);
    }
}

proof fn lemma_dedup_windows_keeps(ws: Seq<UsageWindow>)
    ensures
        forall|x: UsageWindow| #[trigger] dedup_windows(ws).contains(x) ==> ws.contains(x),
        forall|j: int| 0 <= j < ws.len() ==> represented(dedup_windows(ws), #[trigger] ws[j]),
        forall|i: int, j: int|
            0 <= i && j == i + 1 && j < dedup_windows(ws).len() ==> !same_window(
                #[trigger] dedup_windows(ws)[i],
                #[trigger] dedup_windows(ws)[j],
            ),
        windows_sorted(ws) ==> windows_sorted(dedup_windows(ws)),
    decreases ws.len(),
{
    if ws.len() > 0 {
        let p = ws.drop_last();
        let d = dedup_windows(p);
        let r = dedup_windows(ws);
        let n = ws.len() - 1;
        lemma_dedup_windows_keeps(p);
        lemma_contains_drop_last(ws);
        lemma_contains_push(d, ws.last());
        assert forall|j: int| 0 <= j < ws.len() implies represented(r, #[trigger] ws[j]) by {
            if j < n {
                assert(p[j] == ws[j]);
                assert(represented(d, p[j]));
                let i = choose|i: int| 0 <= i < d.len() && #[trigger] same_window(d[i], p[j]);
                assert(r[i] == d[i]);
                assert(same_window(r[i], ws[j]));
            } else if d.len() > 0 && same_window(ws.last(), d.last()) {
                assert(r[d.len() - 1] == d.last());
                assert(same_window(r[d.len() - 1], ws[j]));
            } else {
                assert(r[d.len() as int] == ws[j]);
                assert(same_window(r[d.len() as int], ws[j]));
            }
        }
        if windows_sorted(ws) {
            assert(windows_sorted(p)) by {
                assert forall|i: int, j: int| 0 <= i < j < p.len() implies duration_le(
                    #[trigger] p[i].duration_minutes,
                    #[trigger] p[j].duration_minutes,
                ) by {
                    assert(p[i] == ws[i] && p[j] == ws[j]);
                }
            }
            assert forall|i: int, j: int| 0 <= i < j < r.len() implies duration_le(
                #[trigger] r[i].duration_minutes,
                #[trigger] r[j].duration_minutes,
            ) by {
                if j < d.len() {
                    assert(r[i] == d[i] && r[j] == d[j]);
                } else {
                    assert(r[i] == d[i]);
                    assert(r[j] == ws[n]);
                    assert(d.contains(d[i]));
                    let k = choose|k: int| 0 <= k < p.len() && p[k] == d[i];
                    assert(ws[k] == p[k]);
                    assert(duration_le(ws[k].duration_minutes, ws[n].duration_minutes));
                }
            }
        }
    }
}

/// The windows of `ws` whose duration is `d`, in their order in `ws`.
pub open spec fn with_duration(ws: Seq<UsageWindow>, d: Option<u64>) -> Seq<UsageWindow>
    decreases ws.len(),
{
    if ws.len() == 0 {
        Seq::<UsageWindow>::empty()
    } else {
        let p = with_duration(ws.drop_last(), d);
        if ws.last().duration_minutes == d {
            p.push(ws.last())
        } else {
            p
        }
    }
}

proof fn lemma_with_duration_push(s: Seq<UsageWindow>, w: UsageWindow, d: Option<u64>)
    ensures
        with_duration(s.push(w), d) == if w.duration_minutes == d {
            with_duration(s, d).push(w)
        } else {
            with_duration(s, d)
        },
{
    assert(s.push(w).drop_last() =~= s);
}

proof fn lemma_insert_window_stable(sorted: Seq<UsageWindow>, w: UsageWindow, d: Option<u64>)
    ensures
        with_duration(insert_window(sorted, w), d) == if w.duration_minutes == d {
            with_duration(sorted, d).push(w)
        } else {
            with_duration(sorted, d)
        },
    decreases sorted.len(),
{
    if sorted.len() == 0 {
        lemma_with_duration_push(sorted, w, d);
        assert(sorted.push(w) =~= seq![w]);
    } else if duration_le(sorted.last().duration_minutes, w.duration_minutes) {
        lemma_with_duration_push(sorted, w, d);
    } else {
        let p = sorted.drop_last();
        lemma_insert_window_stable(p, w, d);
        lemma_with_duration_push(insert_window(p, w), sorted.last(), d);
        lemma_with_duration_push(p, sorted.last(), d);
        assert(p.push(sorted.last()) =~= sorted);
    }
}

/// Sorting the windows by duration is stable: taken duration by duration,
/// the sorted windows are the reported ones in their reported order, and
/// every duration comes after those not longer than it.
pub proof fn lemma_sort_windows_stable(ws: Seq<UsageWindow>, d: Option<u64>)
    ensures
        with_duration(sort_windows(ws), d) == with_duration(ws, d),
        windows_sorted(sort_windows(ws)),
    decreases ws.len(),
{
    lemma_sort_windows_keeps(ws);
    if ws.len() > 0 {
        let p = ws.drop_last();
        lemma_sort_windows_stable(p, d);
        lemma_insert_window_stable(sort_windows(p), ws.last(), d);
        lemma_with_duration_push(p, ws.last(), d);
        assert(p.push(ws.last()) =~= ws);
    }
}

proof fn lemma_with_duration_empty(ws: Seq<UsageWindow>, d: Option<u64>)
    requires
        forall|i: int| 0 <= i < ws.len() ==> (#[trigger] ws[i]).duration_minutes != d,
    ensures
        with_duration(ws, d).len() == 0,
    decreases ws.len(),
{
    if ws.len() > 0 {
        let p = ws.drop_last();
        assert forall|i: int| 0 <= i < p.len() implies (#[trigger] p[i]).duration_minutes != d by {
            assert(p[i] == ws[i]);
        }
        lemma_with_duration_empty(p, d);
    }
}

proof fn lemma_dedup_with_duration(s: Seq<UsageWindow>, d: Option<u64>)
    requires
        windows_sorted(s),
    ensures
        with_duration(dedup_windows(s), d) == dedup_windows(with_duration(s, d)),
    decreases s.len(),
{
    if s.len() > 0 {
        let p = s.drop_last();
        let l = s.last();
        let dd = dedup_windows(p);
        let g = with_duration(p, d);
        let f = with_duration(dd, d);
        assert(windows_sorted(p)) by {
            assert forall|i: int, j: int| 0 <= i < j < p.len() implies duration_le(
                #[trigger] p[i].duration_minutes,
                #[trigger] p[j].duration_minutes,
            ) by {
                assert(p[i] == s[i] && p[j] == s[j]);
            }
        }
        lemma_dedup_with_duration(p, d);
        lemma_dedup_windows_keeps(p);
        lemma_with_duration_push(p, l, d);
        assert(p.push(l) =~= s);
        lemma_with_duration_push(dd, l, d);
        if l.duration_minutes == d {
            assert(g.push(l).drop_last() =~= g);
            if dd.len() > 0 {
                if dd.last().duration_minutes == d {
                    assert(dd.drop_last().push(dd.last()) =~= dd);
                    lemma_with_duration_push(dd.drop_last(), dd.last(), d);
                } else {
                    let n = dd.len() - 1;
                    assert(dd.contains(dd[n]));
                    let k = choose|k: int| 0 <= k < p.len() && p[k] == dd[n];
                    assert(s[k] == p[k]);
                    assert(duration_le(s[k].duration_minutes, s[s.len() - 1].duration_minutes));
                    assert forall|i: int| 0 <= i < dd.len() implies (#[trigger] dd[i]).duration_minutes
                        != d by {
                        if i < n {
                            assert(duration_le(dd[i].duration_minutes, dd[n].duration_minutes));
                        }
                    }
                    lemma_with_duration_empty(dd, d);
                }
            }
        }
    }
}

/// The windows of a snapshot, taken duration by duration, are the reported
/// windows of that duration in their reported order, each run of repeats
/// (same duration and reset time) reduced to its first.
pub proof fn lemma_normalized_windows_stable(ws: Seq<UsageWindow>, d: Option<u64>)
    ensures
        with_duration(normalized_windows(ws), d) == dedup_windows(with_duration(ws, d)),
{
    lemma_sort_windows_stable(ws, d);
    lemma_dedup_with_duration(sort_windows(ws), d);
}

/// The windows of a snapshot, whatever was reported: in duration order
/// (unknown duration first), no window followed by a repeat of itself, each
/// of them a reported window, and every reported window represented by one
/// with its duration and reset time.
pub proof fn lemma_normalized_windows(ws: Seq<UsageWindow>)
    ensures
        windows_sorted(normalized_windows(ws)),
        forall|i: int, j: int|
            0 <= i && j == i + 1 && j < normalized_windows(ws).len() ==> !same_window(
                #[trigger] normalized_windows(ws)[i],
                #[trigger] normalized_windows(ws)[j],
            ),
        forall|i: int| 0 <= i < normalized_windows(ws).len() ==> ws.contains(#[trigger] normalized_windows(ws)[i]),
        forall|j: int| 0 <= j < ws.len() ==> represented(normalized_windows(ws), #[trigger] ws[j]),
{
    let s = sort_windows(ws);
    let r = normalized_windows(ws);
    lemma_sort_windows_keeps(ws);
    lemma_dedup_windows_keeps(s);
    assert forall|i: int| 0 <= i < r.len() implies ws.contains(#[trigger] r[i]) by {
        assert(r.contains(r[i]));
    }
    assert forall|j: int| 0 <= j < ws.len() implies represented(r, #[trigger] ws[j]) by {
        assert(ws.contains(ws[j]));
        assert(s.contains(ws[j]));
        let k = choose|k: int| 0 <= k < s.len() && s[k] == ws[j];
        assert(represented(r, s[k]));
    }
}

fn sort_by_duration(ws: &Vec<UsageWindow>) -> (r: Vec<UsageWindow>)
    ensures
        r@ == sort_windows(ws@),
{
    let mut out: Vec<UsageWindow> = Vec::new();
    let mut k: usize = 0;
    while k < ws.len()
        invariant
            k <= ws@.len(),
            out@ == sort_windows(ws@.take(k as int)),
        decreases ws@.len() - k,
    {
        let w = ws[k];
        proof {
            assert(ws@.take(k + 1).drop_last() =~= ws@.take(k as int));
            assert(ws@.take(k + 1).last() == w);
            lemma_insert_window_len(out@, w);
        }
        let mut i: usize = out.len();
        while i > 0 && !duration_le_exec(out[i - 1].duration_minutes, w.duration_minutes)
            invariant
                i <= out@.len(),
                forall|j: int| i <= j < out@.len() ==> !duration_le(#[trigger] out@[j].duration_minutes, w.duration_minutes),
            decreases i,
        {
            i = i - 1;
        }
        proof {
            lemma_insert_window_at(out@, w, i as int);
        }
        out.insert(i, w);
        proof {
            assert(out@ =~= sort_windows(ws@.take(k + 1)));
        }
        k = k + 1;
    }
    proof {
        assert(ws@.take(ws@.len() as int) =~= ws@);
    }
    out
}

fn dedup_adjacent(ws: &Vec<UsageWindow>) -> (r: Vec<UsageWindow>)
    ensures
        r@ == dedup_windows(ws@),
{
    let mut out: Vec<UsageWindow> = Vec::new();
    let mut k: usize = 0;
    while k < ws.len()
        invariant
            k <= ws@.len(),
            out@ == dedup_windows(ws@.take(k as int)),
        decreases ws@.len() - k,
    {
        let w = ws[k];
        proof {
            assert(ws@.take(k + 1).drop_last() =~= ws@.take(k as int));
            assert(ws@.take(k + 1).last() == w);
        }
        let n = out.len();
        if n > 0 && out[n - 1].duration_minutes == w.duration_minutes && out[n - 1].resets_at == w.resets_at {
        } else {
            out.push(w);
        }
        k = k + 1;
    }
    proof {
        assert(ws@.take(ws@.len() as int) =~= ws@);
    }
    out
}

/// The reported windows in snapshot order.
pub fn normalize_windows(windows: &Vec<UsageWindow>) -> (r: Vec<UsageWindow>)
    ensures
        r@ == normalized_windows(windows@),
        windows_sorted(r@),
        forall|i: int, j: int|
            0 <= i && j == i + 1 && j < r@.len() ==> !same_window(#[trigger] r@[i], #[trigger] r@[j]),
        forall|i: int| 0 <= i < r@.len() ==> windows@.contains(#[trigger] r@[i]),
        forall|j: int| 0 <= j < windows@.len() ==> represented(r@, #[trigger] windows@[j]),
        forall|d: Option<u64>|
            #[trigger] with_duration(r@, d) == dedup_windows(with_duration(windows@, d)),
{
    proof {
        lemma_normalized_windows(windows@);
        assert forall|d: Option<u64>|
            #[trigger] with_duration(normalized_windows(windows@), d) == dedup_windows(
                with_duration(windows@, d),
            ) by {
            lemma_normalized_windows_stable(windows@, d);
        }
    }
    let sorted = sort_by_duration(windows);
    dedup_adjacent(&sorted)
}

/// The login status an account read reports: authenticated when the App
/// Server returned an account.
pub fn login_status(account_present: bool) -> (r: &'static str)
    ensures
        account_present ==> r@ == "authenticated"@,
        !account_present ==> r@ == "login_required"@,
{
    if account_present {
        "authenticated"
    } else {
        "login_required"
    }
}

/// A fresh usage snapshot, cached for `CACHE_SECONDS` from its capture.
pub fn usage_snapshot(
    usage_snapshot_id: String,
    account_id: &str,
    probe: &CapabilityProbe,
    account_type: Option<String>,
    plan_type: Option<String>,
    account_present: bool,
    windows: &Vec<UsageWindow>,
    lifetime_tokens: Option<u64>,
    reset_credit_available: Option<u64>,
    captured_at: i64,
) -> (r: UsageSnapshot)
    requires
        captured_at <= i64::MAX - CACHE_SECONDS,
    ensures
        r.usage_snapshot_id == usage_snapshot_id,
        r.account_id@ == account_id@,
        r.codex_version@ == probe.codex_version@,
        r.capability_fingerprint@ == probe.schema_fingerprint@,
        r.account_type == account_type,
        r.plan_type == plan_type,
        r.login_status@ == (if account_present { "authenticated"@ } else { "login_required"@ }),
        r.windows@ == normalized_windows(windows@),
        r.lifetime_tokens == lifetime_tokens,
        r.reset_credit_available == reset_credit_available,
        r.captured_at == captured_at,
        r.expires_at == captured_at + CACHE_SECONDS,
        r.error_code is None,
{
    UsageSnapshot {
        usage_snapshot_id,
        account_id: String::from_str(account_id),
        codex_version: probe.codex_version.clone(),
        capability_fingerprint: probe.schema_fingerprint.clone(),
        account_type,
        plan_type,
        login_status: String::from_str(login_status(account_present)),
        windows: normalize_windows(windows),
        lifetime_tokens,
        reset_credit_available,
        captured_at,
        expires_at: captured_at + CACHE_SECONDS,
        error_code: None,
    }
}

/// The account a usage probe or refresh is for; its identifier is checked
/// before it is looked up.
pub fn usage_account(storage: &mut Storage, account_id: &str) -> (r: CoreResult<Account>)
    ensures
        read_from(*old(storage), *final(storage)),
        !is_valid_id(account_id.spec_bytes()) ==> (r matches Err(e) && e.code@ == "INVALID_REQUEST"@),
        r matches Ok(a) ==> a.account_id@ == account_id@,
        r matches Err(e) ==> storage_or(e, "NOT_FOUND"@) || e.code@ == "INVALID_REQUEST"@,
{
    validate_id(account_id)?;
    storage.account(account_id)
}

/// Keeps a refreshed snapshot: it is cached with its encoding, and its
/// account takes the snapshot's plan and login status.
pub fn record_usage(storage: &mut Storage, snapshot: &UsageSnapshot, encoded: &str) -> (r: CoreResult<()>)
    ensures
        r matches Err(e) ==> is_storage_failure(e),
        final(storage).spec_layout() == old(storage).spec_layout(),
        grown(old(storage).issued(), final(storage).issued()),
        r is Ok ==> final(storage).issued().len() == old(storage).issued().len() + 2
            && is_usage_insert(
            final(storage).issued()[old(storage).issued().len() as int],
            *snapshot,
            encoded@,
        ) && is_account_update(
            final(storage).issued().last(),
            snapshot.account_id@,
            None,
            opt_view(snapshot.plan_type),
            snapshot.login_status@,
            None,
        ),
{
    storage.cache_usage(snapshot, encoded)?;
    let ghost cached = storage.issued();
    storage.update_account_metadata(
        snapshot.account_id.as_str(),
        None,
        as_opt_str(&snapshot.plan_type),
        snapshot.login_status.as_str(),
        None,
    )?;
    assert(storage.issued()[old(storage).issued().len() as int] == cached[old(
        storage,
    ).issued().len() as int]);
    Ok(())
}

/// One account's entry in a batch refresh: its snapshot, or the code of the
/// error that stopped it.
pub fn refresh_outcome(account_id: String, result: CoreResult<UsageSnapshot>) -> (r:
    UsageRefreshResult)
    ensures
        r.account_id == account_id,
        result matches Ok(s) ==> r.snapshot == Some(s) && r.error_code is None,
        result matches Err(e) ==> r.snapshot is None && opt_view(r.error_code) == Some(e.code@),
{
    match result {
        Ok(snapshot) => UsageRefreshResult { account_id, snapshot: Some(snapshot), error_code: None },
        Err(error) => UsageRefreshResult {
            account_id,
            snapshot: None,
            error_code: Some(String::from_str(error.code)),
        },
    }
}

/// A batch's results ordered by account identifier.
pub fn sort_refresh_results(results: Vec<UsageRefreshResult>) -> (r: Vec<UsageRefreshResult>)
    ensures
        is_stable_sort(results@, results@.map_values(|u: UsageRefreshResult| u.account_id@), r@),
{
    let mut keys: Vec<String> = Vec::new();
    let mut k: usize = 0;
    while k < results.len()
        invariant
            k <= results@.len(),
            keys@.len() == k,
            forall|i: int| 0 <= i < k ==> #[trigger] keys@[i]@ == results@[i].account_id@,
        decreases results@.len() - k,
    {
        keys.push(results[k].account_id.clone());
        k = k + 1;
    }
    proof {
        assert(keys@.map_values(|s: String| s@) =~= results@.map_values(
            |u: UsageRefreshResult| u.account_id@,
        ));
    }
    sort_by_keys(results, keys)
}

/// Whether an account read returned an account: a member `account` that is
/// not `null`.
pub open spec fn account_present(account: JsonValue) -> bool {
    member(account, "account"@) matches Some(a) && !(a is Null)
}

/// The lifetime token count a token usage read reports.
pub open spec fn lifetime_tokens_in(token_usage: Option<JsonValue>) -> Option<u64> {
    unsigned_in(member_of(member_of(token_usage, "summary"@), "lifetimeTokens"@))
}

/// The snapshot of one usage query from the App Server's answers: the
/// account's type and plan, whether it is logged in, every reported window in
/// snapshot order, the lifetime token count, and the reset credits
/// available. Nothing else of the answers is kept.
pub fn normalize_usage(
    account_id: &str,
    probe: &CapabilityProbe,
    account: &JsonValue,
    rate_limits: &JsonValue,
    token_usage: Option<&JsonValue>,
) -> (r: CoreResult<UsageSnapshot>)
    ensures
        r matches Ok(s) ==> s.account_id@ == account_id@ && s.codex_version@ == probe.codex_version@
            && s.capability_fingerprint@ == probe.schema_fingerprint@ && opt_view(s.account_type)
            == text_in(member_of(member(*account, "account"@), "type"@)) && opt_view(s.plan_type)
            == text_in(member_of(member(*account, "account"@), "planType"@)) && s.login_status@ == (
        if account_present(*account) {
            "authenticated"@
        } else {
            "login_required"@
        }) && s.windows@ == normalized_windows(windows_in(*rate_limits)) && s.lifetime_tokens
            == lifetime_tokens_in(
            match token_usage {
                Some(t) => Some(*t),
                None => None,
            },
        ) && s.reset_credit_available == unsigned_in(key_in(*rate_limits, "availableCount"@))
            && s.expires_at == s.captured_at + CACHE_SECONDS && s.error_code is None,
        r matches Ok(s) ==> windows_sorted(s.windows@) && (forall|j: int|
            0 <= j < windows_in(*rate_limits).len() ==> represented(
                s.windows@,
                #[trigger] windows_in(*rate_limits)[j],
            )),
        r matches Err(e) ==> e.code@ == "INTERNAL_ERROR"@,
{
    proof {
        lemma_normalized_windows(windows_in(*rate_limits));
    }
    let account_value = get_member(account, "account");
    let account_type = text_value(
        match account_value {
            Some(a) => get_member(a, "type"),
            None => None,
        },
    );
    let plan_type = text_value(
        match account_value {
            Some(a) => get_member(a, "planType"),
            None => None,
        },
    );
    let present = match account_value {
        Some(JsonValue::Null) => false,
        Some(_) => true,
        None => false,
    };
    let mut windows: Vec<UsageWindow> = Vec::new();
    collect_windows(rate_limits, &mut windows);
    assert(windows@ =~= windows_in(*rate_limits));
    let lifetime_tokens = match token_usage {
        Some(t) => unsigned_value(
            match get_member(t, "summary") {
                Some(summary) => get_member(summary, "lifetimeTokens"),
                None => None,
            },
        ),
        None => None,
    };
    let reset_credit_available = unsigned_value(find_key(rate_limits, "availableCount"));
    let captured_at = now();
    if captured_at > i64::MAX - CACHE_SECONDS {
        return Err(CoreError::new("INTERNAL_ERROR", "the clock is out of range"));
    }
    Ok(
        usage_snapshot(
            fresh_id("usage"),
            account_id,
            probe,
            account_type,
            plan_type,
            present,
            &windows,
            lifetime_tokens,
            reset_credit_available,
            captured_at,
        ),
    )
}

} // verus!
