//! The reply to a search: the results ranked by seeders, thinned, capped and listed.

use vstd::prelude::*;
use crate::decimal::{parse_unsigned, unsigned_value};
use crate::models::Torrent;
use crate::size::{format_size, size_text};
use crate::text::{same_text, to_chars};

verus! {

/// With more results than this, those with few seeders are left out.
pub const CROWD: usize = 5;

/// The seeders that a result needs to stay among many.
pub const MIN_SEEDERS: u32 = 5;

/// No reply lists more results than this.
pub const LIMIT: usize = 10;

/// What a count sent as text stands for: the number it reads as if that is at most `max`,
/// and otherwise zero.
pub open spec fn count_of(s: Seq<char>, max: nat) -> nat {
    match unsigned_value(s, max) {
        Some(n) => n,
        None => 0,
    }
}

/// The seeders of `t`, a number of 32 bits.
pub open spec fn seeds(t: Torrent) -> nat {
    count_of(t.seeders@, u32::MAX as nat)
}

/// The size of `t` in bytes, a number of 64 bits.
pub open spec fn bytes(t: Torrent) -> nat {
    count_of(t.size@, u64::MAX as nat)
}

/// The number of items at the start of `s` that have more than `k` seeders.
pub open spec fn ahead(s: Seq<Torrent>, k: nat) -> nat
    decreases s.len(),
{
    if s.len() == 0 || seeds(s[0]) <= k {
        0
    } else {
        1 + ahead(s.skip(1), k)
    }
}

/// The items of `s` by falling number of seeders; items with the same number stay in the order
/// that they have in `s`. Each item takes its place among those that follow it in `s`: behind
/// those with more seeders, before the others.
pub open spec fn ranked(s: Seq<Torrent>) -> Seq<Torrent>
    decreases s.len(),
{
    if s.len() == 0 {
        s
    } else {
        let rest = ranked(s.skip(1));
        rest.insert(ahead(rest, seeds(s[0])) as int, s[0])
    }
}

/// The items of `s` that have `MIN_SEEDERS` seeders or more, in their order.
pub open spec fn well_seeded(s: Seq<Torrent>) -> Seq<Torrent>
    decreases s.len(),
{
    if s.len() == 0 {
        s
    } else if seeds(s.last()) >= MIN_SEEDERS {
        well_seeded(s.drop_last()).push(s.last())
    } else {
        well_seeded(s.drop_last())
    }
}

/// The results that a reply lists: the ranked ones, without those of few seeders if the
/// search gave more than `CROWD` results, and of these the first `LIMIT`.
pub open spec fn shown(ts: Seq<Torrent>) -> Seq<Torrent> {
    let all = ranked(ts);
    let kept = if all.len() > CROWD {
        well_seeded(all)
    } else {
        all
    };
    if kept.len() > LIMIT {
        kept.take(LIMIT as int)
    } else {
        kept
    }
}

/// The magnet link for a content hash.
pub open spec fn magnet_text(info_hash: Seq<char>) -> Seq<char> {
    "magnet:?xt=urn:btih:"@ + info_hash
}

/// The paragraph that lists one result.
pub open spec fn entry_text(t: Torrent) -> Seq<char> {
    "**"@ + t.name@ + "**\nSize: "@ + size_text(bytes(t)) + " | Seeds: "@ + t.seeders@ + "\n`"@
        + magnet_text(t.info_hash@) + "`\n\n"@
}

/// The paragraphs for the results `s`, in order.
pub open spec fn listing(s: Seq<Torrent>) -> Seq<char>
    decreases s.len(),
{
    if s.len() == 0 {
        Seq::empty()
    } else {
        listing(s.drop_last()) + entry_text(s.last())
    }
}

/// The reply to a search that gave the results `ts`.
pub open spec fn results_text(ts: Seq<Torrent>) -> Seq<char> {
    if ts.len() == 0 || (ts.len() == 1 && ts[0].name@ == "No results returned"@) {
        "No results found."@
    } else if shown(ts).len() == 0 {
        "Results found, but all had low seeders."@
    } else {
        "📂 **Search Results:**\n\n"@ + listing(shown(ts))
    }
}

/// The items of `s` at the indices `order`.
pub open spec fn picked(s: Seq<Torrent>, order: Seq<usize>) -> Seq<Torrent> {
    order.map_values(|i: usize| s[i as int])
}

/// Whether every index in `order` is an index into a sequence of length `len`.
pub open spec fn in_range(order: Seq<usize>, len: nat) -> bool {
    forall|k: int| 0 <= k < order.len() ==> #[trigger] order[k] < len
}

/// Reads a count of 32 bits.
pub fn count32(s: &str) -> (r: u32)
    ensures
        r == count_of(s@, u32::MAX as nat),
{
    let v = to_chars(s);
    match parse_unsigned(&v, u32::MAX as u64) {
        Some(n) => n as u32,
        None => 0,
    }
}

/// Reads a count of 64 bits.
pub fn count64(s: &str) -> (r: u64)
    ensures
        r == count_of(s@, u64::MAX as nat),
{
    let v = to_chars(s);
    match parse_unsigned(&v, u64::MAX) {
        Some(n) => n,
        None => 0,
    }
}

/// The seeders of each result.
pub fn seed_counts(ts: &Vec<Torrent>) -> (r: Vec<u32>)
    ensures
        r.len() == ts.len(),
        forall|i: int| 0 <= i < ts.len() ==> r[i] == seeds(#[trigger] ts[i]),
{
    let mut r: Vec<u32> = Vec::new();
    let mut i: usize = 0;
    while i < ts.len()
        invariant
            i <= ts.len(),
            r.len() == i,
            forall|j: int| 0 <= j < i ==> r[j] == seeds(#[trigger] ts[j]),
        decreases ts.len() - i,
    {
        r.push(count32(ts[i].seeders.as_str()));
        i += 1;
    }
    r
}

/// The indices of the results in the order of their rank.
pub fn rank(ts: &Vec<Torrent>) -> (order: Vec<usize>)
    ensures
        in_range(order@, ts@.len()),
        picked(ts@, order@) == ranked(ts@),
{
    let seed = seed_counts(ts);
    let mut order: Vec<usize> = Vec::new();
    let mut i: usize = ts.len();
    assert(ts@.skip(ts.len() as int) == Seq::<Torrent>::empty());
    assert(picked(ts@, order@) == Seq::<Torrent>::empty());
    while i > 0
        invariant
            i <= ts.len(),
            seed.len() == ts.len(),
            forall|j: int| 0 <= j < ts.len() ==> seed[j] == seeds(#[trigger] ts[j]),
            in_range(order@, ts@.len()),
            picked(ts@, order@) == ranked(ts@.skip(i as int)),
        decreases i,
    {
        i -= 1;
        let k = seed[i];
        let ghost rest = picked(ts@, order@);
        let mut p: usize = 0;
        assert(rest.skip(0) == rest);
        while p < order.len() && seed[order[p]] > k
            invariant
                p <= order.len(),
                rest == picked(ts@, order@),
                seed.len() == ts.len(),
                forall|j: int| 0 <= j < ts.len() ==> seed[j] == seeds(#[trigger] ts[j]),
                in_range(order@, ts@.len()),
                ahead(rest, k as nat) == p + ahead(rest.skip(p as int), k as nat),
            decreases order.len() - p,
        {
            assert(rest.skip(p as int).skip(1) == rest.skip(p + 1));
            assert(rest.skip(p as int)[0] == ts[order[p as int] as int]);
            p += 1;
        }
        assert(ahead(rest, k as nat) == p) by {
            if p < order.len() {
                assert(rest.skip(p as int)[0] == ts[order[p as int] as int]);
            }
        }
        order.insert(p, i);
        assert(picked(ts@, order@) == rest.insert(p as int, ts[i as int]));
        assert(ts@.skip(i as int).skip(1) == ts@.skip(i + 1));
    }
    assert(ts@.skip(0) == ts@);
    order
}

/// The indices of the results that the reply lists, in the order of the listing.
pub fn select(ts: &Vec<Torrent>) -> (chosen: Vec<usize>)
    ensures
        in_range(chosen@, ts@.len()),
        picked(ts@, chosen@) == shown(ts@),
{
    let order = rank(ts);
    let mut chosen: Vec<usize> = Vec::new();
    if order.len() > CROWD {
        let seed = seed_counts(ts);
        let ghost all = ranked(ts@);
        let mut j: usize = 0;
        assert(all.take(0) == Seq::<Torrent>::empty());
        assert(picked(ts@, chosen@) == Seq::<Torrent>::empty());
        while j < order.len()
            invariant
                j <= order.len(),
                all == picked(ts@, order@),
                seed.len() == ts.len(),
                forall|i: int| 0 <= i < ts.len() ==> seed[i] == seeds(#[trigger] ts[i]),
                in_range(order@, ts@.len()),
                in_range(chosen@, ts@.len()),
                picked(ts@, chosen@) == well_seeded(all.take(j as int)),
            decreases order.len() - j,
        {
            let i = order[j];
            assert(all.take(j + 1).drop_last() == all.take(j as int));
            assert(all.take(j + 1).last() == ts[i as int]);
            if seed[i] >= MIN_SEEDERS {
                let ghost before = picked(ts@, chosen@);
                chosen.push(i);
                assert(picked(ts@, chosen@) == before.push(ts[i as int]));
            }
            j += 1;
        }
        assert(all.take(order.len() as int) == all);
    } else {
        chosen = order;
    }
    if chosen.len() > LIMIT {
        let ghost kept = picked(ts@, chosen@);
        chosen.truncate(LIMIT);
        assert(picked(ts@, chosen@) == kept.take(LIMIT as int));
    }
    chosen
}

/// The magnet link for a content hash.
pub fn magnet_link(info_hash: &str) -> (r: String)
    ensures
        r@ == magnet_text(info_hash@),
{
    let mut r = String::from_str("magnet:?xt=urn:btih:");
    r.append(info_hash);
    r
}

/// Appends the paragraph that lists `t`.
pub fn push_entry(out: &mut String, t: &Torrent)
    ensures
        final(out)@ == old(out)@ + entry_text(*t),
{
    out.append("**");
    out.append(t.name.as_str());
    out.append("**\nSize: ");
    let size = format_size(count64(t.size.as_str()));
    out.append(size.as_str());
    out.append(" | Seeds: ");
    out.append(t.seeders.as_str());
    out.append("\n`");
    let magnet = magnet_link(t.info_hash.as_str());
    out.append(magnet.as_str());
    out.append("`\n\n");
}

/// Writes the reply to a search that gave the results `ts`: that nothing was found, where the
/// provider sent no result or its one placeholder; that all had few seeders, where none is
/// left to list; and otherwise the listing.
pub fn results_reply(ts: &Vec<Torrent>) -> (r: String)
    ensures
        r@ == results_text(ts@),
{
    if ts.len() == 0 || (ts.len() == 1 && same_text(ts[0].name.as_str(), "No results returned")) {
        return String::from_str("No results found.");
    }
    let chosen = select(ts);
    if chosen.len() == 0 {
        return String::from_str("Results found, but all had low seeders.");
    }
    let mut out = String::from_str("📂 **Search Results:**\n\n");
    let ghost list = shown(ts@);
    let mut j: usize = 0;
    assert(list.take(0) == Seq::<Torrent>::empty());
    while j < chosen.len()
        invariant
            j <= chosen.len(),
            in_range(chosen@, ts@.len()),
            list == picked(ts@, chosen@),
            out@ == "📂 **Search Results:**\n\n"@ + listing(list.take(j as int)),
        decreases chosen.len() - j,
    {
        assert(list.take(j + 1).drop_last() == list.take(j as int));
        assert(list.take(j + 1).last() == ts[chosen[j as int] as int]);
        push_entry(&mut out, &ts[chosen[j]]);
        j += 1;
    }
    assert(list.take(chosen.len() as int) == list);
    out
}

/// Whether no item of `s` has fewer seeders than one behind it.
pub open spec fn falling(s: Seq<Torrent>) -> bool {
    forall|i: int, j: int| 0 <= i < j < s.len() ==> seeds(s[i]) >= seeds(s[j])
}

/// The items of `s` that have exactly `k` seeders, in their order.
pub open spec fn with_seeds(s: Seq<Torrent>, k: nat) -> Seq<Torrent>
    decreases s.len(),
{
    if s.len() == 0 {
        s
    } else if seeds(s[0]) == k {
        seq![s[0]] + with_seeds(s.skip(1), k)
    } else {
        with_seeds(s.skip(1), k)
    }
}

/// The items that `ahead` counts have more than `k` seeders, and the one behind them, if there
/// is one, has no more than `k`.
pub proof fn lemma_ahead(s: Seq<Torrent>, k: nat)
    ensures
        ahead(s, k) <= s.len(),
        forall|i: int| 0 <= i < ahead(s, k) ==> seeds(#[trigger] s[i]) > k,
        ahead(s, k) < s.len() ==> seeds(s[ahead(s, k) as int]) <= k,
    decreases s.len(),
{
    if s.len() > 0 && seeds(s[0]) > k {
        lemma_ahead(s.skip(1), k);
        assert forall|i: int| 0 <= i < ahead(s, k) implies seeds(#[trigger] s[i]) > k by {
            if i > 0 {
                assert(s[i] == s.skip(1)[i - 1]);
            }
        }
    }
}

/// An item that is put behind items of other numbers of seeders joins those of its own
/// number as their first, and leaves those of every other number as they are.
pub proof fn lemma_with_seeds_insert(s: Seq<Torrent>, p: int, x: Torrent, k: nat)
    requires
        0 <= p <= s.len(),
        forall|i: int| 0 <= i < p ==> seeds(#[trigger] s[i]) != seeds(x),
    ensures
        with_seeds(s.insert(p, x), k) == if seeds(x) == k {
            seq![x] + with_seeds(s, k)
        } else {
            with_seeds(s, k)
        },
    decreases p,
{
    let t = s.insert(p, x);
    if p == 0 {
        assert(t.skip(1) == s);
    } else {
        assert(t[0] == s[0]);
        assert(t.skip(1) == s.skip(1).insert(p - 1, x));
        assert forall|i: int| 0 <= i < p - 1 implies seeds(#[trigger] s.skip(1)[i]) != seeds(x) by {
            assert(s.skip(1)[i] == s[i + 1]);
        }
        lemma_with_seeds_insert(s.skip(1), p - 1, x, k);
        if seeds(s[0]) == k {
            assert(seq![s[0]] + with_seeds(s.skip(1), k) == with_seeds(s, k));
        }
    }
}

/// Ranking orders and loses nothing: the ranked items are the same items, each as often as
/// before, and none has fewer seeders than one behind it.
pub proof fn lemma_ranked_falls(s: Seq<Torrent>)
    ensures
        ranked(s).len() == s.len(),
        ranked(s).to_multiset() == s.to_multiset(),
        falling(ranked(s)),
    decreases s.len(),
{
    if s.len() > 0 {
        let x = s[0];
        let k = seeds(x);
        let rest = ranked(s.skip(1));
        let p = ahead(rest, k) as int;
        let r = rest.insert(p, x);
        lemma_ranked_falls(s.skip(1));
        lemma_ahead(rest, k);
        vstd::seq_lib::to_multiset_insert(rest, p, x);
        vstd::seq_lib::to_multiset_insert(s.skip(1), 0, x);
        assert(s.skip(1).insert(0, x) == s);
        assert forall|i: int, j: int| 0 <= i < j < r.len() implies seeds(r[i]) >= seeds(r[j]) by {
            if j > p {
                assert(r[j] == rest[j - 1]);
                assert(seeds(rest[j - 1]) <= seeds(rest[p]) || j - 1 == p);
            }
            if i > p {
                assert(r[i] == rest[i - 1]);
            }
        }
    }
}

/// Ranking keeps ties in order: the items of any one number of seeders stand in the ranking
/// in the order that they had before.
pub proof fn lemma_ranked_keeps_order(s: Seq<Torrent>, k: nat)
    ensures
        with_seeds(ranked(s), k) == with_seeds(s, k),
    decreases s.len(),
{
    if s.len() > 0 {
        let x = s[0];
        let rest = ranked(s.skip(1));
        lemma_ranked_keeps_order(s.skip(1), k);
        lemma_ahead(rest, seeds(x));
        lemma_with_seeds_insert(rest, ahead(rest, seeds(x)) as int, x, k);
    }
}

/// A reply never lists more than `LIMIT` results.
pub proof fn lemma_shown_is_capped(ts: Seq<Torrent>)
    ensures
        shown(ts).len() <= LIMIT,
{
}

} // verus!
