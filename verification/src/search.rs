//! Search and extraction decisions: the query shapes, the merged order of
//! search results without repeated ids, and the choice of a main video.

use vstd::prelude::*;

use crate::links::{is_web_url, needs_ssrf_check, web_url};
use crate::status::HttpStatus;
use crate::text::{
    append_str, chars_of, contains, same_chars, str_contains, str_starts_with, starts_with,
    string_of, trim, trimmed,
};

verus! {

broadcast use vstd::string::group_string_axioms;

// ---------------------------------------------------------------------------
// Keeping the first track of each id
// ---------------------------------------------------------------------------

/// Indices of the first occurrence of each id, in order.
pub open spec fn first_occurrences(ids: Seq<Seq<char>>) -> Seq<int>
    decreases ids.len(),
{
    if ids.len() == 0 {
        Seq::empty()
    } else {
        let prev = first_occurrences(ids.drop_last());
        if ids.drop_last().contains(ids.last()) {
            prev
        } else {
            prev.push(ids.len() - 1)
        }
    }
}

pub open spec fn views(v: Seq<String>) -> Seq<Seq<char>> {
    v.map_values(|s: String| s@)
}

pub open spec fn ints(v: Seq<usize>) -> Seq<int> {
    v.map_values(|i: usize| i as int)
}

proof fn lemma_views_push(v: Seq<String>, x: String)
    ensures
        views(v.push(x)) == views(v).push(x@),
{
    assert(views(v.push(x)) =~= views(v).push(x@));
}

proof fn lemma_ints_push(v: Seq<usize>, x: usize)
    ensures
        ints(v.push(x)) == ints(v).push(x as int),
{
    assert(ints(v.push(x)) =~= ints(v).push(x as int));
}

fn in_list(seen: &Vec<String>, id: &String) -> (r: bool)
    ensures
        r == views(seen@).contains(id@),
{
    let mut k: usize = 0;
    while k < seen.len()
        invariant
            k <= seen.len(),
            forall|j: int| 0 <= j < k ==> seen@[j]@ != id@,
        decreases seen.len() - k,
    {
        if seen[k] == *id {
            assert(views(seen@)[k as int] == id@);
            return true;
        }
        k = k + 1;
    }
    proof {
        if views(seen@).contains(id@) {
            let j = choose|j: int| 0 <= j < views(seen@).len() && views(seen@)[j] == id@;
            assert(seen@[j]@ == id@);
        }
    }
    false
}

/// The positions of the first track of each id.
pub fn first_occurrence_indices(ids: &Vec<String>) -> (r: Vec<usize>)
    ensures
        ints(r@) == first_occurrences(views(ids@)),
{
    let mut kept: Vec<usize> = Vec::new();
    let mut seen: Vec<String> = Vec::new();
    let mut i: usize = 0;
    while i < ids.len()
        invariant
            i <= ids.len(),
            ints(kept@) == first_occurrences(views(ids@).take(i as int)),
            forall|x: Seq<char>| #[trigger] views(seen@).contains(x) <==> views(ids@).take(i as int).contains(x),
        decreases ids.len() - i,
    {
        let ghost pre = views(ids@).take(i as int);
        let ghost cur = views(ids@).take(i + 1);
        let ghost old_seen = views(seen@);
        assert(cur.drop_last() == pre);
        assert(cur.last() == ids@[i as int]@);
        assert(cur == pre.push(ids@[i as int]@));
        let found = in_list(&seen, &ids[i]);
        if !found {
            proof {
                lemma_ints_push(kept@, i);
                lemma_views_push(seen@, ids@[i as int]);
            }
            kept.push(i);
            seen.push(ids[i].clone());
            proof {
                assert forall|x: Seq<char>| #[trigger] views(seen@).contains(x) <==> cur.contains(x) by {
                    assert(old_seen.contains(x) <==> pre.contains(x));
                    vstd::seq_lib::lemma_seq_contains_after_push(old_seen, ids@[i as int]@, x);
                    vstd::seq_lib::lemma_seq_contains_after_push(pre, ids@[i as int]@, x);
                }
            }
        } else {
            proof {
                assert forall|x: Seq<char>| #[trigger] views(seen@).contains(x) <==> cur.contains(x) by {
                    assert(old_seen.contains(x) <==> pre.contains(x));
                    vstd::seq_lib::lemma_seq_contains_after_push(pre, ids@[i as int]@, x);
                }
            }
        }
        i = i + 1;
    }
    assert(views(ids@).take(ids.len() as int) == views(ids@));
    kept
}

proof fn lemma_first_occurrences_bounds(ids: Seq<Seq<char>>)
    ensures
        forall|a: int|
            0 <= a < first_occurrences(ids).len() ==> 0 <= #[trigger] first_occurrences(ids)[a]
                < ids.len(),
        forall|a: int, b: int|
            0 <= a < b < first_occurrences(ids).len() ==> #[trigger] first_occurrences(ids)[a]
                < #[trigger] first_occurrences(ids)[b],
    decreases ids.len(),
{
    if ids.len() > 0 {
        let pre = ids.drop_last();
        lemma_first_occurrences_bounds(pre);
        let fp = first_occurrences(pre);
        if pre.contains(ids.last()) {
            assert(first_occurrences(ids) == fp);
        } else {
            let f = fp.push(ids.len() - 1);
            assert(first_occurrences(ids) == f);
            assert forall|a: int| 0 <= a < f.len() implies 0 <= #[trigger] f[a] < ids.len() by {
                if a < fp.len() {
                    assert(f[a] == fp[a]);
                }
            }
            assert forall|a: int, b: int| 0 <= a < b < f.len() implies #[trigger] f[a] < #[trigger] f[b] by {
                assert(f[a] == fp[a]);
                if b < fp.len() {
                    assert(f[b] == fp[b]);
                }
            }
        }
    }
}

/// The kept positions increase and lie within the input.
pub proof fn law_first_occurrences_ordered(ids: Seq<Seq<char>>)
    ensures
        forall|a: int|
            0 <= a < first_occurrences(ids).len() ==> 0 <= #[trigger] first_occurrences(ids)[a]
                < ids.len(),
        forall|a: int, b: int|
            0 <= a < b < first_occurrences(ids).len() ==> #[trigger] first_occurrences(ids)[a]
                < #[trigger] first_occurrences(ids)[b],
{
    lemma_first_occurrences_bounds(ids);
}

/// No id is kept twice.
pub proof fn law_first_occurrences_distinct(ids: Seq<Seq<char>>)
    ensures
        forall|a: int, b: int|
            0 <= a < b < first_occurrences(ids).len() ==> ids[#[trigger] first_occurrences(ids)[a]]
                != ids[#[trigger] first_occurrences(ids)[b]],
    decreases ids.len(),
{
    if ids.len() > 0 {
        let pre = ids.drop_last();
        law_first_occurrences_distinct(pre);
        lemma_first_occurrences_bounds(pre);
        let fp = first_occurrences(pre);
        assert forall|a: int| 0 <= a < fp.len() implies ids[#[trigger] fp[a]] == pre[fp[a]] by {}
        if !pre.contains(ids.last()) {
            assert forall|a: int| 0 <= a < fp.len() implies ids[#[trigger] fp[a]] != ids.last() by {
                assert(pre[fp[a]] == ids[fp[a]]);
            }
        }
    }
}

proof fn lemma_kept_witness(ids: Seq<Seq<char>>, j: int) -> (a: int)
    requires
        0 <= j < ids.len(),
    ensures
        0 <= a < first_occurrences(ids).len(),
        ids[first_occurrences(ids)[a]] == ids[j],
    decreases ids.len(),
{
    let pre = ids.drop_last();
    let fp = first_occurrences(pre);
    lemma_first_occurrences_bounds(pre);
    if j < pre.len() {
        let a = lemma_kept_witness(pre, j);
        assert(first_occurrences(ids)[a] == fp[a]);
        assert(ids[fp[a]] == pre[fp[a]]);
        a
    } else if pre.contains(ids.last()) {
        let k = choose|k: int| 0 <= k < pre.len() && pre[k] == ids.last();
        let a = lemma_kept_witness(pre, k);
        assert(first_occurrences(ids)[a] == fp[a]);
        assert(ids[fp[a]] == pre[fp[a]]);
        a
    } else {
        assert(first_occurrences(ids)[fp.len() as int] == ids.len() - 1);
        fp.len() as int
    }
}

/// Every id of the input is kept (at its first position).
pub proof fn law_first_occurrences_complete(ids: Seq<Seq<char>>)
    ensures
        forall|j: int|
            #![trigger ids[j]]
            0 <= j < ids.len() ==> exists|a: int|
                #![trigger first_occurrences(ids)[a]]
                0 <= a < first_occurrences(ids).len() && ids[first_occurrences(ids)[a]] == ids[j],
{
    assert forall|j: int| #![trigger ids[j]] 0 <= j < ids.len() implies exists|a: int|
        #![trigger first_occurrences(ids)[a]]
        0 <= a < first_occurrences(ids).len() && ids[first_occurrences(ids)[a]] == ids[j] by {
        let a = lemma_kept_witness(ids, j);
    }
}

// ---------------------------------------------------------------------------
// Merged search results
// ---------------------------------------------------------------------------

/// Where a search result came from.
#[derive(PartialEq, Eq, Structural, Clone, Copy, Debug)]
pub enum SearchSource {
    Audius,
    SoundCloud,
    YouTube,
}

/// SoundCloud and YouTube results alternated, SoundCloud first, for the
/// positions below `k`.
pub open spec fn interleaved(ns: nat, ny: nat, k: nat) -> Seq<(SearchSource, nat)>
    decreases k,
{
    if k == 0 {
        Seq::empty()
    } else {
        let i = (k - 1) as nat;
        interleaved(ns, ny, i) + (if i < ns {
            seq![(SearchSource::SoundCloud, i)]
        } else {
            Seq::empty()
        }) + (if i < ny {
            seq![(SearchSource::YouTube, i)]
        } else {
            Seq::empty()
        })
    }
}

/// The order results are considered in: every Audius result, then
/// SoundCloud and YouTube results alternately.
pub open spec fn search_order(na: nat, ns: nat, ny: nat) -> Seq<(SearchSource, nat)> {
    Seq::new(na, |i: int| (SearchSource::Audius, i as nat)) + interleaved(
        ns,
        ny,
        if ns >= ny {
            ns
        } else {
            ny
        },
    )
}

pub open spec fn id_at(
    p: (SearchSource, nat),
    audius: Seq<Seq<char>>,
    sc: Seq<Seq<char>>,
    yt: Seq<Seq<char>>,
) -> Seq<char> {
    match p.0 {
        SearchSource::Audius => audius[p.1 as int],
        SearchSource::SoundCloud => sc[p.1 as int],
        SearchSource::YouTube => yt[p.1 as int],
    }
}

/// The ids of the results in the considered order.
pub open spec fn order_ids(
    order: Seq<(SearchSource, nat)>,
    audius: Seq<Seq<char>>,
    sc: Seq<Seq<char>>,
    yt: Seq<Seq<char>>,
) -> Seq<Seq<char>> {
    order.map_values(|p: (SearchSource, nat)| id_at(p, audius, sc, yt))
}

/// The entries of `order` at the positions `at`.
pub open spec fn entries_at(order: Seq<(SearchSource, nat)>, at: Seq<int>) -> Seq<
    (SearchSource, nat),
> {
    at.map_values(|i: int| order[i])
}

/// The merged search answer: the considered order, keeping only the first
/// result of each id.
pub open spec fn merged(audius: Seq<Seq<char>>, sc: Seq<Seq<char>>, yt: Seq<Seq<char>>) -> Seq<
    (SearchSource, nat),
> {
    let order = search_order(audius.len(), sc.len(), yt.len());
    entries_at(order, first_occurrences(order_ids(order, audius, sc, yt)))
}

pub open spec fn picks(v: Seq<(SearchSource, usize)>) -> Seq<(SearchSource, nat)> {
    v.map_values(|p: (SearchSource, usize)| (p.0, p.1 as nat))
}

proof fn lemma_picks_push(v: Seq<(SearchSource, usize)>, x: (SearchSource, usize))
    ensures
        picks(v.push(x)) == picks(v).push((x.0, x.1 as nat)),
{
    assert(picks(v.push(x)) =~= picks(v).push((x.0, x.1 as nat)));
}

fn search_order_of(na: usize, ns: usize, ny: usize) -> (r: Vec<(SearchSource, usize)>)
    ensures
        picks(r@) == search_order(na as nat, ns as nat, ny as nat),
{
    let mut r: Vec<(SearchSource, usize)> = Vec::new();
    let mut i: usize = 0;
    while i < na
        invariant
            i <= na,
            picks(r@) == Seq::new(i as nat, |k: int| (SearchSource::Audius, k as nat)),
        decreases na - i,
    {
        proof {
            lemma_picks_push(r@, (SearchSource::Audius, i));
        }
        r.push((SearchSource::Audius, i));
        i = i + 1;
        assert(picks(r@) =~= Seq::new(i as nat, |k: int| (SearchSource::Audius, k as nat)));
    }
    let ghost head = picks(r@);
    let m = if ns >= ny {
        ns
    } else {
        ny
    };
    let mut k: usize = 0;
    while k < m
        invariant
            k <= m,
            m == (if ns >= ny {
                ns
            } else {
                ny
            }),
            picks(r@) == head + interleaved(ns as nat, ny as nat, k as nat),
        decreases m - k,
    {
        let ghost before = picks(r@);
        if k < ns {
            proof {
                lemma_picks_push(r@, (SearchSource::SoundCloud, k));
            }
            r.push((SearchSource::SoundCloud, k));
        }
        let ghost mid = picks(r@);
        assert(mid =~= before + (if k < ns {
            seq![(SearchSource::SoundCloud, k as nat)]
        } else {
            Seq::empty()
        }));
        if k < ny {
            proof {
                lemma_picks_push(r@, (SearchSource::YouTube, k));
            }
            r.push((SearchSource::YouTube, k));
        }
        assert(picks(r@) =~= mid + (if k < ny {
            seq![(SearchSource::YouTube, k as nat)]
        } else {
            Seq::empty()
        }));
        k = k + 1;
        assert(picks(r@) =~= head + interleaved(ns as nat, ny as nat, k as nat));
    }
    r
}

proof fn lemma_interleaved_bounds(ns: nat, ny: nat, k: nat)
    ensures
        forall|j: int|
            0 <= j < interleaved(ns, ny, k).len() ==> match #[trigger] interleaved(ns, ny, k)[j] {
                (SearchSource::SoundCloud, i) => i < ns,
                (SearchSource::YouTube, i) => i < ny,
                _ => false,
            },
    decreases k,
{
    if k > 0 {
        lemma_interleaved_bounds(ns, ny, (k - 1) as nat);
        let prev = interleaved(ns, ny, (k - 1) as nat);
        assert forall|j: int|
            0 <= j < interleaved(ns, ny, k).len() implies match #[trigger] interleaved(
            ns,
            ny,
            k,
        )[j] {
            (SearchSource::SoundCloud, i) => i < ns,
            (SearchSource::YouTube, i) => i < ny,
            _ => false,
        } by {
            if j < prev.len() {
                assert(interleaved(ns, ny, k)[j] == prev[j]);
            }
        }
    }
}

/// Every position of the considered order names an existing result.
proof fn lemma_search_order_bounds(na: nat, ns: nat, ny: nat)
    ensures
        forall|q: int|
            0 <= q < search_order(na, ns, ny).len() ==> match #[trigger] search_order(na, ns, ny)[q] {
                (SearchSource::Audius, i) => i < na,
                (SearchSource::SoundCloud, i) => i < ns,
                (SearchSource::YouTube, i) => i < ny,
            },
{
    let m = if ns >= ny {
        ns
    } else {
        ny
    };
    lemma_interleaved_bounds(ns, ny, m);
    let o = search_order(na, ns, ny);
    assert forall|q: int| 0 <= q < o.len() implies match #[trigger] o[q] {
        (SearchSource::Audius, i) => i < na,
        (SearchSource::SoundCloud, i) => i < ns,
        (SearchSource::YouTube, i) => i < ny,
    } by {
        if q >= na {
            assert(o[q] == interleaved(ns, ny, m)[q - na]);
        }
    }
}

/// The merged search answer for the ids of the Audius, SoundCloud and
/// YouTube results (each list already filtered by duration): which
/// result goes at each position.
pub fn merge_search_results(
    audius: &Vec<String>,
    sc: &Vec<String>,
    yt: &Vec<String>,
) -> (r: Vec<(SearchSource, usize)>)
    ensures
        picks(r@) == merged(views(audius@), views(sc@), views(yt@)),
{
    let order = search_order_of(audius.len(), sc.len(), yt.len());
    let ghost gorder = search_order(audius.len() as nat, sc.len() as nat, yt.len() as nat);
    let ghost gids = order_ids(gorder, views(audius@), views(sc@), views(yt@));
    proof {
        lemma_search_order_bounds(audius.len() as nat, sc.len() as nat, yt.len() as nat);
    }
    let mut ids: Vec<String> = Vec::new();
    let mut j: usize = 0;
    while j < order.len()
        invariant
            j <= order.len(),
            picks(order@) == gorder,
            gids == order_ids(gorder, views(audius@), views(sc@), views(yt@)),
            forall|q: int|
                0 <= q < gorder.len() ==> match #[trigger] gorder[q] {
                    (SearchSource::Audius, i) => i < audius.len(),
                    (SearchSource::SoundCloud, i) => i < sc.len(),
                    (SearchSource::YouTube, i) => i < yt.len(),
                },
            views(ids@) == gids.take(j as int),
        decreases order.len() - j,
    {
        let (src, i) = order[j];
        assert(gorder[j as int] == (src, i as nat));
        let id = match src {
            SearchSource::Audius => audius[i].clone(),
            SearchSource::SoundCloud => sc[i].clone(),
            SearchSource::YouTube => yt[i].clone(),
        };
        assert(id@ == gids[j as int]);
        proof {
            lemma_views_push(ids@, id);
        }
        ids.push(id);
        j = j + 1;
        assert(views(ids@) =~= gids.take(j as int));
    }
    assert(gids.take(order.len() as int) == gids);
    let keep = first_occurrence_indices(&ids);
    let ghost fo = first_occurrences(gids);
    proof {
        lemma_first_occurrences_bounds(gids);
    }
    let mut r: Vec<(SearchSource, usize)> = Vec::new();
    let mut k: usize = 0;
    while k < keep.len()
        invariant
            k <= keep.len(),
            ints(keep@) == fo,
            forall|a: int| 0 <= a < fo.len() ==> 0 <= #[trigger] fo[a] < gids.len(),
            gids.len() == gorder.len(),
            picks(order@) == gorder,
            picks(r@) == entries_at(gorder, fo.take(k as int)),
        decreases keep.len() - k,
    {
        assert(fo[k as int] == keep@[k as int] as int);
        let idx = keep[k];
        proof {
            lemma_picks_push(r@, order@[idx as int]);
        }
        r.push(order[idx]);
        k = k + 1;
        assert(picks(r@) =~= entries_at(gorder, fo.take(k as int)));
    }
    assert(fo.take(keep.len() as int) == fo);
    r
}

/// The merged answer names each id once and leaves none out.
pub proof fn law_merged_ids_distinct_and_complete(
    audius: Seq<Seq<char>>,
    sc: Seq<Seq<char>>,
    yt: Seq<Seq<char>>,
)
    ensures
        forall|a: int, b: int|
            0 <= a < b < merged(audius, sc, yt).len() ==> id_at(
                #[trigger] merged(audius, sc, yt)[a],
                audius,
                sc,
                yt,
            ) != id_at(#[trigger] merged(audius, sc, yt)[b], audius, sc, yt),
        forall|j: int|
            #![trigger order_ids(search_order(audius.len(), sc.len(), yt.len()), audius, sc, yt)[j]]
            0 <= j < order_ids(search_order(audius.len(), sc.len(), yt.len()), audius, sc, yt).len()
                ==> exists|a: int|
                0 <= a < merged(audius, sc, yt).len() && id_at(
                    #[trigger] merged(audius, sc, yt)[a],
                    audius,
                    sc,
                    yt,
                ) == order_ids(search_order(audius.len(), sc.len(), yt.len()), audius, sc, yt)[j],
{
    let order = search_order(audius.len(), sc.len(), yt.len());
    let ids = order_ids(order, audius, sc, yt);
    let fo = first_occurrences(ids);
    law_first_occurrences_distinct(ids);
    law_first_occurrences_complete(ids);
    lemma_first_occurrences_bounds(ids);
    let m = merged(audius, sc, yt);
    assert forall|a: int| 0 <= a < m.len() implies id_at(#[trigger] m[a], audius, sc, yt) == ids[fo[a]] by {
        assert(m[a] == order[fo[a]]);
    }
    assert forall|j: int| #![trigger ids[j]] 0 <= j < ids.len() implies exists|a: int|
        0 <= a < m.len() && id_at(#[trigger] m[a], audius, sc, yt) == ids[j] by {
        let a = choose|a: int| #![trigger fo[a]] 0 <= a < fo.len() && ids[fo[a]] == ids[j];
        assert(id_at(m[a], audius, sc, yt) == ids[fo[a]]);
    }
}

pub open spec fn min_nat(a: nat, b: nat) -> nat {
    if a <= b {
        a
    } else {
        b
    }
}

proof fn lemma_interleaved_len(ns: nat, ny: nat, k: nat)
    ensures
        interleaved(ns, ny, k).len() == min_nat(ns, k) + min_nat(ny, k),
    decreases k,
{
    if k > 0 {
        lemma_interleaved_len(ns, ny, (k - 1) as nat);
    }
}

proof fn lemma_interleaved_prefix(ns: nat, ny: nat, j: nat, k: nat)
    requires
        j <= k,
    ensures
        interleaved(ns, ny, j).len() <= interleaved(ns, ny, k).len(),
        forall|q: int|
            0 <= q < interleaved(ns, ny, j).len() ==> #[trigger] interleaved(ns, ny, k)[q]
                == interleaved(ns, ny, j)[q],
    decreases k - j,
{
    if j < k {
        lemma_interleaved_prefix(ns, ny, j, (k - 1) as nat);
    }
}

/// Where result `i` of SoundCloud and of YouTube stands in the alternation.
proof fn lemma_interleaved_at(ns: nat, ny: nat, i: nat, k: nat)
    requires
        i < k,
    ensures
        i < ns ==> interleaved(ns, ny, k)[(min_nat(ns, i) + min_nat(ny, i)) as int] == (
            SearchSource::SoundCloud,
            i,
        ),
        i < ny ==> interleaved(ns, ny, k)[min_nat(ns, i) as int + min_nat(ny, i) + (if i < ns {
            1int
        } else {
            0int
        })] == (SearchSource::YouTube, i),
{
    lemma_interleaved_len(ns, ny, i);
    lemma_interleaved_len(ns, ny, i + 1);
    lemma_interleaved_prefix(ns, ny, i + 1, k);
    let a = interleaved(ns, ny, i);
    let b = interleaved(ns, ny, i + 1);
    assert(b == interleaved(ns, ny, ((i + 1) - 1) as nat) + (if i < ns {
        seq![(SearchSource::SoundCloud, i)]
    } else {
        Seq::empty()
    }) + (if i < ny {
        seq![(SearchSource::YouTube, i)]
    } else {
        Seq::empty()
    }));
    if i < ns {
        assert(b[a.len() as int] == (SearchSource::SoundCloud, i));
    }
    if i < ny {
        let p = a.len() + (if i < ns {
            1int
        } else {
            0int
        });
        assert(b[p] == (SearchSource::YouTube, i));
    }
}

/// The order in which results are considered: the Audius results first,
/// in their order; then SoundCloud and YouTube alternately, SoundCloud
/// first, for as long as both have results; then the rest of the longer
/// of the two, in order. Every result of every source is considered once.
pub proof fn law_search_order_alternates(na: nat, ns: nat, ny: nat)
    ensures
        search_order(na, ns, ny).len() == na + ns + ny,
        forall|i: nat| i < na ==> #[trigger] search_order(na, ns, ny)[i as int] == (SearchSource::Audius, i),
        forall|i: nat|
            i < ns && i < ny ==> #[trigger] search_order(na, ns, ny)[na as int + 2 * i] == (
                SearchSource::SoundCloud,
                i,
            ),
        forall|i: nat|
            i < ns && i < ny ==> #[trigger] search_order(na, ns, ny)[na as int + 2 * i + 1] == (
                SearchSource::YouTube,
                i,
            ),
        forall|i: nat|
            ny <= i < ns ==> #[trigger] search_order(na, ns, ny)[na as int + ny + i] == (
                SearchSource::SoundCloud,
                i,
            ),
        forall|i: nat|
            ns <= i < ny ==> #[trigger] search_order(na, ns, ny)[na as int + ns + i] == (
                SearchSource::YouTube,
                i,
            ),
{
    let m = if ns >= ny {
        ns
    } else {
        ny
    };
    let t = interleaved(ns, ny, m);
    lemma_interleaved_len(ns, ny, m);
    assert forall|i: nat| i < ns && i < ny implies #[trigger] search_order(na, ns, ny)[na as int + 2 * i] == (
        SearchSource::SoundCloud,
        i,
    ) by {
        lemma_interleaved_at(ns, ny, i, m);
        assert(search_order(na, ns, ny)[na as int + 2 * i] == t[2 * (i as int)]);
    }
    assert forall|i: nat| i < ns && i < ny implies #[trigger] search_order(na, ns, ny)[na as int + 2 * i + 1] == (
        SearchSource::YouTube,
        i,
    ) by {
        lemma_interleaved_at(ns, ny, i, m);
        assert(search_order(na, ns, ny)[na as int + 2 * i + 1] == t[2 * (i as int) + 1]);
    }
    assert forall|i: nat| ny <= i < ns implies #[trigger] search_order(na, ns, ny)[na as int + ny + i] == (
        SearchSource::SoundCloud,
        i,
    ) by {
        lemma_interleaved_at(ns, ny, i, m);
        assert(search_order(na, ns, ny)[na as int + ny + i] == t[ny as int + i]);
    }
    assert forall|i: nat| ns <= i < ny implies #[trigger] search_order(na, ns, ny)[na as int + ns + i] == (
        SearchSource::YouTube,
        i,
    ) by {
        lemma_interleaved_at(ns, ny, i, m);
        assert(search_order(na, ns, ny)[na as int + ns + i] == t[ns as int + i]);
    }
}

/// A result considered at position `q` has its id in the merged answer.
proof fn lemma_considered_is_merged(audius: Seq<Seq<char>>, sc: Seq<Seq<char>>, yt: Seq<Seq<char>>, q: int)
    requires
        0 <= q < audius.len() + sc.len() + yt.len(),
    ensures
        exists|a: int|
            0 <= a < merged(audius, sc, yt).len() && id_at(#[trigger] merged(audius, sc, yt)[a], audius, sc, yt)
                == id_at(search_order(audius.len(), sc.len(), yt.len())[q], audius, sc, yt),
{
    let order = search_order(audius.len(), sc.len(), yt.len());
    law_search_order_alternates(audius.len(), sc.len(), yt.len());
    law_merged_ids_distinct_and_complete(audius, sc, yt);
    let ids = order_ids(order, audius, sc, yt);
    assert(ids[q] == id_at(order[q], audius, sc, yt));
}

/// Every result is kept unless an earlier one has the same id: the merged
/// answer holds the id of every Audius, SoundCloud and YouTube result.
pub proof fn law_merged_keeps_every_result(
    audius: Seq<Seq<char>>,
    sc: Seq<Seq<char>>,
    yt: Seq<Seq<char>>,
)
    ensures
        forall|i: int|
            #![trigger audius[i]]
            0 <= i < audius.len() ==> exists|a: int|
                0 <= a < merged(audius, sc, yt).len() && id_at(
                    #[trigger] merged(audius, sc, yt)[a],
                    audius,
                    sc,
                    yt,
                ) == audius[i],
        forall|i: int|
            #![trigger sc[i]]
            0 <= i < sc.len() ==> exists|a: int|
                0 <= a < merged(audius, sc, yt).len() && id_at(
                    #[trigger] merged(audius, sc, yt)[a],
                    audius,
                    sc,
                    yt,
                ) == sc[i],
        forall|i: int|
            #![trigger yt[i]]
            0 <= i < yt.len() ==> exists|a: int|
                0 <= a < merged(audius, sc, yt).len() && id_at(
                    #[trigger] merged(audius, sc, yt)[a],
                    audius,
                    sc,
                    yt,
                ) == yt[i],
{
    let (na, ns, ny) = (audius.len(), sc.len(), yt.len());
    law_search_order_alternates(na, ns, ny);
    assert forall|i: int| #![trigger audius[i]] 0 <= i < audius.len() implies exists|a: int|
        0 <= a < merged(audius, sc, yt).len() && id_at(#[trigger] merged(audius, sc, yt)[a], audius, sc, yt)
            == audius[i] by {
        let n = i as nat;
        assert(search_order(na, ns, ny)[n as int] == (SearchSource::Audius, n));
        lemma_considered_is_merged(audius, sc, yt, i);
    }
    assert forall|i: int| #![trigger sc[i]] 0 <= i < sc.len() implies exists|a: int|
        0 <= a < merged(audius, sc, yt).len() && id_at(#[trigger] merged(audius, sc, yt)[a], audius, sc, yt)
            == sc[i] by {
        let n = i as nat;
        if n < ny {
            assert(search_order(na, ns, ny)[na as int + 2 * n] == (SearchSource::SoundCloud, n));
            lemma_considered_is_merged(audius, sc, yt, na as int + 2 * n);
        } else {
            assert(search_order(na, ns, ny)[na as int + ny + n] == (SearchSource::SoundCloud, n));
            lemma_considered_is_merged(audius, sc, yt, na as int + ny + n);
        }
    }
    assert forall|i: int| #![trigger yt[i]] 0 <= i < yt.len() implies exists|a: int|
        0 <= a < merged(audius, sc, yt).len() && id_at(#[trigger] merged(audius, sc, yt)[a], audius, sc, yt)
            == yt[i] by {
        let n = i as nat;
        if n < ns {
            assert(search_order(na, ns, ny)[na as int + 2 * n + 1] == (SearchSource::YouTube, n));
            lemma_considered_is_merged(audius, sc, yt, na as int + 2 * n + 1);
        } else {
            assert(search_order(na, ns, ny)[na as int + ns + n] == (SearchSource::YouTube, n));
            lemma_considered_is_merged(audius, sc, yt, na as int + ns + n);
        }
    }
}

// Queries and extraction
// ---------------------------------------------------------------------------

/// What a search query asks for.
#[derive(PartialEq, Eq, Structural, Clone, Copy, Debug)]
pub enum QueryKind {
    /// A blank query: answered with no results.
    Empty,
    /// A link: fetched as it is, after the SSRF check when `check_ssrf`.
    Link { check_ssrf: bool },
    /// Words: searched on Audius, SoundCloud and YouTube.
    Words,
}

pub open spec fn query_kind(q: Seq<char>) -> QueryKind {
    let t = trim(q);
    if t.len() == 0 {
        QueryKind::Empty
    } else if is_web_url(t) {
        QueryKind::Link { check_ssrf: needs_ssrf_check(t) }
    } else {
        QueryKind::Words
    }
}

/// Classifies a search query (judged after trimming).
pub fn classify_query(q: &str) -> (r: QueryKind)
    ensures
        r == query_kind(q@),
{
    let t = trimmed(q);
    if t.as_str().is_empty() {
        QueryKind::Empty
    } else if web_url(t.as_str()) {
        QueryKind::Link { check_ssrf: crate::links::requires_ssrf_check(t.as_str()) }
    } else {
        QueryKind::Words
    }
}

/// The extractor search arguments for a worded query: ten YouTube and
/// ten SoundCloud results.
pub fn search_arguments(query: &str) -> (r: (String, String))
    ensures
        r.0@ == "ytsearch10:"@ + query@,
        r.1@ == "scsearch10:"@ + query@,
{
    let mut a = chars_of("ytsearch10:");
    append_str(&mut a, query);
    let mut b = chars_of("scsearch10:");
    append_str(&mut b, query);
    (string_of(&a), string_of(&b))
}

/// The URL an extraction works on: trimmed; blank or option-like
/// (leading `-`) URLs are refused.
pub open spec fn extract_target(url: Seq<char>) -> Result<Seq<char>, HttpStatus> {
    let t = trim(url);
    if t.len() == 0 || starts_with(t, "-"@) {
        Err(HttpStatus::BadRequest)
    } else {
        Ok(t)
    }
}

pub fn validate_extract_url(url: &str) -> (r: Result<String, HttpStatus>)
    ensures
        match extract_target(url@) {
            Ok(t) => r matches Ok(s) && s@ == t,
            Err(e) => r == Err::<String, HttpStatus>(e),
        },
{
    let t = trimmed(url);
    if t.as_str().is_empty() || str_starts_with(t.as_str(), "-") {
        Err(HttpStatus::BadRequest)
    } else {
        Ok(t)
    }
}

/// A YouTube radio or "my mix" playlist.
pub open spec fn radio_mix(url: Seq<char>) -> bool {
    contains(url, "list=RD"@) || contains(url, "list=UL"@)
}

pub fn is_radio_mix(url: &str) -> (r: bool)
    ensures
        r == radio_mix(url@),
{
    str_contains(url, "list=RD") || str_contains(url, "list=UL")
}

/// Position of the first `x` in `ids` at or after `from`.
pub open spec fn index_from(ids: Seq<Seq<char>>, x: Seq<char>, from: int) -> Option<int>
    decreases ids.len() - from,
{
    if from < 0 || from >= ids.len() {
        None
    } else if ids[from] == x {
        Some(from)
    } else {
        index_from(ids, x, from + 1)
    }
}

/// The main video among extracted tracks (given by id), when none was
/// found directly: the first track with the link's video id, else the
/// first track unless the link names a playlist.
pub open spec fn main_video_pick(ids: Seq<Seq<char>>, vid: Option<Seq<char>>, url: Seq<char>) -> Option<
    int,
> {
    if vid is Some && index_from(ids, vid->0, 0) is Some {
        index_from(ids, vid->0, 0)
    } else if ids.len() > 0 && !contains(url, "list="@) {
        Some(0)
    } else {
        None
    }
}

pub fn pick_main_video(ids: &Vec<String>, vid: Option<&str>, url: &str) -> (r: Option<usize>)
    ensures
        match main_video_pick(views(ids@), crate::tracks::str_opt(vid), url@) {
            Some(i) => r == Some(i as usize) && 0 <= i < ids.len(),
            None => r is None,
        },
{
    if let Some(v) = vid {
        let vs = v.to_owned();
        let mut k: usize = 0;
        while k < ids.len()
            invariant
                k <= ids.len(),
                vs@ == v@,
                vid == Some(v),
                index_from(views(ids@), v@, 0) == index_from(views(ids@), v@, k as int),
            decreases ids.len() - k,
        {
            if ids[k] == vs {
                assert(views(ids@)[k as int] == v@);
                assert(index_from(views(ids@), v@, k as int) == Some(k as int));
                return Some(k);
            }
            assert(views(ids@)[k as int] != v@);
            k = k + 1;
        }
    }
    if ids.len() > 0 && !str_contains(url, "list=") {
        Some(0)
    } else {
        None
    }
}

/// How a search query is read, after trimming: blank asks for nothing;
/// a web link (`http://` or `https://`) is fetched as it is, checked for
/// SSRF unless it names YouTube or SoundCloud; anything else is searched
/// for as words.
pub proof fn law_query_kinds(q: Seq<char>)
    ensures
        ({
            let t = trim(q);
            let web = starts_with(t, "http://"@) || starts_with(t, "https://"@);
            let trusted = contains(t, "youtube.com"@) || contains(t, "youtu.be"@) || contains(
                t,
                "soundcloud.com"@,
            );
            &&& (t.len() == 0 ==> query_kind(q) == QueryKind::Empty)
            &&& (t.len() > 0 && web ==> query_kind(q) == QueryKind::Link { check_ssrf: !trusted })
            &&& (t.len() > 0 && !web ==> query_kind(q) == QueryKind::Words)
        }),
{
}

/// An extraction works on the trimmed link, and refuses a blank one or
/// one that starts like an option (`-`).
pub proof fn law_extract_targets(url: Seq<char>)
    ensures
        extract_target(url) is Ok <==> trim(url).len() > 0 && !starts_with(trim(url), "-"@),
        extract_target(url) matches Ok(t) ==> t == trim(url),
        extract_target(url) matches Err(e) ==> e == HttpStatus::BadRequest,
        radio_mix(url) <==> contains(url, "list=RD"@) || contains(url, "list=UL"@),
{
}

proof fn lemma_index_from(ids: Seq<Seq<char>>, x: Seq<char>, from: int)
    requires
        0 <= from,
    ensures
        index_from(ids, x, from) matches Some(i) ==> from <= i < ids.len() && ids[i] == x && forall|j: int|
            from <= j < i ==> ids[j] != x,
        index_from(ids, x, from) is None ==> forall|j: int| from <= j < ids.len() ==> ids[j] != x,
    decreases ids.len() - from,
{
    if from < ids.len() && ids[from] != x {
        lemma_index_from(ids, x, from + 1);
    }
}

/// The main video of an extraction: the first track whose id is the
/// link's video id when there is one; otherwise the first track, unless
/// the link names a playlist (`list=`), in which case none.
pub proof fn law_main_video_pick(ids: Seq<Seq<char>>, vid: Option<Seq<char>>, url: Seq<char>)
    ensures
        vid matches Some(v) ==> ((exists|i: int| 0 <= i < ids.len() && ids[i] == v) ==> (main_video_pick(
            ids,
            vid,
            url,
        ) matches Some(i) && 0 <= i < ids.len() && ids[i] == v && forall|j: int|
            0 <= j < i ==> ids[j] != v)),
        !(vid matches Some(v) && exists|i: int| 0 <= i < ids.len() && ids[i] == v) ==> main_video_pick(
            ids,
            vid,
            url,
        ) == (if ids.len() > 0 && !contains(url, "list="@) {
            Some(0int)
        } else {
            None
        }),
{
    if let Some(v) = vid {
        lemma_index_from(ids, v, 0);
    }
}

} // verus!
