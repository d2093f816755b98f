//! Filtering the kept lines by a case-insensitive substring.

use vstd::prelude::*;
use crate::lines::{last_n, texts};
use crate::text::{contains, is_substring, lowercase_text, to_lowercase, trim, trimmed_text};

verus! {

/// The query as it is matched: trimmed and lowercased, empty where nothing
/// but whitespace was given.
pub open spec fn normalized_query(filter: Seq<char>) -> Seq<char> {
    if trimmed_text(filter).len() == 0 {
        Seq::empty()
    } else {
        lowercase_text(trimmed_text(filter))
    }
}

/// A line whose lowercase form is `lowered` passes the query `q`: the empty
/// query passes every line, any other one the lines that contain it.
pub open spec fn passes(lowered: Seq<char>, q: Seq<char>) -> bool {
    q.len() == 0 || is_substring(q, lowered)
}

/// `line` passes the query `q`, which is matched against its lowercase form.
pub open spec fn query_matches(line: Seq<char>, q: Seq<char>) -> bool {
    passes(lowercase_text(line), q)
}

/// The lowercase forms of `lines`.
pub open spec fn lowered_texts(lines: Seq<Seq<char>>) -> Seq<Seq<char>> {
    Seq::new(lines.len(), |i: int| lowercase_text(lines[i]))
}

/// The indices below `n` of the lines whose lowercase forms `lowered` pass
/// `q`, in rising order.
pub open spec fn passing_indices(lowered: Seq<Seq<char>>, q: Seq<char>, n: int) -> Seq<int>
    decreases n,
{
    if n <= 0 {
        Seq::empty()
    } else {
        let before = passing_indices(lowered, q, n - 1);
        if passes(lowered[n - 1], q) {
            before.push(n - 1)
        } else {
            before
        }
    }
}

/// The lines at `indices`, each with its index.
pub open spec fn tagged(lines: Seq<Seq<char>>, indices: Seq<int>) -> Seq<(int, Seq<char>)> {
    Seq::new(indices.len(), |k: int| (indices[k], lines[indices[k]]))
}

/// The last `max_lines` of the lines whose lowercase forms `lowered` pass
/// `q`, each with its index in `lines`.
pub open spec fn selected(
    lines: Seq<Seq<char>>,
    lowered: Seq<Seq<char>>,
    q: Seq<char>,
    max_lines: int,
) -> Seq<(int, Seq<char>)> {
    tagged(lines, last_n(passing_indices(lowered, q, lines.len() as int), max_lines))
}

/// The filtered view of `lines`: the last `max_lines` of the lines that pass
/// the query, each with its index in `lines`.
pub open spec fn filter_view(lines: Seq<Seq<char>>, filter: Seq<char>, max_lines: int) -> Seq<
    (int, Seq<char>),
> {
    selected(lines, lowered_texts(lines), normalized_query(filter), max_lines)
}

/// What a vector of numbered lines holds.
pub open spec fn entries(v: Seq<(usize, String)>) -> Seq<(int, Seq<char>)> {
    Seq::new(v.len(), |k: int| (v[k].0 as int, v[k].1@))
}

/// Index `i` is among the numbered lines `v`.
pub open spec fn listed(v: Seq<(usize, String)>, i: int) -> bool {
    exists|k: int| 0 <= k < v.len() && (#[trigger] v[k]).0 == i
}

/// The passing indices are exactly the indices below `n` whose line passes
/// the query, each once and in rising order.
pub proof fn lemma_passing_indices(lowered: Seq<Seq<char>>, q: Seq<char>, n: int)
    requires
        0 <= n <= lowered.len(),
    ensures
        passing_indices(lowered, q, n).len() <= n,
        forall|k: int|
            0 <= k < passing_indices(lowered, q, n).len() ==> {
                &&& 0 <= #[trigger] passing_indices(lowered, q, n)[k] < n
                &&& passes(lowered[passing_indices(lowered, q, n)[k]], q)
            },
        forall|j: int, k: int|
            0 <= j < k < passing_indices(lowered, q, n).len() ==> passing_indices(lowered, q, n)[j]
                < passing_indices(lowered, q, n)[k],
        forall|i: int|
            0 <= i < n && passes(#[trigger] lowered[i], q) ==> passing_indices(
                lowered,
                q,
                n,
            ).contains(i),
    decreases n,
{
    if n > 0 {
        lemma_passing_indices(lowered, q, n - 1);
        let before = passing_indices(lowered, q, n - 1);
        let now = passing_indices(lowered, q, n);
        assert forall|i: int| 0 <= i < n && passes(#[trigger] lowered[i], q) implies now.contains(
            i,
        ) by {
            if i < n - 1 {
                let k = choose|k: int| 0 <= k < before.len() && before[k] == i;
                assert(now[k] == i);
            } else {
                assert(now[now.len() - 1] == i);
            }
        }
    }
}

/// With the empty query every line passes, whatever its lowercase form.
pub proof fn lemma_empty_query_passes_all(lowered: Seq<Seq<char>>, n: int)
    requires
        0 <= n,
    ensures
        passing_indices(lowered, Seq::empty(), n) == Seq::new(n as nat, |i: int| i),
    decreases n,
{
    if n > 0 {
        lemma_empty_query_passes_all(lowered, n - 1);
    }
}

/// The query as it is matched: `filter` trimmed and lowercased.
pub fn normalize_query(filter: &str) -> (q: String)
    ensures
        q@ == normalized_query(filter@),
        filter@.len() == 0 ==> q@.len() == 0,
{
    to_lowercase(trim(filter))
}

/// Whether a line whose lowercase form is `lowered` passes the query.
pub fn line_passes(lowered: &str, query: &str) -> (pass: bool)
    ensures
        pass == passes(lowered@, query@),
{
    query.is_empty() || contains(lowered, query)
}

/// Selects from `lines` those whose lowercase forms, given in `lowered`,
/// pass `query`, and returns the last `max_lines` of them, each with its
/// index in `lines`.
pub fn filter_lines(lines: &[String], lowered: &[String], query: &str, max_lines: usize) -> (out:
    Vec<(usize, String)>)
    requires
        lowered@.len() == lines@.len(),
    ensures
        entries(out@) == selected(texts(lines@), texts(lowered@), query@, max_lines as int),
        out@.len() <= max_lines,
        out@.len() <= lines@.len(),
        forall|k: int|
            0 <= k < out@.len() ==> {
                &&& (#[trigger] out@[k]).0 < lines@.len()
                &&& out@[k].1@ == lines@[out@[k].0 as int]@
                &&& passes(lowered@[out@[k].0 as int]@, query@)
            },
        forall|j: int, k: int| 0 <= j < k < out@.len() ==> out@[j].0 < out@[k].0,
        forall|i: int|
            0 <= i < lines@.len() && passes((#[trigger] lowered@[i])@, query@) && !listed(out@, i)
                ==> out@.len() == max_lines && forall|k: int|
                0 <= k < out@.len() ==> i < (#[trigger] out@[k]).0,
{
    let ghost all = texts(lines@);
    let ghost low = texts(lowered@);
    let ghost q = query@;
    let n = lines.len();
    let mut found: Vec<(usize, String)> = Vec::new();
    let mut i: usize = 0;
    while i < n
        invariant
            i <= n == lines@.len() == lowered@.len(),
            all == texts(lines@),
            low == texts(lowered@),
            q == query@,
            entries(found@) == tagged(all, passing_indices(low, q, i as int)),
            found@.len() == passing_indices(low, q, i as int).len(),
        decreases n - i,
    {
        let ghost before = found@;
        let ghost idx = passing_indices(low, q, i as int);
        let keep = line_passes(lowered[i].as_str(), query);
        if keep {
            found.push((i, lines[i].clone()));
            proof {
                assert(entries(found@) =~= tagged(all, idx.push(i as int))) by {
                    assert forall|k: int| 0 <= k < found@.len() implies entries(found@)[k]
                        == tagged(all, idx.push(i as int))[k] by {
                        if k < before.len() {
                            assert(entries(before)[k] == tagged(all, idx)[k]);
                        }
                    }
                }
            }
        }
        i = i + 1;
    }
    let ghost idx = passing_indices(low, q, n as int);
    let count = found.len();
    let ghost whole = found@;
    let out = if count <= max_lines {
        found
    } else {
        found.split_off(count - max_lines)
    };
    proof {
        let kept = last_n(idx, max_lines as int);
        let drop = idx.len() - kept.len();
        lemma_passing_indices(low, q, n as int);
        assert forall|k: int| 0 <= k < out@.len() implies (#[trigger] out@[k]).0 == idx[k + drop]
            && out@[k].1@ == all[idx[k + drop]] by {
            assert(entries(whole)[k + drop] == tagged(all, idx)[k + drop]);
        }
        assert forall|i: int|
            0 <= i < lines@.len() && passes((#[trigger] lowered@[i])@, q) && !listed(
                out@,
                i,
            ) implies out@.len() == max_lines && forall|k: int|
            0 <= k < out@.len() ==> i < (#[trigger] out@[k]).0 by {
            assert(low[i] == lowered@[i]@);
            let m = choose|m: int| 0 <= m < idx.len() && idx[m] == i;
            if m >= drop {
                assert(out@[m - drop].0 == i);
            }
        }
    }
    out
}

/// Filters `lines` by `filter`, ignoring case, and returns the last
/// `max_lines` matches, each with its index in `lines`.
///
/// A query that is empty once trimmed passes every line.
pub fn apply_filter(lines: &[String], filter: &str, max_lines: usize) -> (out: Vec<
    (usize, String),
>)
    ensures
        entries(out@) == filter_view(texts(lines@), filter@, max_lines as int),
        out@.len() <= max_lines,
        out@.len() <= lines@.len(),
        forall|k: int|
            0 <= k < out@.len() ==> {
                &&& (#[trigger] out@[k]).0 < lines@.len()
                &&& out@[k].1@ == lines@[out@[k].0 as int]@
                &&& query_matches(lines@[out@[k].0 as int]@, normalized_query(filter@))
            },
        forall|j: int, k: int| 0 <= j < k < out@.len() ==> out@[j].0 < out@[k].0,
        forall|i: int|
            0 <= i < lines@.len() && query_matches(
                (#[trigger] lines@[i])@,
                normalized_query(filter@),
            ) && !listed(out@, i) ==> out@.len() == max_lines && forall|k: int|
                0 <= k < out@.len() ==> i < (#[trigger] out@[k]).0,
        normalized_query(filter@).len() == 0 && lines@.len() <= max_lines ==> {
            &&& out@.len() == lines@.len()
            &&& forall|i: int|
                0 <= i < lines@.len() ==> (#[trigger] out@[i]).0 == i && out@[i].1@ == lines@[i]@
        },
        filter@.len() == 0 ==> normalized_query(filter@).len() == 0,
{
    let q = normalize_query(filter);
    let ghost nq = normalized_query(filter@);
    let ghost all = texts(lines@);
    let n = lines.len();
    if q.as_str().is_empty() {
        let out = filter_lines(lines, lines, q.as_str(), max_lines);
        proof {
            lemma_empty_query_passes_all(all, n as int);
            lemma_empty_query_passes_all(lowered_texts(all), n as int);
            assert(q@ == Seq::<char>::empty());
            if lines@.len() <= max_lines {
                assert(entries(out@).len() == n);
                assert forall|i: int| 0 <= i < lines@.len() implies (#[trigger] out@[i]).0 == i
                    && out@[i].1@ == lines@[i]@ by {
                    assert(entries(out@)[i] == selected(all, all, nq, max_lines as int)[i]);
                }
            }
        }
        out
    } else {
        let mut lowered: Vec<String> = Vec::new();
        let mut i: usize = 0;
        while i < n
            invariant
                i <= n == lines@.len(),
                all == texts(lines@),
                texts(lowered@) == lowered_texts(all).take(i as int),
            decreases n - i,
        {
            let ghost before = lowered@;
            let lower = to_lowercase(lines[i].as_str());
            lowered.push(lower);
            proof {
                assert(texts(lowered@) =~= texts(before).push(lower@));
            }
            i = i + 1;
        }
        proof {
            assert(texts(lowered@) =~= lowered_texts(all));
        }
        let out = filter_lines(lines, lowered.as_slice(), q.as_str(), max_lines);
        proof {
            assert forall|k: int| 0 <= k < out@.len() implies query_matches(
                lines@[(#[trigger] out@[k]).0 as int]@,
                nq,
            ) by {
                let at = out@[k].0 as int;
                assert(texts(lowered@)[at] == lowered_texts(all)[at]);
            }
            assert forall|i: int|
                0 <= i < lines@.len() && query_matches((#[trigger] lines@[i])@, nq) && !listed(
                    out@,
                    i,
                ) implies out@.len() == max_lines && forall|k: int|
                0 <= k < out@.len() ==> i < (#[trigger] out@[k]).0 by {
                assert(texts(lowered@)[i] == lowered_texts(all)[i]);
            }
        }
        out
    }
}

} // verus!
