//! Scoring, thresholding, ranking and selection of tone labels.
//!
//! Each keyword category earns its weight for every distinct trigger word
//! that occurs in the lowercased text; a question mark anywhere in the text
//! earns the interrogative category a fixed score. Categories whose score
//! reaches the threshold are ranked by descending score, ties broken by
//! declaration order, and the first three are reported.

use crate::text::{
    chars_vec, contains_char, contains_seq, contains_str, lower_of, lowercase, matches_at,
};
use crate::tone::{
    all_tones, decl_index, decl_pos, keyword_at, keyword_count, label_str,
    lemma_all_tones_distinct, lemma_keywords_nonempty, lemma_label_injective, spec_all_tones,
    spec_keywords, spec_label, Tone,
};
use vstd::prelude::*;

verus! {

/// Score contributed by a word list: `w` for every word of `kws` that
/// occurs in `text`, each distinct word counted once.
pub open spec fn weighted_hits(kws: Seq<Seq<char>>, text: Seq<char>, w: nat) -> nat
    decreases kws.len(),
{
    if kws.len() == 0 {
        0
    } else {
        weighted_hits(kws.drop_last(), text, w) + (if contains_seq(text, kws.last()) {
            w
        } else {
            0
        })
    }
}

/// The weight a single trigger word of a category carries: urgency words
/// signal strongly and count double.
pub open spec fn spec_weight(t: Tone) -> nat {
    if t == Tone::Urgent {
        2
    } else {
        1
    }
}

/// The score of a category: the lowercased text decides word matches, the
/// original text decides the question-mark check.
pub open spec fn spec_score(t: Tone, lower: Seq<char>, orig: Seq<char>) -> nat {
    if t == Tone::Interrogative {
        if orig.contains('?') {
            2
        } else {
            0
        }
    } else {
        weighted_hits(spec_keywords(t), lower, spec_weight(t))
    }
}

/// A category appears in the result only when its score reaches this
/// threshold.
pub open spec fn spec_qualifies(t: Tone, lower: Seq<char>, orig: Seq<char>) -> bool {
    spec_score(t, lower, orig) >= 2
}

/// `a` is ranked strictly ahead of `b`: a higher score, or the same score
/// and an earlier declaration.
pub open spec fn prefers(a: Tone, b: Tone, lower: Seq<char>, orig: Seq<char>) -> bool {
    ||| spec_score(a, lower, orig) > spec_score(b, lower, orig)
    ||| (spec_score(a, lower, orig) == spec_score(b, lower, orig) && decl_index(a) < decl_index(
        b,
    ))
}

/// Index of the best-ranked entry of `cands`: the earliest entry that no
/// other entry is ranked ahead of.
pub open spec fn spec_best_idx(cands: Seq<Tone>, lower: Seq<char>, orig: Seq<char>) -> int
    decreases cands.len(),
{
    if cands.len() <= 1 {
        0
    } else {
        let p = spec_best_idx(cands.drop_last(), lower, orig);
        if prefers(cands.last(), cands[p], lower, orig) {
            cands.len() - 1
        } else {
            p
        }
    }
}

pub proof fn lemma_best_idx_range(cands: Seq<Tone>, lower: Seq<char>, orig: Seq<char>)
    requires
        cands.len() > 0,
    ensures
        0 <= spec_best_idx(cands, lower, orig) < cands.len(),
    decreases cands.len(),
{
    if cands.len() > 1 {
        lemma_best_idx_range(cands.drop_last(), lower, orig);
    }
}

/// The ranked selection: repeatedly take the best-ranked remaining
/// candidate while it still qualifies, at most `k` times.
pub open spec fn spec_select(cands: Seq<Tone>, k: nat, lower: Seq<char>, orig: Seq<char>) -> Seq<
    Tone,
>
    decreases k,
{
    if k == 0 || cands.len() == 0 {
        Seq::empty()
    } else {
        let b = spec_best_idx(cands, lower, orig);
        if spec_qualifies(cands[b], lower, orig) {
            seq![cands[b]] + spec_select(cands.remove(b), (k - 1) as nat, lower, orig)
        } else {
            Seq::empty()
        }
    }
}

/// The classification result as categories: of the qualifying categories,
/// the up-to-three best-ranked ones, best first.
pub open spec fn spec_tones(lower: Seq<char>, orig: Seq<char>) -> Seq<Tone> {
    spec_select(spec_all_tones(), 3, lower, orig)
}

/// The labels of a sequence of categories.
pub open spec fn labels_of(ts: Seq<Tone>) -> Seq<Seq<char>> {
    ts.map_values(|t: Tone| spec_label(t))
}

/// The classification result as labels.
pub open spec fn spec_labels(lower: Seq<char>, orig: Seq<char>) -> Seq<Seq<char>> {
    labels_of(spec_tones(lower, orig))
}

/// The best-ranked entry is not outranked by any entry.
proof fn lemma_best_idx_is_best(cands: Seq<Tone>, lower: Seq<char>, orig: Seq<char>)
    requires
        cands.len() > 0,
    ensures
        forall|j: int|
            0 <= j < cands.len() ==> !prefers(
                cands[j],
                cands[spec_best_idx(cands, lower, orig)],
                lower,
                orig,
            ),
    decreases cands.len(),
{
    lemma_best_idx_range(cands, lower, orig);
    let b = spec_best_idx(cands, lower, orig);
    if cands.len() > 1 {
        lemma_best_idx_is_best(cands.drop_last(), lower, orig);
        lemma_best_idx_range(cands.drop_last(), lower, orig);
        let p = spec_best_idx(cands.drop_last(), lower, orig);
        assert(cands.drop_last()[p] == cands[p]);
        assert forall|j: int| 0 <= j < cands.len() implies !prefers(
            cands[j],
            cands[b],
            lower,
            orig,
        ) by {
            if j < cands.len() - 1 {
                assert(cands.drop_last()[j] == cands[j]);
                assert(!prefers(cands[j], cands[p], lower, orig));
            }
        }
    }
}

/// Removing one entry of a duplicate-free sequence keeps it duplicate-free,
/// drops exactly that entry, and keeps all others.
proof fn lemma_remove_membership(s: Seq<Tone>, b: int)
    requires
        0 <= b < s.len(),
        s.no_duplicates(),
    ensures
        s.remove(b).no_duplicates(),
        !s.remove(b).contains(s[b]),
        forall|t: Tone| #[trigger] s.remove(b).contains(t) ==> s.contains(t),
        forall|t: Tone| s.contains(t) && t != s[b] ==> s.remove(b).contains(t),
{
    s.remove_ensures(b);
    let r = s.remove(b);
    assert forall|i: int, j: int|
        0 <= i < r.len() && 0 <= j < r.len() && i != j implies r[i] != r[j] by {
        let si: int = if i < b {
            i
        } else {
            i + 1
        };
        let sj: int = if j < b {
            j
        } else {
            j + 1
        };
        assert(r[i] == s[si]);
        assert(r[j] == s[sj]);
    }
    assert forall|i: int| 0 <= i < r.len() implies r[i] != s[b] by {
        let si: int = if i < b {
            i
        } else {
            i + 1
        };
        assert(r[i] == s[si]);
    }
    assert forall|t: Tone| s.contains(t) && t != s[b] implies s.remove(b).contains(t) by {
        let j = choose|j: int| 0 <= j < s.len() && s[j] == t;
        let rj: int = if j < b {
            j
        } else {
            j - 1
        };
        assert(r[rj] == t);
    }
}

/// What the ranked selection guarantees: at most `k` entries, no entry
/// twice, every entry a qualifying candidate, entries best-ranked first,
/// no qualifying candidate left out while room remains, and no left-out
/// candidate ranked ahead of a selected one.
proof fn lemma_select_props(cands: Seq<Tone>, k: nat, lower: Seq<char>, orig: Seq<char>)
    requires
        cands.no_duplicates(),
    ensures
        ({
            let r = spec_select(cands, k, lower, orig);
            &&& r.len() <= k
            &&& r.no_duplicates()
            &&& forall|i: int| 0 <= i < r.len() ==> cands.contains(#[trigger] r[i])
            &&& forall|i: int| 0 <= i < r.len() ==> spec_qualifies(#[trigger] r[i], lower, orig)
            &&& forall|i: int, j: int|
                0 <= i < j < r.len() ==> !prefers(r[j], r[i], lower, orig)
            &&& (r.len() < k ==> forall|t: Tone|
                cands.contains(t) && spec_qualifies(t, lower, orig) ==> r.contains(t))
            &&& forall|t: Tone, i: int|
                cands.contains(t) && !r.contains(t) && 0 <= i < r.len() ==> !(#[trigger] prefers(
                    t,
                    r[i],
                    lower,
                    orig,
                ))
        }),
    decreases k,
{
    let r = spec_select(cands, k, lower, orig);
    if k == 0 || cands.len() == 0 {
    } else {
        lemma_best_idx_range(cands, lower, orig);
        lemma_best_idx_is_best(cands, lower, orig);
        let b = spec_best_idx(cands, lower, orig);
        let best = cands[b];
        if spec_qualifies(best, lower, orig) {
            lemma_remove_membership(cands, b);
            let rest = cands.remove(b);
            lemma_select_props(rest, (k - 1) as nat, lower, orig);
            let rr = spec_select(rest, (k - 1) as nat, lower, orig);
            assert(r == seq![best] + rr);
            assert(r[0] == best);
            assert(forall|i: int| 0 < i < r.len() ==> r[i] == rr[i - 1]);
            assert(cands.contains(best));
            // every later entry comes from the remaining candidates and is
            // neither the best entry nor ranked ahead of it
            assert forall|i: int| 0 < i < r.len() implies cands.contains(#[trigger] r[i])
                && !prefers(r[i], best, lower, orig) && r[i] != best && spec_qualifies(
                r[i],
                lower,
                orig,
            ) by {
                assert(rr.contains(rr[i - 1]));
                let j = choose|j: int| 0 <= j < cands.len() && cands[j] == r[i];
                assert(!prefers(cands[j], best, lower, orig));
            }
            // no entry appears twice
            assert forall|i: int, j: int|
                0 <= i < r.len() && 0 <= j < r.len() && i != j implies r[i] != r[j] by {
                if 0 < i && 0 < j {
                    assert(r[i] == rr[i - 1]);
                    assert(r[j] == rr[j - 1]);
                    assert(rr[i - 1] != rr[j - 1]);
                }
            }
            // entries come best-ranked first
            assert forall|i: int, j: int| 0 <= i < j < r.len() implies !prefers(
                r[j],
                r[i],
                lower,
                orig,
            ) by {
                if 0 < i {
                    assert(r[i] == rr[i - 1]);
                    assert(r[j] == rr[j - 1]);
                    assert(!prefers(rr[j - 1], rr[i - 1], lower, orig));
                }
            }
            // no qualifying candidate is passed over while room remains
            if r.len() < k {
                assert forall|t: Tone|
                    cands.contains(t) && spec_qualifies(t, lower, orig) implies r.contains(
                    t,
                ) by {
                    if t != best {
                        assert(rest.contains(t));
                        assert(rr.contains(t));
                        let j = choose|j: int| 0 <= j < rr.len() && rr[j] == t;
                        assert(r[j + 1] == t);
                    } else {
                        assert(r[0] == t);
                    }
                }
            }
            // a left-out candidate outranks no selected entry
            assert forall|t: Tone, i: int|
                cands.contains(t) && !r.contains(t) && 0 <= i < r.len() implies !(prefers(
                t,
                r[i],
                lower,
                orig,
            )) by {
                assert(t != best) by {
                    assert(r[0] == best);
                }
                let j = choose|j: int| 0 <= j < cands.len() && cands[j] == t;
                assert(!prefers(cands[j], best, lower, orig));
                assert(rest.contains(t));
                assert forall|m: int| 0 <= m < rr.len() implies rr[m] != t by {
                    if rr[m] == t {
                        assert(r[m + 1] == t);
                    }
                }
                if i > 0 {
                    assert(r[i] == rr[i - 1]);
                    assert(!prefers(t, rr[i - 1], lower, orig));
                }
            }
        } else {
            // nothing qualifies: the best candidate already falls short
            assert forall|t: Tone|
                cands.contains(t) && spec_qualifies(t, lower, orig) implies r.contains(t) by {
                let j = choose|j: int| 0 <= j < cands.len() && cands[j] == t;
                assert(!prefers(cands[j], best, lower, orig));
            }
        }
    }
}

/// The score of category `t` against a text given as its lowercased
/// characters and its original form.
pub fn tone_score(t: Tone, lower_chars: &Vec<char>, orig: &str) -> (s: u32)
    ensures
        s == spec_score(t, lower_chars@, orig@),
{
    match t {
        Tone::Interrogative => {
            if contains_char(orig, '?') {
                2
            } else {
                0
            }
        },
        _ => {
            let w: u32 = if t == Tone::Urgent {
                2
            } else {
                1
            };
            let n: usize = keyword_count(t);
            let mut s: u32 = 0;
            let mut i: usize = 0;
            while i < n
                invariant
                    t != Tone::Interrogative,
                    w == spec_weight(t),
                    n == spec_keywords(t).len(),
                    i <= n,
                    s == weighted_hits(spec_keywords(t).take(i as int), lower_chars@, w as nat),
                    s <= 2 * i,
                decreases n - i,
            {
                proof {
                    assert(spec_keywords(t).take(i as int + 1).drop_last() =~= spec_keywords(
                        t,
                    ).take(i as int));
                    assert(spec_keywords(t).take(i as int + 1).last() == spec_keywords(
                        t,
                    )[i as int]);
                }
                if contains_str(lower_chars, keyword_at(t, i)) {
                    s = s + w;
                }
                i += 1;
            }
            proof {
                assert(spec_keywords(t).take(n as int) =~= spec_keywords(t));
            }
            s
        },
    }
}

/// Index of the best-ranked entry of `cands`.
fn find_best(cands: &Vec<Tone>, lower_chars: &Vec<char>, orig: &str) -> (best: usize)
    requires
        cands.len() > 0,
    ensures
        best == spec_best_idx(cands@, lower_chars@, orig@),
        best < cands.len(),
{
    let mut best: usize = 0;
    let mut best_score: u32 = tone_score(cands[0], lower_chars, orig);
    let mut i: usize = 1;
    while i < cands.len()
        invariant
            0 < i <= cands.len(),
            best < i,
            best == spec_best_idx(cands@.take(i as int), lower_chars@, orig@),
            best_score == spec_score(cands@[best as int], lower_chars@, orig@),
        decreases cands.len() - i,
    {
        proof {
            assert(cands@.take(i as int + 1).drop_last() =~= cands@.take(i as int));
            assert(cands@.take(i as int + 1).last() == cands@[i as int]);
            lemma_best_idx_range(cands@.take(i as int), lower_chars@, orig@);
            assert(cands@.take(i as int)[best as int] == cands@[best as int]);
        }
        let sc = tone_score(cands[i], lower_chars, orig);
        if sc > best_score || (sc == best_score && decl_pos(cands[i]) < decl_pos(cands[best])) {
            best = i;
            best_score = sc;
        }
        i += 1;
    }
    proof {
        assert(cands@.take(cands@.len() as int) =~= cands@);
    }
    best
}

/// Classify a text: return the labels of the best-ranked qualifying tone
/// categories, at most three, best first.
pub fn analyze_tone(text: &str) -> (r: Vec<String>)
    ensures
        r.deep_view() == spec_labels(lower_of(text@), text@),
        r@.len() <= 3,
{
    let lowered: String = lowercase(text);
    let lower_chars: Vec<char> = chars_vec(lowered.as_str());
    let mut cands: Vec<Tone> = all_tones();
    let mut out: Vec<String> = Vec::new();
    let mut round: usize = 0;
    while round < 3 && cands.len() > 0
        invariant
            lower_chars@ == lower_of(text@),
            round <= 3,
            out@.len() <= round,
            spec_labels(lower_of(text@), text@) == out.deep_view() + labels_of(
                spec_select(cands@, (3 - round) as nat, lower_chars@, text@),
            ),
        decreases 3 - round,
    {
        proof {
            lemma_best_idx_range(cands@, lower_chars@, text@);
        }
        let b = find_best(&cands, &lower_chars, text);
        let sc = tone_score(cands[b], &lower_chars, text);
        if sc < 2 {
            proof {
                let k = (3 - round) as nat;
                assert(spec_select(cands@, k, lower_chars@, text@) =~= Seq::<Tone>::empty());
                assert(spec_select(cands@, 0, lower_chars@, text@) =~= Seq::<Tone>::empty());
                assert(labels_of(Seq::<Tone>::empty()) =~= Seq::<Seq<char>>::empty());
                assert(out.deep_view() + Seq::<Seq<char>>::empty() =~= out.deep_view());
            }
            round = 3;
        } else {
            let ghost prev = cands@;
            let ghost prev_out = out.deep_view();
            let ghost k = (3 - round) as nat;
            let t = cands.remove(b);
            let lab = label_str(t);
            out.push(lab.to_owned());
            proof {
                assert(spec_select(prev, k, lower_chars@, text@) == seq![t] + spec_select(
                    cands@,
                    (k - 1) as nat,
                    lower_chars@,
                    text@,
                ));
                assert(out.deep_view() =~= prev_out.push(spec_label(t)));
                assert(prev_out + labels_of(spec_select(prev, k, lower_chars@, text@))
                    =~= out.deep_view() + labels_of(
                    spec_select(cands@, (k - 1) as nat, lower_chars@, text@),
                ));
            }
            round += 1;
        }
    }
    proof {
        assert(spec_select(cands@, (3 - round) as nat, lower_chars@, text@) =~= Seq::<
            Tone,
        >::empty());
        assert(labels_of(Seq::<Tone>::empty()) =~= Seq::<Seq<char>>::empty());
        assert(out.deep_view() + Seq::<Seq<char>>::empty() =~= out.deep_view());
    }
    out
}

/// A word list none of whose words occurs in `text` scores nothing.
proof fn lemma_no_hits(kws: Seq<Seq<char>>, text: Seq<char>, w: nat)
    requires
        forall|i: int| 0 <= i < kws.len() ==> !contains_seq(text, #[trigger] kws[i]),
    ensures
        weighted_hits(kws, text, w) == 0,
    decreases kws.len(),
{
    if kws.len() > 0 {
        assert(!contains_seq(text, kws[kws.len() - 1]));
        assert forall|i: int| 0 <= i < kws.drop_last().len() implies !contains_seq(
            text,
            #[trigger] kws.drop_last()[i],
        ) by {
            assert(kws.drop_last()[i] == kws[i]);
        }
        lemma_no_hits(kws.drop_last(), text, w);
    }
}

/// A word list exactly one of whose words occurs in `text` scores one
/// weight.
proof fn lemma_hits_one(kws: Seq<Seq<char>>, text: Seq<char>, w: nat, hit: int)
    requires
        0 <= hit < kws.len(),
        contains_seq(text, kws[hit]),
        forall|m: int|
            0 <= m < kws.len() && m != hit ==> !contains_seq(text, #[trigger] kws[m]),
    ensures
        weighted_hits(kws, text, w) == w,
    decreases kws.len(),
{
    let last = kws.len() - 1;
    assert(kws.last() == kws[last]);
    if hit == last {
        assert forall|m: int| 0 <= m < kws.drop_last().len() implies !contains_seq(
            text,
            #[trigger] kws.drop_last()[m],
        ) by {
            assert(kws.drop_last()[m] == kws[m]);
        }
        lemma_no_hits(kws.drop_last(), text, w);
    } else {
        assert(!contains_seq(text, kws[last]));
        assert(kws.drop_last()[hit] == kws[hit]);
        assert forall|m: int|
            0 <= m < kws.drop_last().len() && m != hit implies !contains_seq(
            text,
            #[trigger] kws.drop_last()[m],
        ) by {
            assert(kws.drop_last()[m] == kws[m]);
        }
        lemma_hits_one(kws.drop_last(), text, w, hit);
    }
}

/// A word list exactly two of whose words occur in `text` scores two
/// weights.
proof fn lemma_hits_two(kws: Seq<Seq<char>>, text: Seq<char>, w: nat, hit1: int, hit2: int)
    requires
        0 <= hit1 < hit2 < kws.len(),
        contains_seq(text, kws[hit1]),
        contains_seq(text, kws[hit2]),
        forall|m: int|
            0 <= m < kws.len() && m != hit1 && m != hit2 ==> !contains_seq(
                text,
                #[trigger] kws[m],
            ),
    ensures
        weighted_hits(kws, text, w) == w + w,
    decreases kws.len(),
{
    let last = kws.len() - 1;
    assert(kws.last() == kws[last]);
    if hit2 == last {
        assert(kws.drop_last()[hit1] == kws[hit1]);
        assert forall|m: int|
            0 <= m < kws.drop_last().len() && m != hit1 implies !contains_seq(
            text,
            #[trigger] kws.drop_last()[m],
        ) by {
            assert(kws.drop_last()[m] == kws[m]);
        }
        lemma_hits_one(kws.drop_last(), text, w, hit1);
    } else {
        assert(!contains_seq(text, kws[last]));
        assert(kws.drop_last()[hit1] == kws[hit1]);
        assert(kws.drop_last()[hit2] == kws[hit2]);
        assert forall|m: int|
            0 <= m < kws.drop_last().len() && m != hit1 && m != hit2 implies !contains_seq(
            text,
            #[trigger] kws.drop_last()[m],
        ) by {
            assert(kws.drop_last()[m] == kws[m]);
        }
        lemma_hits_two(kws.drop_last(), text, w, hit1, hit2);
    }
}

/// When no category qualifies, the classification is empty.
proof fn lemma_no_qualifier(lower: Seq<char>, orig: Seq<char>)
    requires
        forall|t: Tone| !spec_qualifies(t, lower, orig),
    ensures
        spec_labels(lower, orig) == Seq::<Seq<char>>::empty(),
{
    lemma_all_tones_distinct();
    lemma_select_props(spec_all_tones(), 3, lower, orig);
    let ts = spec_tones(lower, orig);
    if ts.len() > 0 {
        assert(spec_qualifies(ts[0], lower, orig));
        assert(false);
    }
    assert(ts =~= Seq::<Tone>::empty());
    assert(labels_of(ts) =~= Seq::<Seq<char>>::empty());
}

/// When exactly one category qualifies, the classification is that
/// category alone.
proof fn lemma_single_qualifier(lower: Seq<char>, orig: Seq<char>, t0: Tone)
    requires
        spec_qualifies(t0, lower, orig),
        forall|t: Tone| t != t0 ==> !spec_qualifies(t, lower, orig),
    ensures
        spec_tones(lower, orig) == seq![t0],
{
    lemma_all_tones_distinct();
    lemma_select_props(spec_all_tones(), 3, lower, orig);
    let ts = spec_tones(lower, orig);
    assert forall|idx: int| 0 <= idx < ts.len() implies ts[idx] == t0 by {
        assert(spec_qualifies(ts[idx], lower, orig));
    }
    if ts.len() >= 2 {
        assert(ts[0] == t0 && ts[1] == t0);
        assert(false);
    }
    assert(spec_all_tones().contains(t0));
    if ts.len() == 0 {
        assert(ts.contains(t0));
        assert(false);
    }
    assert(ts =~= seq![t0]);
}

/// Law: a classification carries at most three labels, and never the same
/// label twice.
pub proof fn lemma_result_bounded_and_distinct(lower: Seq<char>, orig: Seq<char>)
    ensures
        spec_labels(lower, orig).len() <= 3,
        forall|i: int, j: int|
            0 <= i < j < spec_labels(lower, orig).len() ==> spec_labels(lower, orig)[i]
                != spec_labels(lower, orig)[j],
{
    lemma_all_tones_distinct();
    lemma_select_props(spec_all_tones(), 3, lower, orig);
    let ts = spec_tones(lower, orig);
    assert forall|i: int, j: int| 0 <= i < j < spec_labels(lower, orig).len() implies spec_labels(
        lower,
        orig,
    )[i] != spec_labels(lower, orig)[j] by {
        assert(ts[i] != ts[j]);
        lemma_label_injective(ts[i], ts[j]);
        assert(spec_labels(lower, orig)[i] == spec_label(ts[i]));
        assert(spec_labels(lower, orig)[j] == spec_label(ts[j]));
    }
}

/// Law: an empty text gets an empty classification.
pub proof fn lemma_empty_text(lower: Seq<char>, orig: Seq<char>)
    requires
        lower.len() == 0,
        orig.len() == 0,
    ensures
        spec_labels(lower, orig) == Seq::<Seq<char>>::empty(),
{
    assert(lower =~= Seq::<char>::empty());
    assert(orig =~= Seq::<char>::empty());
    assert forall|t: Tone| spec_score(t, lower, orig) == 0 by {
        if t == Tone::Interrogative {
            assert(!orig.contains('?'));
        } else {
            lemma_keywords_nonempty(t);
            assert forall|m: int| 0 <= m < spec_keywords(t).len() implies !contains_seq(
                lower,
                #[trigger] spec_keywords(t)[m],
            ) by {
                assert(spec_keywords(t)[m].len() > 0);
                assert forall|x: int| !matches_at(lower, spec_keywords(t)[m], x) by {}
            }
            lemma_no_hits(spec_keywords(t), lower, spec_weight(t));
        }
    }
    lemma_no_qualifier(lower, orig);
}

/// Law: a text with a question mark, none of whose trigger words occurs,
/// is classified interrogative alone.
pub proof fn lemma_question_only(lower: Seq<char>, orig: Seq<char>)
    requires
        orig.contains('?'),
        forall|t: Tone, m: int|
            0 <= m < spec_keywords(t).len() ==> !contains_seq(
                lower,
                #[trigger] spec_keywords(t)[m],
            ),
    ensures
        spec_labels(lower, orig) == seq!["interrogative"@],
{
    assert forall|t: Tone| t != Tone::Interrogative implies !spec_qualifies(
        t,
        lower,
        orig,
    ) by {
        assert forall|m: int| 0 <= m < spec_keywords(t).len() implies !contains_seq(
            lower,
            #[trigger] spec_keywords(t)[m],
        ) by {}
        lemma_no_hits(spec_keywords(t), lower, spec_weight(t));
    }
    assert(spec_qualifies(Tone::Interrogative, lower, orig));
    lemma_single_qualifier(lower, orig, Tone::Interrogative);
    assert(labels_of(seq![Tone::Interrogative]) =~= seq![spec_label(Tone::Interrogative)]);
    assert(seq![spec_label(Tone::Interrogative)] =~= seq!["interrogative"@]);
}

/// Law: two distinct urgency words and nothing else score four and give
/// the one urgent label.
pub proof fn lemma_two_urgency_words(lower: Seq<char>, orig: Seq<char>, i: int, j: int)
    requires
        0 <= i < j < spec_keywords(Tone::Urgent).len(),
        contains_seq(lower, spec_keywords(Tone::Urgent)[i]),
        contains_seq(lower, spec_keywords(Tone::Urgent)[j]),
        forall|m: int|
            0 <= m < spec_keywords(Tone::Urgent).len() && m != i && m != j
                ==> !contains_seq(lower, #[trigger] spec_keywords(Tone::Urgent)[m]),
        forall|t: Tone, m: int|
            t != Tone::Urgent && 0 <= m < spec_keywords(t).len() ==> !contains_seq(
                lower,
                #[trigger] spec_keywords(t)[m],
            ),
        !orig.contains('?'),
    ensures
        spec_score(Tone::Urgent, lower, orig) == 4,
        spec_labels(lower, orig) == seq!["urgent"@],
{
    lemma_hits_two(spec_keywords(Tone::Urgent), lower, 2, i, j);
    assert forall|t: Tone| t != Tone::Urgent implies !spec_qualifies(t, lower, orig) by {
        if t != Tone::Interrogative {
            assert forall|m: int| 0 <= m < spec_keywords(t).len() implies !contains_seq(
                lower,
                #[trigger] spec_keywords(t)[m],
            ) by {}
            lemma_no_hits(spec_keywords(t), lower, spec_weight(t));
        }
    }
    lemma_single_qualifier(lower, orig, Tone::Urgent);
    assert(labels_of(seq![Tone::Urgent]) =~= seq![spec_label(Tone::Urgent)]);
    assert(seq![spec_label(Tone::Urgent)] =~= seq!["urgent"@]);
}

/// Law: a single trigger word of a singly-weighted category, and nothing
/// else, scores one and falls short of the threshold.
pub proof fn lemma_single_generic_word(lower: Seq<char>, orig: Seq<char>, t: Tone, i: int)
    requires
        t != Tone::Urgent,
        t != Tone::Interrogative,
        0 <= i < spec_keywords(t).len(),
        contains_seq(lower, spec_keywords(t)[i]),
        forall|m: int|
            0 <= m < spec_keywords(t).len() && m != i ==> !contains_seq(
                lower,
                #[trigger] spec_keywords(t)[m],
            ),
        forall|u: Tone, m: int|
            u != t && 0 <= m < spec_keywords(u).len() ==> !contains_seq(
                lower,
                #[trigger] spec_keywords(u)[m],
            ),
        !orig.contains('?'),
    ensures
        spec_score(t, lower, orig) == 1,
        spec_labels(lower, orig) == Seq::<Seq<char>>::empty(),
{
    lemma_hits_one(spec_keywords(t), lower, 1, i);
    assert(spec_weight(t) == 1);
    assert forall|u: Tone| !spec_qualifies(u, lower, orig) by {
        if u != t && u != Tone::Interrogative {
            assert forall|m: int| 0 <= m < spec_keywords(u).len() implies !contains_seq(
                lower,
                #[trigger] spec_keywords(u)[m],
            ) by {}
            lemma_no_hits(spec_keywords(u), lower, spec_weight(u));
        }
    }
    lemma_no_qualifier(lower, orig);
}

/// Law: when exactly two categories qualify with the same score, both are
/// reported, the earlier-declared one first.
pub proof fn lemma_two_tied_qualifiers(lower: Seq<char>, orig: Seq<char>, a: Tone, b: Tone)
    requires
        a != b,
        spec_qualifies(a, lower, orig),
        spec_qualifies(b, lower, orig),
        forall|t: Tone| t != a && t != b ==> !spec_qualifies(t, lower, orig),
        spec_score(a, lower, orig) == spec_score(b, lower, orig),
        decl_index(a) < decl_index(b),
    ensures
        spec_tones(lower, orig) == seq![a, b],
        spec_labels(lower, orig) == seq![spec_label(a), spec_label(b)],
{
    lemma_all_tones_distinct();
    lemma_select_props(spec_all_tones(), 3, lower, orig);
    let ts = spec_tones(lower, orig);
    assert forall|idx: int| 0 <= idx < ts.len() implies ts[idx] == a || ts[idx] == b by {
        assert(spec_qualifies(ts[idx], lower, orig));
    }
    if ts.len() == 3 {
        assert(ts[0] != ts[1] && ts[0] != ts[2] && ts[1] != ts[2]);
        assert(false);
    }
    assert(spec_all_tones().contains(a));
    assert(spec_all_tones().contains(b));
    assert(ts.len() < 3);
    assert(ts.contains(a));
    assert(ts.contains(b));
    let ia = choose|x: int| 0 <= x < ts.len() && ts[x] == a;
    let ib = choose|x: int| 0 <= x < ts.len() && ts[x] == b;
    assert(ia != ib);
    assert(ts.len() == 2);
    if ts[0] == b {
        assert(ts[1] == a);
        assert(!prefers(ts[1], ts[0], lower, orig));
        assert(prefers(a, b, lower, orig));
        assert(false);
    }
    assert(ts[0] == a && ts[1] == b);
    assert(ts =~= seq![a, b]);
    assert(labels_of(seq![a, b]) =~= seq![spec_label(a), spec_label(b)]);
}

/// Law: every reported category qualifies; the report is ordered best
/// first; a qualifying category is only left out when the report is full;
/// and no category left out is ranked ahead of a reported one.
pub proof fn lemma_top_ranked(lower: Seq<char>, orig: Seq<char>)
    ensures
        ({
            let ts = spec_tones(lower, orig);
            &&& forall|i: int|
                0 <= i < ts.len() ==> spec_qualifies(#[trigger] ts[i], lower, orig)
            &&& forall|i: int, j: int|
                0 <= i < j < ts.len() ==> !prefers(ts[j], ts[i], lower, orig)
            &&& forall|t: Tone|
                spec_qualifies(t, lower, orig) && !ts.contains(t) ==> ts.len() == 3
            &&& forall|t: Tone, i: int|
                !ts.contains(t) && 0 <= i < ts.len() ==> !(#[trigger] prefers(
                    t,
                    ts[i],
                    lower,
                    orig,
                ))
        }),
{
    lemma_all_tones_distinct();
    lemma_select_props(spec_all_tones(), 3, lower, orig);
    let ts = spec_tones(lower, orig);
    assert forall|t: Tone|
        spec_qualifies(t, lower, orig) && !ts.contains(t) implies ts.len() == 3 by {
        assert(spec_all_tones().contains(t));
        if ts.len() < 3 {
            assert(ts.contains(t));
        }
    }
    assert forall|t: Tone, i: int| !ts.contains(t) && 0 <= i < ts.len() implies !(prefers(
        t,
        ts[i],
        lower,
        orig,
    )) by {
        assert(spec_all_tones().contains(t));
    }
}

} // verus!

