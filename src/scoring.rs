use vstd::prelude::*;

verus! {

/// Raw relevance values are fixed-point numbers in millionths: a cosine
/// distance of 0.3 is handed in as 300_000.
pub const RELEVANCE_SCALE: i64 = 1_000_000;

/// The least score that a candidate must reach to be returned.
pub const RELEVANCE_FLOOR: i32 = 50;

/// How many nearest neighbours are asked of the store for each kind.
pub const CANDIDATE_LIMIT: usize = 10;

/// The kinds of record that a search covers.
#[derive(Clone, Copy, Debug, PartialEq, Eq, Structural)]
pub enum RecordKind {
    Person,
    Organization,
    Location,
    Production,
}

/// How the store's raw relevance value reads.
#[derive(Clone, Copy, Debug, PartialEq, Eq, Structural)]
pub enum RelevanceConvention {
    /// A distance, 0 for identical vectors (cosine distance lies in 0..=2).
    Distance,
    /// A similarity, larger for closer vectors.
    Similarity,
}

/// Similarity in millionths, never negative: `max(0, 1 - distance)` for a
/// distance, `max(0, similarity)` for a similarity.
pub open spec fn similarity_of(conv: RelevanceConvention, raw: int) -> int {
    match conv {
        RelevanceConvention::Distance => if raw >= RELEVANCE_SCALE { 0 } else { RELEVANCE_SCALE - raw },
        RelevanceConvention::Similarity => if raw <= 0 { 0 } else { raw },
    }
}

/// `round(similarity * 100)`, halves rounded up, at most 100. With the
/// similarity `s` in millionths, `similarity * 100` is `s / 10_000`.
pub open spec fn score_of(conv: RelevanceConvention, raw: int) -> int {
    let rounded = (similarity_of(conv, raw) + 5_000) / 10_000;
    if rounded > 100 { 100 } else { rounded }
}

/// Whether a score reaches the relevance floor.
pub open spec fn meets_floor_spec(score: int) -> bool {
    score >= RELEVANCE_FLOOR
}

/// The integer score, 0 to 100, of a raw relevance value.
pub fn score(conv: RelevanceConvention, raw: i64) -> (r: i32)
    ensures
        r == score_of(conv, raw as int),
        0 <= r <= 100,
{
    // The similarity, capped at 1: every similarity from 1 up scores 100.
    let capped: i64 = match conv {
        RelevanceConvention::Distance => {
            if raw >= RELEVANCE_SCALE {
                0
            } else if raw <= 0 {
                RELEVANCE_SCALE
            } else {
                RELEVANCE_SCALE - raw
            }
        },
        RelevanceConvention::Similarity => {
            if raw <= 0 {
                0
            } else if raw >= RELEVANCE_SCALE {
                RELEVANCE_SCALE
            } else {
                raw
            }
        },
    };
    proof {
        let s = similarity_of(conv, raw as int);
        if s >= RELEVANCE_SCALE {
            assert((s + 5_000) / 10_000 >= 100) by (nonlinear_arith)
                requires s >= 1_000_000;
        }
    }
    ((capped + 5_000) / 10_000) as i32
}

/// Whether a score reaches the relevance floor of 50.
pub fn meets_floor(score: i32) -> (r: bool)
    ensures
        r == meets_floor_spec(score as int),
{
    score >= RELEVANCE_FLOOR
}

/// A nearest-neighbour candidate as the store returns it: what is shown of
/// the record, its raw relevance value, and its public visibility flag.
#[derive(Debug)]
pub struct Candidate<T> {
    pub hit: T,
    pub relevance: i64,
    pub visible: bool,
}

/// A candidate that was kept, with its score.
#[derive(Debug)]
pub struct Scored<T> {
    pub hit: T,
    pub score: i32,
}

/// Whether only publicly visible records of this kind may be returned.
pub open spec fn visibility_required(kind: RecordKind) -> bool {
    kind == RecordKind::Location
}

/// Whether a candidate is kept: its score reaches the floor and, for a kind
/// that requires it, the record is publicly visible.
pub open spec fn admitted<T>(kind: RecordKind, conv: RelevanceConvention, c: Candidate<T>) -> bool {
    &&& meets_floor_spec(score_of(conv, c.relevance as int))
    &&& (visibility_required(kind) ==> c.visible)
}

pub open spec fn scored<T>(conv: RelevanceConvention, c: Candidate<T>) -> Scored<T> {
    Scored { hit: c.hit, score: score_of(conv, c.relevance as int) as i32 }
}

/// The kept candidates, scored, in the store's order.
pub open spec fn ranked<T>(kind: RecordKind, conv: RelevanceConvention, cs: Seq<Candidate<T>>) -> Seq<
    Scored<T>,
>
    decreases cs.len(),
{
    if cs.len() == 0 {
        Seq::empty()
    } else {
        let rest = ranked(kind, conv, cs.drop_first());
        if admitted(kind, conv, cs[0]) {
            seq![scored(conv, cs[0])] + rest
        } else {
            rest
        }
    }
}

/// Scores the candidates of one kind, drops those under the floor (and, for
/// locations, those not publicly visible), and keeps the store's order.
pub fn rank_candidates<T>(
    kind: RecordKind,
    conv: RelevanceConvention,
    candidates: Vec<Candidate<T>>,
) -> (r: Vec<Scored<T>>)
    ensures
        r@ == ranked(kind, conv, candidates@),
{
    let mut rest = candidates;
    let mut kept: Vec<Scored<T>> = Vec::new();
    while rest.len() > 0
        invariant
            kept@ + ranked(kind, conv, rest@) == ranked(kind, conv, candidates@),
        decreases rest@.len(),
    {
        let ghost before = rest@;
        let c = rest.remove(0);
        assert(rest@ =~= before.drop_first());
        let s = score(conv, c.relevance);
        let keep = meets_floor(s) && (kind != RecordKind::Location || c.visible);
        if keep {
            let ghost old_kept = kept@;
            kept.push(Scored { hit: c.hit, score: s });
            assert(kept@ =~= old_kept + seq![scored(conv, before[0])]);
            assert(kept@ + ranked(kind, conv, rest@) =~= old_kept + ranked(kind, conv, before));
        }
    }
    assert(kept@ =~= kept@ + ranked(kind, conv, rest@));
    kept
}


/// Scores never go up as a distance grows, and never go down as a similarity
/// grows: higher is always at least as relevant.
pub proof fn lemma_score_monotonic(conv: RelevanceConvention, a: int, b: int)
    requires
        a < b,
    ensures
        conv == RelevanceConvention::Distance ==> score_of(conv, a) >= score_of(conv, b),
        conv == RelevanceConvention::Similarity ==> score_of(conv, a) <= score_of(conv, b),
{
    let sa = similarity_of(conv, a);
    let sb = similarity_of(conv, b);
    if conv == RelevanceConvention::Distance {
        assert(sa >= sb);
        assert((sa + 5_000) / 10_000 >= (sb + 5_000) / 10_000) by (nonlinear_arith)
            requires sa >= sb, sb >= 0;
    } else {
        assert(sa <= sb);
        assert((sa + 5_000) / 10_000 <= (sb + 5_000) / 10_000) by (nonlinear_arith)
            requires sa <= sb, sa >= 0;
    }
}

/// `m` is the scored form of an admitted candidate among `cs`.
pub open spec fn from_admitted<T>(
    kind: RecordKind,
    conv: RelevanceConvention,
    cs: Seq<Candidate<T>>,
    m: Scored<T>,
) -> bool {
    exists|j: int| 0 <= j < cs.len() && admitted(kind, conv, #[trigger] cs[j]) && m == scored(conv, cs[j])
}

/// `m` shows a record of a publicly visible candidate among `cs`.
pub open spec fn from_visible<T>(cs: Seq<Candidate<T>>, m: Scored<T>) -> bool {
    exists|j: int| 0 <= j < cs.len() && (#[trigger] cs[j]).visible && m.hit == cs[j].hit
}

/// Every kept candidate was admitted: its score reaches the floor and, where
/// the kind requires it, the record is publicly visible.
pub proof fn lemma_ranked_admitted<T>(kind: RecordKind, conv: RelevanceConvention, cs: Seq<Candidate<T>>)
    ensures
        forall|i: int|
            0 <= i < ranked(kind, conv, cs).len() ==> from_admitted(
                kind,
                conv,
                cs,
                #[trigger] ranked(kind, conv, cs)[i],
            ),
    decreases cs.len(),
{
    if cs.len() > 0 {
        let tail = cs.drop_first();
        lemma_ranked_admitted(kind, conv, tail);
        let r = ranked(kind, conv, cs);
        let rt = ranked(kind, conv, tail);
        assert forall|i: int| 0 <= i < r.len() implies from_admitted(kind, conv, cs, #[trigger] r[i]) by {
            if admitted(kind, conv, cs[0]) {
                assert(r == seq![scored(conv, cs[0])] + rt);
                if i == 0 {
                    assert(admitted(kind, conv, cs[0]) && r[0] == scored(conv, cs[0]));
                } else {
                    assert(r[i] == rt[i - 1]);
                    assert(from_admitted(kind, conv, tail, rt[i - 1]));
                    let j = choose|j: int|
                        0 <= j < tail.len() && admitted(kind, conv, #[trigger] tail[j])
                            && rt[i - 1] == scored(conv, tail[j]);
                    assert(cs[j + 1] == tail[j]);
                }
            } else {
                assert(r == rt);
                assert(from_admitted(kind, conv, tail, rt[i]));
                let j = choose|j: int|
                    0 <= j < tail.len() && admitted(kind, conv, #[trigger] tail[j]) && rt[i]
                        == scored(conv, tail[j]);
                assert(cs[j + 1] == tail[j]);
            }
        }
    }
}

/// Location results never hold a candidate whose visibility flag is false,
/// whatever its score: each comes from a visible candidate.
pub proof fn lemma_locations_visible<T>(conv: RelevanceConvention, cs: Seq<Candidate<T>>)
    ensures
        forall|i: int|
            0 <= i < ranked(RecordKind::Location, conv, cs).len() ==> from_visible(
                cs,
                #[trigger] ranked(RecordKind::Location, conv, cs)[i],
            ),
{
    let r = ranked(RecordKind::Location, conv, cs);
    lemma_ranked_admitted(RecordKind::Location, conv, cs);
    assert forall|i: int| 0 <= i < r.len() implies from_visible(cs, #[trigger] r[i]) by {
        assert(from_admitted(RecordKind::Location, conv, cs, r[i]));
        let j = choose|j: int|
            0 <= j < cs.len() && admitted(RecordKind::Location, conv, #[trigger] cs[j]) && r[i]
                == scored(conv, cs[j]);
        assert(cs[j].visible && r[i].hit == cs[j].hit);
    }
}

/// A candidate is kept exactly when its score is at least 50 (and, for a
/// location, it is visible): a score of 49 is dropped, one of 50 kept.
pub proof fn lemma_floor_exact<T>(kind: RecordKind, conv: RelevanceConvention, c: Candidate<T>)
    requires
        !visibility_required(kind) || c.visible,
    ensures
        ranked(kind, conv, seq![c]).len() == 1 <==> score_of(conv, c.relevance as int) >= 50,
        ranked(kind, conv, seq![c]).len() == 0 <==> score_of(conv, c.relevance as int) <= 49,
{
    assert(seq![c].drop_first() =~= Seq::<Candidate<T>>::empty());
    assert(ranked(kind, conv, Seq::<Candidate<T>>::empty()).len() == 0);
}

} // verus!
