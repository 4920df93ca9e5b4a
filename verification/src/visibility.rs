//! The spatial visibility sampler.
//!
//! Given a batch of candidate messages already narrowed to one location and
//! the id of the viewer, the sampler decides which subset the viewer sees.
//! Dense clusters are thinned at random so repeated queries feel like
//! discovery, under three hard guarantees, each an `ensures` of
//! [`filter_messages`]:
//!
//! * the viewer's own messages are always included;
//! * a candidate in a sparse cluster (at most [`SamplerConfig::sparsity_cutoff`]
//!   neighbours after the pre-filter) is always included;
//! * a candidate dropped by the pre-filter (stale author or low vote score,
//!   and not the viewer's own) is never included.
//!
//! The random source is an explicit, seedable generator; with a fixed seed
//! the whole pass is reproducible.

use vstd::prelude::*;
use crate::config::SamplerConfig;
use crate::message::RetrievedMessage;
use crate::message::score;
use crate::rng::ratio_coin;
use crate::rng::shuffle_indices;

verus! {

/// Whether a candidate survives the pre-filter: the viewer's own messages
/// always do; anyone else's only while its author is still fresh and its
/// raw vote score is not below the hide threshold.
pub open spec fn spec_keep(m: RetrievedMessage, viewer: i64, cfg: SamplerConfig) -> bool {
    ||| m.user == viewer
    ||| (m.last_seen_minutes < cfg.staleness_minutes && m.positive_votes - m.negative_votes
        >= cfg.vote_threshold_hide)
}

/// The candidates that survive the pre-filter, in input order.
pub open spec fn spec_prefiltered(
    s: Seq<RetrievedMessage>,
    viewer: i64,
    cfg: SamplerConfig,
) -> Seq<RetrievedMessage>
    decreases s.len(),
{
    if s.len() == 0 {
        Seq::empty()
    } else {
        let rest = spec_prefiltered(s.drop_last(), viewer, cfg);
        if spec_keep(s.last(), viewer, cfg) {
            rest.push(s.last())
        } else {
            rest
        }
    }
}

/// Everything the pre-filter lets through it lets through for a reason: it
/// was in the batch and satisfies the keep predicate.
pub proof fn lemma_prefiltered_elements(
    s: Seq<RetrievedMessage>,
    viewer: i64,
    cfg: SamplerConfig,
)
    ensures
        forall|m: RetrievedMessage| #[trigger] spec_prefiltered(s, viewer, cfg).contains(m)
            ==> s.contains(m) && spec_keep(m, viewer, cfg),
    decreases s.len(),
{
    if s.len() == 0 {
    } else {
        lemma_prefiltered_elements(s.drop_last(), viewer, cfg);
        assert forall|m: RetrievedMessage| #[trigger] spec_prefiltered(s, viewer, cfg).contains(m)
            implies s.contains(m) && spec_keep(m, viewer, cfg) by {
            let pre = spec_prefiltered(s, viewer, cfg);
            let rest = spec_prefiltered(s.drop_last(), viewer, cfg);
            let j = choose|j: int| 0 <= j < pre.len() && pre[j] == m;
            if spec_keep(s.last(), viewer, cfg) && j == rest.len() {
                assert(m == s.last());
                assert(s.contains(m)) by {
                    assert(s[s.len() - 1] == m);
                }
            } else {
                assert(rest.contains(m)) by {
                    assert(rest[j] == m);
                }
                assert(s.drop_last().contains(m));
                let k = choose|k: int| 0 <= k < s.drop_last().len() && s.drop_last()[k] == m;
                assert(s[k] == m);
            }
        }
    }
}

/// Everything the keep predicate accepts survives the pre-filter.
pub proof fn lemma_kept_stays(
    s: Seq<RetrievedMessage>,
    viewer: i64,
    cfg: SamplerConfig,
    m: RetrievedMessage,
)
    requires
        s.contains(m),
        spec_keep(m, viewer, cfg),
    ensures
        spec_prefiltered(s, viewer, cfg).contains(m),
    decreases s.len(),
{
    let j = choose|j: int| 0 <= j < s.len() && s[j] == m;
    let rest = spec_prefiltered(s.drop_last(), viewer, cfg);
    if j == s.len() - 1 {
        assert(s.last() == m);
        let pre = spec_prefiltered(s, viewer, cfg);
        assert(pre == rest.push(m));
        assert(pre[pre.len() - 1] == m);
    } else {
        assert(s.drop_last()[j] == m);
        lemma_kept_stays(s.drop_last(), viewer, cfg, m);
        let k = choose|k: int| 0 <= k < rest.len() && rest[k] == m;
        if spec_keep(s.last(), viewer, cfg) {
            assert(spec_prefiltered(s, viewer, cfg)[k] == m);
        } else {
            assert(spec_prefiltered(s, viewer, cfg)[k] == m);
        }
    }
}

/// Squared distance between two candidates in 3-D space.
pub open spec fn spec_dist_sq(a: RetrievedMessage, b: RetrievedMessage) -> int {
    (a.x - b.x) * (a.x - b.x) + (a.y - b.y) * (a.y - b.y) + (a.z - b.z) * (a.z - b.z)
}

/// Whether `b` counts as nearby `a`: a different message strictly within
/// the proximity threshold.
pub open spec fn spec_nearby(a: RetrievedMessage, b: RetrievedMessage, cfg: SamplerConfig) -> bool {
    b.id != a.id && spec_dist_sq(a, b) < cfg.distance_sq_threshold
}

/// Number of candidates among the first `n` of `s` that are nearby `a`.
pub open spec fn spec_nearby_count_up_to(
    s: Seq<RetrievedMessage>,
    a: RetrievedMessage,
    cfg: SamplerConfig,
    n: int,
) -> int
    decreases n,
{
    if n <= 0 {
        0
    } else {
        spec_nearby_count_up_to(s, a, cfg, n - 1) + if spec_nearby(a, s[n - 1], cfg) {
            1int
        } else {
            0int
        }
    }
}

/// Size of `a`'s nearby cluster within the batch `s`.
pub open spec fn spec_nearby_count(
    s: Seq<RetrievedMessage>,
    a: RetrievedMessage,
    cfg: SamplerConfig,
) -> int {
    spec_nearby_count_up_to(s, a, cfg, s.len() as int)
}

proof fn lemma_nearby_count_bounds(
    s: Seq<RetrievedMessage>,
    a: RetrievedMessage,
    cfg: SamplerConfig,
    n: int,
)
    requires
        0 <= n <= s.len(),
    ensures
        0 <= spec_nearby_count_up_to(s, a, cfg, n) <= n,
    decreases n,
{
    if n > 0 {
        lemma_nearby_count_bounds(s, a, cfg, n - 1);
    }
}

fn dist_sq(a: &RetrievedMessage, b: &RetrievedMessage) -> (d: i128)
    ensures
        d == spec_dist_sq(*a, *b),
{
    let dx: i128 = a.x as i128 - b.x as i128;
    let dy: i128 = a.y as i128 - b.y as i128;
    let dz: i128 = a.z as i128 - b.z as i128;
    proof {
        assert(dx * dx < 0x1_0000_0000_0000_0000 && dx * dx >= 0) by (nonlinear_arith)
            requires
                -0x1_0000_0000 < dx < 0x1_0000_0000,
        ;
        assert(dy * dy < 0x1_0000_0000_0000_0000 && dy * dy >= 0) by (nonlinear_arith)
            requires
                -0x1_0000_0000 < dy < 0x1_0000_0000,
        ;
        assert(dz * dz < 0x1_0000_0000_0000_0000 && dz * dz >= 0) by (nonlinear_arith)
            requires
                -0x1_0000_0000 < dz < 0x1_0000_0000,
        ;
    }
    dx * dx + dy * dy + dz * dz
}

fn is_nearby(a: &RetrievedMessage, b: &RetrievedMessage, cfg: &SamplerConfig) -> (nearby: bool)
    ensures
        nearby == spec_nearby(*a, *b, *cfg),
{
    b.id != a.id && dist_sq(a, b) < cfg.distance_sq_threshold as i128
}

fn count_nearby(s: &Vec<RetrievedMessage>, idx: usize, cfg: &SamplerConfig) -> (count: usize)
    requires
        idx < s.len(),
    ensures
        count == spec_nearby_count(s@, s@[idx as int], *cfg),
{
    let mut count: usize = 0;
    let mut j: usize = 0;
    while j < s.len()
        invariant
            j <= s@.len(),
            idx < s@.len(),
            count <= j,
            count == spec_nearby_count_up_to(s@, s@[idx as int], *cfg, j as int),
        decreases s@.len() - j,
    {
        if is_nearby(&s[idx], &s[j], cfg) {
            count = count + 1;
        }
        j = j + 1;
    }
    count
}

fn contains_id(ids: &Vec<u128>, id: u128) -> (present: bool)
    ensures
        present == ids@.contains(id),
{
    let mut j: usize = 0;
    while j < ids.len()
        invariant
            j <= ids@.len(),
            forall|t: int| 0 <= t < j ==> ids@[t] != id,
        decreases ids@.len() - j,
    {
        if ids[j] == id {
            return true;
        }
        j = j + 1;
    }
    proof {
        if ids@.contains(id) {
            let t = choose|t: int| 0 <= t < ids@.len() && ids@[t] == id;
            assert(ids@[t] != id);
        }
    }
    false
}

/// Number of candidates among the first `n` of `s` that are nearby `a` and
/// already admitted (their id stands in `ids`).
pub open spec fn spec_already_visible_up_to(
    s: Seq<RetrievedMessage>,
    a: RetrievedMessage,
    ids: Seq<u128>,
    cfg: SamplerConfig,
    n: int,
) -> int
    decreases n,
{
    if n <= 0 {
        0
    } else {
        spec_already_visible_up_to(s, a, ids, cfg, n - 1) + if spec_nearby(a, s[n - 1], cfg)
            && ids.contains(s[n - 1].id) {
            1int
        } else {
            0int
        }
    }
}

fn count_already_visible(
    s: &Vec<RetrievedMessage>,
    idx: usize,
    ids: &Vec<u128>,
    cfg: &SamplerConfig,
) -> (count: usize)
    requires
        idx < s.len(),
    ensures
        count == spec_already_visible_up_to(s@, s@[idx as int], ids@, *cfg, s@.len() as int),
{
    let mut count: usize = 0;
    let mut j: usize = 0;
    while j < s.len()
        invariant
            j <= s@.len(),
            idx < s@.len(),
            count <= j,
            count == spec_already_visible_up_to(s@, s@[idx as int], ids@, *cfg, j as int),
        decreases s@.len() - j,
    {
        if is_nearby(&s[idx], &s[j], cfg) && contains_id(ids, s[j].id) {
            count = count + 1;
        }
        j = j + 1;
    }
    count
}

/// Minutes of age below which a candidate is brand new.
pub open spec fn brand_new_minutes() -> int {
    30
}

/// Minutes of age below which a candidate still counts as new.
pub open spec fn new_minutes() -> int {
    120
}

/// The age-driven base of the admission numerator: a brand-new message in a
/// cluster of `nearby` gets the whole cluster size, a new one a small bump,
/// an established one the base 1.
pub open spec fn spec_base_numerator(m: RetrievedMessage, now_minutes: int, nearby: int) -> int {
    if now_minutes - m.created_minutes < brand_new_minutes() {
        nearby
    } else if now_minutes - m.created_minutes < new_minutes() {
        1 + (if nearby / 3 < 1 {
            nearby / 3
        } else {
            1
        })
    } else {
        1
    }
}

/// The full admission numerator: the age base, plus a vote bonus for a
/// positive score.
pub open spec fn spec_numerator(m: RetrievedMessage, now_minutes: int, nearby: int) -> int {
    spec_base_numerator(m, now_minutes, nearby) + if m.spec_score() > 0 {
        if m.spec_score() / nearby > nearby / 2 {
            m.spec_score() / nearby
        } else {
            nearby / 2
        }
    } else {
        0int
    }
}

/// The admission ratio for a clustered candidate: numerator over twice the
/// cluster size, capped at `cap_numerator / cap_denominator`.
pub open spec fn spec_ratio(
    m: RetrievedMessage,
    now_minutes: int,
    nearby: int,
    cfg: SamplerConfig,
) -> (int, int) {
    let num = spec_numerator(m, now_minutes, nearby);
    let den = 2 * nearby;
    if num * cfg.cap_denominator > den * cfg.cap_numerator {
        (cfg.cap_numerator as int, cfg.cap_denominator as int)
    } else {
        (num, den)
    }
}

/// Compute the admission ratio drawn for a clustered candidate.  The result
/// is always a genuine probability: numerator at most denominator, and the
/// probability itself at most the configured cap.
pub fn admission_ratio(
    m: &RetrievedMessage,
    now_minutes: i64,
    nearby: usize,
    cfg: &SamplerConfig,
) -> (ratio: (u32, u32))
    requires
        cfg.wf(),
        1 <= nearby <= 0x7fff_ffff,
    ensures
        ratio.0 as int == spec_ratio(*m, now_minutes as int, nearby as int, *cfg).0,
        ratio.1 as int == spec_ratio(*m, now_minutes as int, nearby as int, *cfg).1,
        1 <= ratio.1,
        ratio.0 <= ratio.1,
{
    let nb: u64 = nearby as u64;
    let age: i128 = now_minutes as i128 - m.created_minutes as i128;
    let mut num: u64 = 1;
    if age < 30 {
        num = nb;
    } else if age < 120 {
        let bump: u64 = if nb / 3 < 1 {
            nb / 3
        } else {
            1
        };
        num = num + bump;
    }
    assert(num <= nb + 2);
    let s: i64 = score(m.positive_votes, m.negative_votes);
    if s > 0 {
        let pad: u64 = (s as u64) / nb;
        let half: u64 = nb / 2;
        let bonus: u64 = if pad > half {
            pad
        } else {
            half
        };
        assert(pad < 0x1_0000_0000);
        num = num + bonus;
    }
    assert(num < 0x3_0000_0000);
    let den: u64 = 2 * nb;
    let cap_num: u64 = cfg.cap_numerator as u64;
    let cap_den: u64 = cfg.cap_denominator as u64;
    assert(num * cap_den < 0x3_0000_0000 * 1000 && num * cap_den >= 0) by (nonlinear_arith)
        requires
            0 <= num < 0x3_0000_0000,
            0 <= cap_den <= 1000,
    ;
    assert(den * cap_num < 0x1_0000_0000 * 1000 && den * cap_num >= 0) by (nonlinear_arith)
        requires
            0 <= den < 0x1_0000_0000,
            0 <= cap_num <= 1000,
    ;
    if num * cap_den > den * cap_num {
        (cfg.cap_numerator, cfg.cap_denominator)
    } else {
        assert(num <= den) by (nonlinear_arith)
            requires
                num * cap_den <= den * cap_num,
                cap_num <= cap_den,
                1 <= cap_den,
                0 <= num,
                0 <= den,
        ;
        (num as u32, den as u32)
    }
}

fn keep(m: &RetrievedMessage, viewer: i64, cfg: &SamplerConfig) -> (kept: bool)
    ensures
        kept == spec_keep(*m, viewer, *cfg),
{
    m.user == viewer || (m.last_seen_minutes < cfg.staleness_minutes && (m.positive_votes as i64
        - m.negative_votes as i64) >= cfg.vote_threshold_hide as i64)
}

/// Pre-filter pass: drop every candidate the keep predicate rejects,
/// preserving the order of the rest.
fn prefilter(messages: Vec<RetrievedMessage>, viewer: i64, cfg: &SamplerConfig) -> (kept: Vec<
    RetrievedMessage,
>)
    ensures
        kept@ == spec_prefiltered(messages@, viewer, *cfg),
{
    let ghost orig = messages@;
    let mut input = messages;
    let total = input.len();
    let mut kept: Vec<RetrievedMessage> = Vec::new();
    let mut i: usize = 0;
    while input.len() > 0
        invariant
            orig.len() == total,
            i + input@.len() == orig.len(),
            input@ == orig.skip(i as int),
            kept@ == spec_prefiltered(orig.take(i as int), viewer, *cfg),
        decreases input@.len(),
    {
        let m = input.remove(0);
        proof {
            assert(orig.skip(i as int)[0] == orig[i as int]);
            assert(input@ =~= orig.skip(i + 1));
            assert(orig.take(i + 1).drop_last() =~= orig.take(i as int));
            assert(orig.take(i + 1).last() == orig[i as int]);
        }
        if keep(&m, viewer, cfg) {
            kept.push(m);
        }
        i = i + 1;
    }
    proof {
        assert(orig.take(orig.len() as int) =~= orig);
    }
    kept
}

/// One selection pass over the pre-filtered batch, in an order shuffled by
/// the caller's random source: collect the ids of the admitted candidates.
///
/// Whatever the random draws return, the viewer's own candidates and every
/// candidate in a sparse cluster are admitted, and nothing else than the
/// batch's own ids ever appears.
fn select_ids(
    s: &Vec<RetrievedMessage>,
    viewer: i64,
    now_minutes: i64,
    cfg: &SamplerConfig,
    rng: &mut rand::rngs::StdRng,
) -> (ids: Vec<u128>)
    requires
        cfg.wf(),
        s.len() <= 0x7fff_ffff,
    ensures
        forall|j: int| 0 <= j < s@.len() && s@[j].user == viewer ==> ids@.contains(s@[j].id),
        forall|j: int|
            0 <= j < s@.len() && spec_nearby_count(s@, s@[j], *cfg) <= cfg.sparsity_cutoff
                ==> ids@.contains(s@[j].id),
        forall|x: u128| #[trigger]
            ids@.contains(x) ==> exists|j: int| 0 <= j < s@.len() && s@[j].id == x,
{
    broadcast use vstd::seq_lib::group_to_multiset_ensures;

    let n = s.len();
    let mut order: Vec<usize> = Vec::new();
    let mut k: usize = 0;
    while k < n
        invariant
            k <= n,
            order@.len() == k,
            forall|t: int| 0 <= t < k ==> order@[t] == t,
        decreases n - k,
    {
        order.push(k);
        k = k + 1;
    }
    let ghost identity = order@;
    shuffle_indices(rng, &mut order);
    proof {
        assert(order@.to_multiset().len() == identity.to_multiset().len());
        assert(order@.len() == identity.len());
        assert forall|v: usize| v < n implies order@.contains(v) by {
            assert(identity[v as int] == v);
            assert(identity.contains(v));
            assert(identity.to_multiset().count(v) > 0);
            assert(order@.to_multiset().count(v) > 0);
        }
        assert forall|t: int| 0 <= t < order@.len() implies (order@[t] as int) < s@.len() by {
            let v = order@[t];
            assert(order@.contains(v));
            assert(order@.to_multiset().count(v) > 0);
            assert(identity.to_multiset().count(v) > 0);
            assert(identity.contains(v));
            let u = choose|u: int| 0 <= u < identity.len() && identity[u] == v;
        }
    }
    let mut ids: Vec<u128> = Vec::new();
    k = 0;
    while k < order.len()
        invariant
            cfg.wf(),
            s@.len() <= 0x7fff_ffff,
            k <= order@.len(),
            order@.len() == n,
            n == s@.len(),
            forall|v: usize| v < n ==> order@.contains(v),
            forall|t: int| 0 <= t < order@.len() ==> (order@[t] as int) < s@.len(),
            forall|t: int|
                #![trigger order@[t]]
                0 <= t < k ==> {
                    let idx = order@[t] as int;
                    (s@[idx].user == viewer || spec_nearby_count(s@, s@[idx], *cfg)
                        <= cfg.sparsity_cutoff) ==> ids@.contains(s@[idx].id)
                },
            forall|x: u128| #[trigger]
                ids@.contains(x) ==> exists|j: int| 0 <= j < s@.len() && s@[j].id == x,
        decreases order@.len() - k,
    {
        let ghost ids_before = ids@;
        let idx = order[k];
        let picked: bool;
        if s[idx].user == viewer {
            picked = true;
        } else {
            let nearby = count_nearby(s, idx, cfg);
            if nearby <= cfg.sparsity_cutoff {
                picked = true;
            } else {
                let already = count_already_visible(s, idx, &ids, cfg);
                if already >= 3 {
                    picked = false;
                } else {
                    proof {
                        lemma_nearby_count_bounds(s@, s@[idx as int], *cfg, s@.len() as int);
                    }
                    let ratio = admission_ratio(&s[idx], now_minutes, nearby, cfg);
                    picked = ratio_coin(rng, ratio.0, ratio.1);
                }
            }
        }
        if picked {
            let id = s[idx].id;
            ids.push(id);
            proof {
                assert(ids@ == ids_before.push(id));
                assert(ids@[ids@.len() - 1] == id);
                assert(ids@.contains(id));
                assert forall|x: u128| ids_before.contains(x) implies ids@.contains(x) by {
                    let t = choose|t: int| 0 <= t < ids_before.len() && ids_before[t] == x;
                    assert(ids@[t] == x);
                }
                assert forall|x: u128| #[trigger] ids@.contains(x) implies exists|j: int|
                    0 <= j < s@.len() && s@[j].id == x by {
                    let t = choose|t: int| 0 <= t < ids@.len() && ids@[t] == x;
                    if t < ids_before.len() {
                        assert(ids_before[t] == x);
                        assert(ids_before.contains(x));
                    } else {
                        assert(s@[idx as int].id == x);
                    }
                }
            }
        }
        k = k + 1;
    }
    proof {
        assert forall|j: int| 0 <= j < s@.len() && (s@[j].user == viewer || spec_nearby_count(
            s@,
            s@[j],
            *cfg,
        ) <= cfg.sparsity_cutoff) implies ids@.contains(s@[j].id) by {
            let v = j as usize;
            assert(order@.contains(v));
            let t = choose|t: int| 0 <= t < order@.len() && order@[t] == v;
            assert(order@[t] == v);
        }
    }
    ids
}

/// Keep exactly the candidates whose id was admitted, preserving order.
fn retain_included(messages: Vec<RetrievedMessage>, ids: &Vec<u128>) -> (out: Vec<
    RetrievedMessage,
>)
    ensures
        out@.len() <= messages@.len(),
        forall|j: int|
            0 <= j < messages@.len() && ids@.contains(messages@[j].id) ==> out@.contains(
                messages@[j],
            ),
        forall|m: RetrievedMessage| #[trigger]
            out@.contains(m) ==> messages@.contains(m) && ids@.contains(m.id),
{
    let ghost orig = messages@;
    let mut input = messages;
    let total = input.len();
    let mut out: Vec<RetrievedMessage> = Vec::new();
    let mut i: usize = 0;
    while input.len() > 0
        invariant
            orig.len() == total,
            i + input@.len() == orig.len(),
            input@ == orig.skip(i as int),
            out@.len() <= i,
            forall|j: int| 0 <= j < i && ids@.contains(orig[j].id) ==> out@.contains(orig[j]),
            forall|m: RetrievedMessage| #[trigger]
                out@.contains(m) ==> orig.contains(m) && ids@.contains(m.id),
        decreases input@.len(),
    {
        let ghost out_before = out@;
        let m = input.remove(0);
        proof {
            assert(orig.skip(i as int)[0] == orig[i as int]);
            assert(input@ =~= orig.skip(i + 1));
        }
        if contains_id(ids, m.id) {
            out.push(m);
            proof {
                assert(out@ == out_before.push(orig[i as int]));
                assert(out@[out@.len() - 1] == orig[i as int]);
                assert(out@.contains(orig[i as int]));
                assert forall|x: RetrievedMessage| out_before.contains(x) implies out@.contains(
                    x,
                ) by {
                    let t = choose|t: int| 0 <= t < out_before.len() && out_before[t] == x;
                    assert(out@[t] == x);
                }
                assert forall|x: RetrievedMessage| #[trigger] out@.contains(x) implies
                    orig.contains(x) && ids@.contains(x.id) by {
                    let t = choose|t: int| 0 <= t < out@.len() && out@[t] == x;
                    if t < out_before.len() {
                        assert(out_before[t] == x);
                        assert(out_before.contains(x));
                    } else {
                        assert(x == orig[i as int]);
                    }
                }
            }
        }
        i = i + 1;
    }
    out
}

/// The spatial visibility sampler: decide which of the candidate messages
/// this viewer sees.
///
/// The candidates are first pre-filtered (stale authors and low scores go,
/// the viewer's own messages always stay), then visited in an order drawn
/// from `rng`; each clustered candidate is admitted with a capped
/// probability that favours new and well-voted messages, while sparse
/// clusters and the viewer's own messages are admitted outright.
///
/// The contract states the sampler's three guarantees over
/// [`spec_prefiltered`], the pre-filtered batch:
/// * only pre-filter survivors appear, each at most as often as it was
///   handed in (nothing is invented);
/// * every survivor of the viewer's own is in the result, as is every
///   survivor whose nearby cluster within the pre-filtered batch is at most
///   the sparsity cutoff;
/// * in particular a stale or down-voted candidate of another author is
///   never shown.
///
/// The batch length bound is forced by the machine: the admission draw
/// takes 32-bit ratio operands, and a denominator is twice a cluster size.
pub fn filter_messages(
    messages: Vec<RetrievedMessage>,
    viewer: i64,
    now_minutes: i64,
    cfg: &SamplerConfig,
    rng: &mut rand::rngs::StdRng,
) -> (visible: Vec<RetrievedMessage>)
    requires
        cfg.wf(),
        messages.len() <= 0x7fff_ffff,
    ensures
        visible@.len() <= messages@.len(),
        forall|m: RetrievedMessage| #[trigger]
            visible@.contains(m) ==> spec_prefiltered(messages@, viewer, *cfg).contains(m),
        forall|m: RetrievedMessage| #[trigger]
            visible@.contains(m) ==> messages@.contains(m) && spec_keep(m, viewer, *cfg),
        forall|j: int|
            #![trigger spec_prefiltered(messages@, viewer, *cfg)[j]]
            0 <= j < spec_prefiltered(messages@, viewer, *cfg).len() && spec_prefiltered(
                messages@,
                viewer,
                *cfg,
            )[j].user == viewer ==> visible@.contains(
                spec_prefiltered(messages@, viewer, *cfg)[j],
            ),
        forall|j: int|
            #![trigger spec_prefiltered(messages@, viewer, *cfg)[j]]
            0 <= j < spec_prefiltered(messages@, viewer, *cfg).len() && spec_nearby_count(
                spec_prefiltered(messages@, viewer, *cfg),
                spec_prefiltered(messages@, viewer, *cfg)[j],
                *cfg,
            ) <= cfg.sparsity_cutoff ==> visible@.contains(
                spec_prefiltered(messages@, viewer, *cfg)[j],
            ),
        forall|m: RetrievedMessage| #[trigger]
            messages@.contains(m) && m.user == viewer ==> visible@.contains(m),
{
    let ghost orig = messages@;
    let ghost pre_seq = spec_prefiltered(messages@, viewer, *cfg);
    let pre = prefilter(messages, viewer, cfg);
    proof {
        lemma_prefiltered_elements(orig, viewer, *cfg);
        assert(pre@.len() <= orig.len()) by {
            lemma_prefiltered_len(orig, viewer, *cfg);
        }
    }
    let ids = select_ids(&pre, viewer, now_minutes, cfg, rng);
    let visible = retain_included(pre, &ids);
    proof {
        assert forall|m: RetrievedMessage| #[trigger]
            orig.contains(m) && m.user == viewer implies visible@.contains(m) by {
            lemma_kept_stays(orig, viewer, *cfg, m);
            let j = choose|j: int| 0 <= j < pre_seq.len() && pre_seq[j] == m;
            assert(pre_seq[j].user == viewer);
        }
    }
    visible
}

/// The pre-filter never grows the batch.
pub proof fn lemma_prefiltered_len(s: Seq<RetrievedMessage>, viewer: i64, cfg: SamplerConfig)
    ensures
        spec_prefiltered(s, viewer, cfg).len() <= s.len(),
    decreases s.len(),
{
    if s.len() > 0 {
        lemma_prefiltered_len(s.drop_last(), viewer, cfg);
    }
}

} // verus!
