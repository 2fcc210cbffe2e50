//! Physical-device selection: filter enumerated devices by version, feature
//! and extension requirements, then rank the survivors by suitability.
//!
//! Ranking is a stable sort under a total order: device-type desirability
//! first (discrete > integrated > virtual > CPU > other), then the maximum
//! push-constant budget, with full ties keeping enumeration order.

use vstd::prelude::*;
use vstd::seq_lib::group_to_multiset_ensures;

use crate::extensions_list_contains;
use crate::features::EnginePhysicalDeviceFeatures;

verus! {

/// Classification of a physical device by its hardware kind.
#[derive(Clone, Copy, Debug, PartialEq, Eq, Structural)]
pub enum PhysicalDeviceType {
    DiscreteGpu,
    IntegratedGpu,
    VirtualGpu,
    Cpu,
    Other,
}

/// Immutable record of one enumerated physical device: its opaque handle, the
/// static properties the ranking reads, its probed feature support, and the
/// names of the extensions it advertises.
pub struct PhysicalDeviceCandidate {
    pub handle: u64,
    pub device_type: PhysicalDeviceType,
    pub api_version: u32,
    pub max_push_constants_size: u32,
    pub features: EnginePhysicalDeviceFeatures,
    pub extensions: Vec<String>,
}

/// Desirability score of a device kind: prefer dedicated graphics hardware.
pub open spec fn spec_score_device_type(device_type: PhysicalDeviceType) -> int {
    match device_type {
        PhysicalDeviceType::DiscreteGpu => 4,
        PhysicalDeviceType::IntegratedGpu => 3,
        PhysicalDeviceType::VirtualGpu => 2,
        PhysicalDeviceType::Cpu => 1,
        PhysicalDeviceType::Other => 0,
    }
}

/// A helper for scoring a device's dedication to graphics processing.
pub fn score_device_type(device_type: PhysicalDeviceType) -> (r: u8)
    ensures
        r as int == spec_score_device_type(device_type),
{
    match device_type {
        PhysicalDeviceType::DiscreteGpu => 4,
        PhysicalDeviceType::IntegratedGpu => 3,
        PhysicalDeviceType::VirtualGpu => 2,
        PhysicalDeviceType::Cpu => 1,
        PhysicalDeviceType::Other => 0,
    }
}

/// Strict ranking: `a` sorts before `b` when its device kind scores higher,
/// or on equal kind when it offers the larger push-constant budget.
pub open spec fn rank_outranks(a: PhysicalDeviceCandidate, b: PhysicalDeviceCandidate) -> bool {
    ||| spec_score_device_type(a.device_type) > spec_score_device_type(b.device_type)
    ||| (spec_score_device_type(a.device_type) == spec_score_device_type(b.device_type)
        && a.max_push_constants_size > b.max_push_constants_size)
}

/// Full tie in the ranking key: equal device-type score and equal
/// push-constant budget.
pub open spec fn rank_ties(a: PhysicalDeviceCandidate, b: PhysicalDeviceCandidate) -> bool {
    spec_score_device_type(a.device_type) == spec_score_device_type(b.device_type)
        && a.max_push_constants_size == b.max_push_constants_size
}

/// Whether `a` sorts strictly before `b`.
pub fn device_outranks(a: &PhysicalDeviceCandidate, b: &PhysicalDeviceCandidate) -> (r: bool)
    ensures
        r == rank_outranks(*a, *b),
{
    let sa = score_device_type(a.device_type);
    let sb = score_device_type(b.device_type);
    sa > sb || (sa == sb && a.max_push_constants_size > b.max_push_constants_size)
}

/// The device advertises the extension named `name`.
pub open spec fn candidate_has_extension(c: PhysicalDeviceCandidate, name: Seq<char>) -> bool {
    exists|j: int| 0 <= j < c.extensions@.len() && c.extensions@[j]@ == name
}

/// The hard filter: API version at least the minimum, every required feature
/// flag supported, and every required extension advertised.
pub open spec fn candidate_passes(
    c: PhysicalDeviceCandidate,
    minimum_version: u32,
    required_extensions: Seq<String>,
    required_features: EnginePhysicalDeviceFeatures,
) -> bool {
    &&& c.api_version >= minimum_version
    &&& c.features.spec_contains_mask(required_features)
    &&& forall|i: int|
        0 <= i < required_extensions.len() ==> candidate_has_extension(
            c,
            #[trigger] required_extensions[i]@,
        )
}

/// The subsequence of `s` passing the hard filter, in enumeration order.
pub open spec fn suitable_filter(
    s: Seq<PhysicalDeviceCandidate>,
    minimum_version: u32,
    required_extensions: Seq<String>,
    required_features: EnginePhysicalDeviceFeatures,
) -> Seq<PhysicalDeviceCandidate>
    decreases s.len(),
{
    if s.len() == 0 {
        Seq::empty()
    } else {
        let rest = suitable_filter(
            s.drop_last(),
            minimum_version,
            required_extensions,
            required_features,
        );
        if candidate_passes(s.last(), minimum_version, required_extensions, required_features) {
            rest.push(s.last())
        } else {
            rest
        }
    }
}

/// Whether one enumerated device passes the hard filter.
pub fn candidate_suitable(
    c: &PhysicalDeviceCandidate,
    minimum_version: u32,
    required_extensions: &Vec<String>,
    required_features: &EnginePhysicalDeviceFeatures,
) -> (r: bool)
    ensures
        r == candidate_passes(*c, minimum_version, required_extensions@, *required_features),
{
    if c.api_version < minimum_version {
        return false;
    }
    if !c.features.contains_mask(required_features) {
        return false;
    }
    let mut i: usize = 0;
    while i < required_extensions.len()
        invariant
            i <= required_extensions@.len(),
            forall|k: int|
                0 <= k < i ==> candidate_has_extension(*c, #[trigger] required_extensions@[k]@),
        decreases required_extensions@.len() - i,
    {
        if !extensions_list_contains(&c.extensions, &required_extensions[i]) {
            proof {
                assert(!candidate_has_extension(*c, required_extensions@[i as int]@));
            }
            return false;
        }
        i += 1;
    }
    true
}

/// `x` inserted into `s` directly before the first element it strictly
/// outranks; elements tied with `x` therefore stay in front of it.
pub open spec fn insert_ranked_spec(
    s: Seq<PhysicalDeviceCandidate>,
    x: PhysicalDeviceCandidate,
) -> Seq<PhysicalDeviceCandidate>
    decreases s.len(),
{
    if s.len() == 0 {
        seq![x]
    } else if rank_outranks(x, s[0]) {
        seq![x] + s
    } else {
        seq![s[0]] + insert_ranked_spec(s.drop_first(), x)
    }
}

/// Stable insertion sort of `s` under the device ranking.
pub open spec fn sort_ranked_spec(s: Seq<PhysicalDeviceCandidate>) -> Seq<PhysicalDeviceCandidate>
    decreases s.len(),
{
    if s.len() == 0 {
        s
    } else {
        insert_ranked_spec(sort_ranked_spec(s.drop_last()), s.last())
    }
}

/// No later element strictly outranks an earlier one.
pub open spec fn ranked_sorted(s: Seq<PhysicalDeviceCandidate>) -> bool {
    forall|i: int, j: int| 0 <= i < j < s.len() ==> !rank_outranks(#[trigger] s[j], #[trigger] s[i])
}

/// Get all enumerated devices that pass the version, feature and extension
/// filter, sorted by their likelihood of being the desired device: highest
/// device-type score first, larger push-constant budget breaking ties, full
/// ties keeping enumeration order.
pub fn get_sorted_physical_devices(
    devices: Vec<PhysicalDeviceCandidate>,
    minimum_version: u32,
    required_extensions: &Vec<String>,
    required_features: &EnginePhysicalDeviceFeatures,
) -> (r: Vec<PhysicalDeviceCandidate>)
    ensures
        r@ == sort_ranked_spec(
            suitable_filter(devices@, minimum_version, required_extensions@, *required_features),
        ),
        r@.len() == suitable_filter(
            devices@,
            minimum_version,
            required_extensions@,
            *required_features,
        ).len(),
{
    let ghost all = devices@;
    let mut remaining = devices;
    let mut sorted: Vec<PhysicalDeviceCandidate> = Vec::new();
    while remaining.len() > 0
        invariant
            remaining@.len() <= all.len(),
            remaining@ == all.skip(all.len() - remaining@.len()),
            sorted@ == sort_ranked_spec(
                suitable_filter(
                    all.take(all.len() - remaining@.len()),
                    minimum_version,
                    required_extensions@,
                    *required_features,
                ),
            ),
        decreases remaining@.len(),
    {
        let ghost k = all.len() - remaining@.len();
        let d = remaining.remove(0);
        proof {
            assert(all.skip(k)[0] == all[k]);
            assert(all.skip(k).remove(0) =~= all.skip(k + 1));
            assert(all.take(k + 1) =~= all.take(k).push(all[k]));
            lemma_suitable_filter_push(
                all.take(k),
                d,
                minimum_version,
                required_extensions@,
                *required_features,
            );
            lemma_sort_push(
                suitable_filter(
                    all.take(k),
                    minimum_version,
                    required_extensions@,
                    *required_features,
                ),
                d,
            );
        }
        if candidate_suitable(&d, minimum_version, required_extensions, required_features) {
            insert_ranked(&mut sorted, d);
        }
    }
    proof {
        assert(all.take(all.len() as int) =~= all);
        lemma_sort_ranked_len(
            suitable_filter(all, minimum_version, required_extensions@, *required_features),
        );
    }
    sorted
}

/// Sorting keeps the number of candidates.
proof fn lemma_sort_ranked_len(s: Seq<PhysicalDeviceCandidate>)
    ensures
        sort_ranked_spec(s).len() == s.len(),
    decreases s.len(),
{
    if s.len() > 0 {
        lemma_sort_ranked_len(s.drop_last());
        lemma_insert_ranked_elements(sort_ranked_spec(s.drop_last()), s.last());
    }
}

/// Position of the first element of a ranked vector that `x` strictly
/// outranks, or the length when `x` outranks none.
fn ranked_position(sorted: &Vec<PhysicalDeviceCandidate>, x: &PhysicalDeviceCandidate) -> (j: usize)
    ensures
        j <= sorted@.len(),
        forall|k: int| 0 <= k < j ==> !rank_outranks(*x, #[trigger] sorted@[k]),
        j < sorted@.len() ==> rank_outranks(*x, sorted@[j as int]),
{
    let mut j: usize = 0;
    while j < sorted.len()
        invariant
            j <= sorted@.len(),
            forall|k: int| 0 <= k < j ==> !rank_outranks(*x, #[trigger] sorted@[k]),
        decreases sorted@.len() - j,
    {
        if device_outranks(x, &sorted[j]) {
            return j;
        }
        j += 1;
    }
    j
}

/// Insert a candidate into an already ranked vector, directly before the
/// first element it strictly outranks.
fn insert_ranked(sorted: &mut Vec<PhysicalDeviceCandidate>, x: PhysicalDeviceCandidate)
    ensures
        final(sorted)@ == insert_ranked_spec(old(sorted)@, x),
{
    let j = ranked_position(sorted, &x);
    proof {
        lemma_insert_ranked_at(sorted@, x, j as int);
    }
    sorted.insert(j, x);
}

/// Unfold one step of the hard filter over a `push`.
proof fn lemma_suitable_filter_push(
    s: Seq<PhysicalDeviceCandidate>,
    x: PhysicalDeviceCandidate,
    minimum_version: u32,
    required_extensions: Seq<String>,
    required_features: EnginePhysicalDeviceFeatures,
)
    ensures
        suitable_filter(s.push(x), minimum_version, required_extensions, required_features)
            == if candidate_passes(x, minimum_version, required_extensions, required_features) {
            suitable_filter(s, minimum_version, required_extensions, required_features).push(x)
        } else {
            suitable_filter(s, minimum_version, required_extensions, required_features)
        },
{
    assert(s.push(x).drop_last() =~= s);
    assert(s.push(x).last() == x);
}

/// Unfold one step of the sort over a `push`.
proof fn lemma_sort_push(s: Seq<PhysicalDeviceCandidate>, x: PhysicalDeviceCandidate)
    ensures
        sort_ranked_spec(s.push(x)) == insert_ranked_spec(sort_ranked_spec(s), x),
{
    assert(s.push(x).drop_last() =~= s);
    assert(s.push(x).last() == x);
}

/// The ranked insertion point is exactly the position the scan finds: after
/// every element `x` does not outrank, before the first it does.
proof fn lemma_insert_ranked_at(s: Seq<PhysicalDeviceCandidate>, x: PhysicalDeviceCandidate, j: int)
    requires
        0 <= j <= s.len(),
        forall|k: int| 0 <= k < j ==> !rank_outranks(x, #[trigger] s[k]),
        j < s.len() ==> rank_outranks(x, s[j]),
    ensures
        insert_ranked_spec(s, x) == s.insert(j, x),
    decreases j,
{
    if s.len() == 0 {
        assert(s.insert(0, x) =~= seq![x]);
    } else if j == 0 {
        assert(s.insert(0, x) =~= seq![x] + s);
    } else {
        assert(forall|k: int| 0 <= k < s.drop_first().len() ==> #[trigger] s.drop_first()[k] == s[
            k + 1
        ]);
        lemma_insert_ranked_at(s.drop_first(), x, j - 1);
        assert(seq![s[0]] + s.drop_first().insert(j - 1, x) =~= s.insert(j, x));
    }
}

/// Every element of a ranked insertion is the inserted candidate or one of
/// the original elements, and the length grows by exactly one.
proof fn lemma_insert_ranked_elements(s: Seq<PhysicalDeviceCandidate>, x: PhysicalDeviceCandidate)
    ensures
        insert_ranked_spec(s, x).len() == s.len() + 1,
        forall|i: int|
            0 <= i < insert_ranked_spec(s, x).len() ==> (#[trigger] insert_ranked_spec(s, x)[i] == x
                || s.contains(insert_ranked_spec(s, x)[i])),
    decreases s.len(),
{
    let out = insert_ranked_spec(s, x);
    if s.len() == 0 {
    } else if rank_outranks(x, s[0]) {
        assert forall|i: int| 0 <= i < out.len() implies (#[trigger] out[i] == x || s.contains(
            out[i],
        )) by {
            if i > 0 {
                assert(out[i] == s[i - 1]);
            }
        }
    } else {
        lemma_insert_ranked_elements(s.drop_first(), x);
        let t = insert_ranked_spec(s.drop_first(), x);
        assert forall|i: int| 0 <= i < out.len() implies (#[trigger] out[i] == x || s.contains(
            out[i],
        )) by {
            if i == 0 {
                assert(s.contains(s[0]));
            } else {
                assert(out[i] == t[i - 1]);
                if t[i - 1] != x {
                    let w = choose|w: int|
                        0 <= w < s.drop_first().len() && s.drop_first()[w] == t[i - 1];
                    assert(s[w + 1] == t[i - 1]);
                }
            }
        }
    }
}

/// Ranked insertion preserves sortedness.
proof fn lemma_insert_ranked_sorted(s: Seq<PhysicalDeviceCandidate>, x: PhysicalDeviceCandidate)
    requires
        ranked_sorted(s),
    ensures
        ranked_sorted(insert_ranked_spec(s, x)),
    decreases s.len(),
{
    let out = insert_ranked_spec(s, x);
    if s.len() == 0 {
    } else if rank_outranks(x, s[0]) {
        assert forall|i: int, j: int| 0 <= i < j < out.len() implies !rank_outranks(
            #[trigger] out[j],
            #[trigger] out[i],
        ) by {
            assert(out[j] == s[j - 1]);
            if i > 0 {
                assert(out[i] == s[i - 1]);
            }
        }
    } else {
        let rest = s.drop_first();
        assert(forall|k: int| 0 <= k < rest.len() ==> #[trigger] rest[k] == s[k + 1]);
        assert forall|i: int, j: int| 0 <= i < j < rest.len() implies !rank_outranks(
            #[trigger] rest[j],
            #[trigger] rest[i],
        ) by {
            assert(rest[j] == s[j + 1]);
            assert(rest[i] == s[i + 1]);
        }
        lemma_insert_ranked_sorted(rest, x);
        lemma_insert_ranked_elements(rest, x);
        let t = insert_ranked_spec(rest, x);
        assert forall|i: int, j: int| 0 <= i < j < out.len() implies !rank_outranks(
            #[trigger] out[j],
            #[trigger] out[i],
        ) by {
            assert(out[j] == t[j - 1]);
            if i == 0 {
                if t[j - 1] != x {
                    let w = choose|w: int| 0 <= w < rest.len() && rest[w] == t[j - 1];
                    assert(s[w + 1] == t[j - 1]);
                }
            } else {
                assert(out[i] == t[i - 1]);
            }
        }
    }
}

/// The sorted sequence of candidates is ranked: no later element strictly
/// outranks an earlier one, so equal device-type scores appear in order of
/// descending push-constant budget.
pub proof fn lemma_ranking_sorted(s: Seq<PhysicalDeviceCandidate>)
    ensures
        ranked_sorted(sort_ranked_spec(s)),
    decreases s.len(),
{
    if s.len() > 0 {
        lemma_ranking_sorted(s.drop_last());
        lemma_insert_ranked_sorted(sort_ranked_spec(s.drop_last()), s.last());
    }
}

/// The device ranking is a total order on the key (device-type score,
/// push-constant budget): two candidates either tie exactly or one strictly
/// outranks the other, never both.
pub proof fn lemma_ranking_total(a: PhysicalDeviceCandidate, b: PhysicalDeviceCandidate)
    ensures
        rank_outranks(a, b) || rank_outranks(b, a) || rank_ties(a, b),
        !(rank_outranks(a, b) && rank_outranks(b, a)),
        rank_ties(a, b) ==> !rank_outranks(a, b) && !rank_outranks(b, a),
{
}

/// Sorting neither drops nor duplicates candidates.
pub proof fn lemma_ranking_permutes(s: Seq<PhysicalDeviceCandidate>)
    ensures
        sort_ranked_spec(s).to_multiset() == s.to_multiset(),
    decreases s.len(),
{
    broadcast use group_to_multiset_ensures;

    if s.len() > 0 {
        lemma_ranking_permutes(s.drop_last());
        lemma_insert_ranked_multiset(sort_ranked_spec(s.drop_last()), s.last());
        assert(s =~= s.drop_last().push(s.last()));
    }
}

/// Ranked insertion adds exactly the inserted candidate to the multiset.
proof fn lemma_insert_ranked_multiset(s: Seq<PhysicalDeviceCandidate>, x: PhysicalDeviceCandidate)
    ensures
        insert_ranked_spec(s, x).to_multiset() == s.to_multiset().insert(x),
    decreases s.len(),
{
    broadcast use group_to_multiset_ensures;

    if s.len() == 0 {
        assert(seq![x] =~= Seq::<PhysicalDeviceCandidate>::empty().push(x));
    } else if rank_outranks(x, s[0]) {
        lemma_prepend_multiset(s, x);
    } else {
        lemma_insert_ranked_multiset(s.drop_first(), x);
        let t = insert_ranked_spec(s.drop_first(), x);
        lemma_prepend_multiset(t, s[0]);
        lemma_prepend_multiset(s.drop_first(), s[0]);
        assert(s =~= seq![s[0]] + s.drop_first());
        assert((seq![s[0]] + t).to_multiset() =~= s.to_multiset().insert(x));
    }
}

/// The subsequence of `s` whose ranking key ties exactly with `c`, in order.
pub open spec fn ties_with(s: Seq<PhysicalDeviceCandidate>, c: PhysicalDeviceCandidate) -> Seq<
    PhysicalDeviceCandidate,
>
    decreases s.len(),
{
    if s.len() == 0 {
        Seq::empty()
    } else {
        let rest = ties_with(s.drop_last(), c);
        if rank_ties(s.last(), c) {
            rest.push(s.last())
        } else {
            rest
        }
    }
}

/// A sequence with no element tying `c` has an empty tie subsequence.
proof fn lemma_ties_with_empty(s: Seq<PhysicalDeviceCandidate>, c: PhysicalDeviceCandidate)
    requires
        forall|i: int| 0 <= i < s.len() ==> !rank_ties(#[trigger] s[i], c),
    ensures
        ties_with(s, c) == Seq::<PhysicalDeviceCandidate>::empty(),
    decreases s.len(),
{
    if s.len() > 0 {
        lemma_ties_with_empty(s.drop_last(), c);
    }
}

/// Prepending an element prepends it to the tie subsequence when it ties.
proof fn lemma_ties_with_prepend(
    s: Seq<PhysicalDeviceCandidate>,
    h: PhysicalDeviceCandidate,
    c: PhysicalDeviceCandidate,
)
    ensures
        ties_with(seq![h] + s, c) == if rank_ties(h, c) {
            seq![h] + ties_with(s, c)
        } else {
            ties_with(s, c)
        },
    decreases s.len(),
{
    broadcast use Seq::push_distributes_over_add;

    let u = seq![h] + s;
    if s.len() == 0 {
        assert(u.len() == 1);
        assert(u.drop_last() =~= Seq::<PhysicalDeviceCandidate>::empty());
        assert(u.last() == h);
        assert(ties_with(Seq::<PhysicalDeviceCandidate>::empty(), c)
            == Seq::<PhysicalDeviceCandidate>::empty());
        assert(ties_with(s, c) == Seq::<PhysicalDeviceCandidate>::empty());
        if rank_ties(h, c) {
            assert(ties_with(u, c) == Seq::<PhysicalDeviceCandidate>::empty().push(h));
            assert(seq![h] + ties_with(s, c) =~= Seq::<PhysicalDeviceCandidate>::empty().push(h));
        }
    } else {
        lemma_ties_with_prepend(s.drop_last(), h, c);
        assert(u.drop_last() =~= seq![h] + s.drop_last());
        assert(u.last() == s.last());
        assert(ties_with(u, c) == if rank_ties(s.last(), c) {
            ties_with(seq![h] + s.drop_last(), c).push(s.last())
        } else {
            ties_with(seq![h] + s.drop_last(), c)
        });
    }
}

/// Ranked insertion appends the inserted candidate to its tie subsequence:
/// in a sorted sequence every element tying `x` stands before the insertion
/// point, so none is skipped over.
proof fn lemma_insert_ranked_ties(
    s: Seq<PhysicalDeviceCandidate>,
    x: PhysicalDeviceCandidate,
    c: PhysicalDeviceCandidate,
)
    requires
        ranked_sorted(s),
    ensures
        ties_with(insert_ranked_spec(s, x), c) == if rank_ties(x, c) {
            ties_with(s, c).push(x)
        } else {
            ties_with(s, c)
        },
    decreases s.len(),
{
    broadcast use Seq::push_distributes_over_add;

    if s.len() == 0 {
        assert(insert_ranked_spec(s, x) == seq![x]);
        assert(seq![x].drop_last() =~= Seq::<PhysicalDeviceCandidate>::empty());
        assert(seq![x].last() == x);
        assert(ties_with(Seq::<PhysicalDeviceCandidate>::empty(), c)
            == Seq::<PhysicalDeviceCandidate>::empty());
        assert(ties_with(s, c) == Seq::<PhysicalDeviceCandidate>::empty());
        assert(ties_with(seq![x], c) == if rank_ties(x, c) {
            Seq::<PhysicalDeviceCandidate>::empty().push(x)
        } else {
            Seq::<PhysicalDeviceCandidate>::empty()
        });
    } else if rank_outranks(x, s[0]) {
        lemma_ties_with_prepend(s, x, c);
        if rank_ties(x, c) {
            assert forall|i: int| 0 <= i < s.len() implies !rank_ties(#[trigger] s[i], c) by {
                if i > 0 {
                    assert(!rank_outranks(s[i], s[0]));
                }
            }
            lemma_ties_with_empty(s, c);
            assert(seq![x] + ties_with(s, c) =~= ties_with(s, c).push(x));
        }
    } else {
        let rest = s.drop_first();
        assert forall|i: int, j: int| 0 <= i < j < rest.len() implies !rank_outranks(
            #[trigger] rest[j],
            #[trigger] rest[i],
        ) by {
            assert(rest[j] == s[j + 1]);
            assert(rest[i] == s[i + 1]);
        }
        lemma_insert_ranked_ties(rest, x, c);
        let t = insert_ranked_spec(rest, x);
        lemma_ties_with_prepend(t, s[0], c);
        lemma_ties_with_prepend(rest, s[0], c);
        assert(s =~= seq![s[0]] + rest);
    }
}

/// Ranking is stable: for any ranking key, the candidates carrying that key
/// appear in the sorted output in the same order they were enumerated.
pub proof fn lemma_ranking_stable(s: Seq<PhysicalDeviceCandidate>, c: PhysicalDeviceCandidate)
    ensures
        ties_with(sort_ranked_spec(s), c) == ties_with(s, c),
    decreases s.len(),
{
    if s.len() > 0 {
        lemma_ranking_stable(s.drop_last(), c);
        lemma_ranking_sorted(s.drop_last());
        lemma_insert_ranked_ties(sort_ranked_spec(s.drop_last()), s.last(), c);
    }
}

/// Prepending an element adds exactly that element to the multiset.
proof fn lemma_prepend_multiset(s: Seq<PhysicalDeviceCandidate>, x: PhysicalDeviceCandidate)
    ensures
        (seq![x] + s).to_multiset() == s.to_multiset().insert(x),
    decreases s.len(),
{
    broadcast use group_to_multiset_ensures;

    if s.len() == 0 {
        assert(seq![x] + s =~= Seq::<PhysicalDeviceCandidate>::empty().push(x));
    } else {
        lemma_prepend_multiset(s.drop_last(), x);
        assert(seq![x] + s =~= (seq![x] + s.drop_last()).push(s.last()));
        assert(s =~= s.drop_last().push(s.last()));
        assert((seq![x] + s).to_multiset() =~= s.to_multiset().insert(x));
    }
}

} // verus!
