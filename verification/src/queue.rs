//! Queue-family classification and selection.
//!
//! Each queue family is described by its capability bitmask, its queue count
//! and a live presentation-support answer.  Classification produces, per
//! role, the ascending list of qualifying family indices; selection picks a
//! single index for a required capability mask under a sharing-preference
//! score; planning aggregates how many queues to request per family.

use vstd::prelude::*;

verus! {

/// Capability bit: the family supports graphics commands.
pub const QUEUE_GRAPHICS: u32 = 0x1;

/// Capability bit: the family supports compute commands.
pub const QUEUE_COMPUTE: u32 = 0x2;

/// Capability bit: the family supports transfer commands.
pub const QUEUE_TRANSFER: u32 = 0x4;

/// The queue roles a family can satisfy.
#[derive(Clone, Copy, Debug, PartialEq, Eq, Structural)]
pub enum QueueType {
    Graphics,
    Compute,
    Present,
    Transfer,
}

/// One queue family as enumerated from a device: its capability bitmask, how
/// many queues it offers, and whether it can present to the target surface.
#[derive(Clone, Copy, Debug, PartialEq, Eq, Structural)]
pub struct QueueFamilyInfo {
    pub queue_flags: u32,
    pub queue_count: u32,
    pub present_support: bool,
}

/// Available queue family types and their indices, together with the family
/// descriptors they were classified from.
pub struct QueueFamilies {
    pub graphics: Vec<u32>,
    pub compute: Vec<u32>,
    pub transfer: Vec<u32>,
    pub present: Vec<u32>,
    pub queue_families: Vec<QueueFamilyInfo>,
}

/// Whether a family satisfies a role: by capability bit for graphics,
/// compute and transfer, by the live surface answer for present.
pub open spec fn role_matches(f: QueueFamilyInfo, role: QueueType) -> bool {
    match role {
        QueueType::Graphics => f.queue_flags & QUEUE_GRAPHICS != 0,
        QueueType::Compute => f.queue_flags & QUEUE_COMPUTE != 0,
        QueueType::Transfer => f.queue_flags & QUEUE_TRANSFER != 0,
        QueueType::Present => f.present_support,
    }
}

/// The ascending list of indices below `n` whose family satisfies `role`.
pub open spec fn role_indices(s: Seq<QueueFamilyInfo>, n: int, role: QueueType) -> Seq<u32>
    decreases n,
{
    if n <= 0 {
        Seq::empty()
    } else {
        let rest = role_indices(s, n - 1, role);
        if role_matches(s[n - 1], role) {
            rest.push((n - 1) as u32)
        } else {
            rest
        }
    }
}

impl QueueFamilies {
    /// The four role lists are exactly the classification of the stored
    /// family descriptors.
    pub open spec fn wf(&self) -> bool {
        let n = self.queue_families@.len() as int;
        &&& self.queue_families@.len() <= u32::MAX
        &&& self.graphics@ == role_indices(self.queue_families@, n, QueueType::Graphics)
        &&& self.compute@ == role_indices(self.queue_families@, n, QueueType::Compute)
        &&& self.transfer@ == role_indices(self.queue_families@, n, QueueType::Transfer)
        &&& self.present@ == role_indices(self.queue_families@, n, QueueType::Present)
    }
}

/// Classify every queue family by role.  Each role receives the ascending
/// list of family indices that satisfy it: graphics, compute and transfer
/// from the capability bitmask, present from the live surface answer.
pub fn get_queue_families(queue_families: Vec<QueueFamilyInfo>) -> (r: QueueFamilies)
    requires
        queue_families@.len() <= u32::MAX,
    ensures
        r.queue_families@ == queue_families@,
        r.wf(),
{
    let mut graphics: Vec<u32> = Vec::new();
    let mut compute: Vec<u32> = Vec::new();
    let mut transfer: Vec<u32> = Vec::new();
    let mut present: Vec<u32> = Vec::new();
    let mut i: usize = 0;
    while i < queue_families.len()
        invariant
            i <= queue_families@.len(),
            queue_families@.len() <= u32::MAX,
            graphics@ == role_indices(queue_families@, i as int, QueueType::Graphics),
            compute@ == role_indices(queue_families@, i as int, QueueType::Compute),
            transfer@ == role_indices(queue_families@, i as int, QueueType::Transfer),
            present@ == role_indices(queue_families@, i as int, QueueType::Present),
        decreases queue_families@.len() - i,
    {
        let f = queue_families[i];
        if f.present_support {
            present.push(i as u32);
        }
        if f.queue_flags & QUEUE_GRAPHICS != 0 {
            graphics.push(i as u32);
        }
        if f.queue_flags & QUEUE_COMPUTE != 0 {
            compute.push(i as u32);
        }
        if f.queue_flags & QUEUE_TRANSFER != 0 {
            transfer.push(i as u32);
        }
        i += 1;
    }
    QueueFamilies { graphics, compute, transfer, present, queue_families }
}

/// Classified index lists are in bounds, satisfy their role, are strictly
/// ascending, and are complete: every qualifying index appears.
pub proof fn lemma_role_indices_sound(s: Seq<QueueFamilyInfo>, n: int, role: QueueType)
    requires
        n <= s.len(),
        s.len() <= u32::MAX,
    ensures
        forall|k: int|
            0 <= k < role_indices(s, n, role).len() ==> #[trigger] role_indices(s, n, role)[k]
                < n && role_matches(s[role_indices(s, n, role)[k] as int], role),
        forall|k1: int, k2: int|
            0 <= k1 < k2 < role_indices(s, n, role).len() ==> #[trigger] role_indices(
                s,
                n,
                role,
            )[k1] < #[trigger] role_indices(s, n, role)[k2],
        forall|i: int|
            0 <= i < n && role_matches(s[i], role) ==> role_indices(s, n, role).contains(i as u32),
    decreases n,
{
    if n > 0 {
        lemma_role_indices_sound(s, n - 1, role);
        let prev = role_indices(s, n - 1, role);
        let cur = role_indices(s, n, role);
        assert forall|i: int| 0 <= i < n && role_matches(s[i], role) implies cur.contains(
            i as u32,
        ) by {
            if i < n - 1 {
                assert(prev.contains(i as u32));
                let k = choose|k: int| 0 <= k < prev.len() && prev[k] == i as u32;
                assert(cur[k] == i as u32);
            } else {
                assert(cur[cur.len() - 1] == (n - 1) as u32);
            }
        }
    }
}

/// Number of set bits among the low `n` bits of `x`.
pub open spec fn pop_below(x: u32, n: int) -> int
    decreases n,
{
    if n <= 0 {
        0
    } else {
        pop_below(x, n - 1) + ((x >> ((n - 1) as u32)) & 1)
    }
}

/// Number of set bits of `x`.
pub open spec fn spec_popcount(x: u32) -> int {
    pop_below(x, 32)
}

/// Count the set bits of a capability mask.
pub fn popcount(x: u32) -> (r: u32)
    ensures
        r as int == spec_popcount(x),
        r <= 32,
{
    let mut count: u32 = 0;
    let mut i: u32 = 0;
    while i < 32
        invariant
            i <= 32,
            count <= i,
            count as int == pop_below(x, i as int),
        decreases 32 - i,
    {
        proof {
            assert((x >> i) & 1 <= 1) by (bit_vector);
        }
        count += (x >> i) & 1;
        i += 1;
    }
    count
}

/// The family qualifies: its capabilities include every required bit.
pub open spec fn family_qualifies(f: QueueFamilyInfo, required: u32) -> bool {
    f.queue_flags & required == required
}

/// Sharing-preference score of a family's capability mask: reward every
/// extra capability we are happy to co-locate, penalize every unrelated one.
pub open spec fn spec_family_score(flags: u32, prefer: u32) -> int {
    2 * spec_popcount(flags & prefer) - spec_popcount(flags & !prefer)
}

/// Compute the sharing-preference score of a family's capability mask.
pub fn family_score(flags: u32, prefer: u32) -> (r: i32)
    ensures
        r as int == spec_family_score(flags, prefer),
{
    let p = popcount(flags & prefer);
    let q = popcount(flags & !prefer);
    2 * (p as i32) - (q as i32)
}

/// A helper to get a queue family index that supports the required queue
/// flags and prefers sharing the queue family with the specified flags, and
/// not sharing with the rest.  Among qualifying families the chosen one
/// carries the maximal score; on score ties the highest index wins.
pub fn get_queue_family_index(
    required_capabilities: u32,
    prefer_sharing_capabilities: u32,
    queue_families: &QueueFamilies,
) -> (r: u32)
    requires
        queue_families.queue_families@.len() <= u32::MAX,
        exists|i: int|
            0 <= i < queue_families.queue_families@.len() && family_qualifies(
                #[trigger] queue_families.queue_families@[i],
                required_capabilities,
            ),
    ensures
        r < queue_families.queue_families@.len(),
        family_qualifies(queue_families.queue_families@[r as int], required_capabilities),
        forall|i: int|
            0 <= i < queue_families.queue_families@.len() && family_qualifies(
                #[trigger] queue_families.queue_families@[i],
                required_capabilities,
            ) ==> spec_family_score(
                queue_families.queue_families@[i].queue_flags,
                prefer_sharing_capabilities,
            ) <= spec_family_score(
                queue_families.queue_families@[r as int].queue_flags,
                prefer_sharing_capabilities,
            ),
        forall|i: int|
            r < i < queue_families.queue_families@.len() && family_qualifies(
                #[trigger] queue_families.queue_families@[i],
                required_capabilities,
            ) ==> spec_family_score(
                queue_families.queue_families@[i].queue_flags,
                prefer_sharing_capabilities,
            ) < spec_family_score(
                queue_families.queue_families@[r as int].queue_flags,
                prefer_sharing_capabilities,
            ),
{
    let ghost fams = queue_families.queue_families@;
    let mut best: usize = 0;
    let mut best_score: i32 = 0;
    let mut have: bool = false;
    let mut i: usize = 0;
    while i < queue_families.queue_families.len()
        invariant
            i <= fams.len(),
            fams == queue_families.queue_families@,
            fams.len() <= u32::MAX,
            have ==> best < i && family_qualifies(fams[best as int], required_capabilities)
                && best_score as int == spec_family_score(
                fams[best as int].queue_flags,
                prefer_sharing_capabilities,
            ),
            !have ==> forall|k: int|
                0 <= k < i ==> !family_qualifies(#[trigger] fams[k], required_capabilities),
            have ==> forall|k: int|
                0 <= k < i && family_qualifies(#[trigger] fams[k], required_capabilities)
                    ==> spec_family_score(fams[k].queue_flags, prefer_sharing_capabilities)
                    <= best_score as int,
            have ==> forall|k: int|
                best < k < i && family_qualifies(#[trigger] fams[k], required_capabilities)
                    ==> spec_family_score(fams[k].queue_flags, prefer_sharing_capabilities)
                    < best_score as int,
        decreases fams.len() - i,
    {
        let f = queue_families.queue_families[i];
        if f.queue_flags & required_capabilities == required_capabilities {
            let sc = family_score(f.queue_flags, prefer_sharing_capabilities);
            if !have || sc >= best_score {
                best = i;
                best_score = sc;
                have = true;
            }
        }
        i += 1;
    }
    best as u32
}

/// One queue-allocation request for the logical device: a family index and
/// how many queues to open on it.
#[derive(Clone, Copy, Debug, PartialEq, Eq, Structural)]
pub struct DeviceQueueRequest {
    pub family_index: u32,
    pub queue_count: u32,
}

/// How many of the graphics, compute and present role lists name family `i`.
/// Transfer queues are not requested separately.
pub open spec fn spec_usage(qf: QueueFamilies, i: int) -> int {
    (if qf.graphics@.contains(i as u32) {
        1int
    } else {
        0int
    }) + (if qf.compute@.contains(i as u32) {
        1int
    } else {
        0int
    }) + (if qf.present@.contains(i as u32) {
        1int
    } else {
        0int
    })
}

/// The queue plan over families below `n`: one request per family used by at
/// least one role, asking for the role count capped by the family's queues.
pub open spec fn plan_spec(qf: QueueFamilies, n: int) -> Seq<DeviceQueueRequest>
    decreases n,
{
    if n <= 0 {
        Seq::empty()
    } else {
        let rest = plan_spec(qf, n - 1);
        let u = spec_usage(qf, n - 1);
        if u > 0 {
            let cap = qf.queue_families@[n - 1].queue_count;
            rest.push(
                DeviceQueueRequest {
                    family_index: (n - 1) as u32,
                    queue_count: (if u < cap {
                        u
                    } else {
                        cap as int
                    }) as u32,
                },
            )
        } else {
            rest
        }
    }
}

/// Whether a classified index list names family `v`.
fn list_contains(list: &Vec<u32>, v: u32) -> (r: bool)
    ensures
        r == list@.contains(v),
{
    let mut j: usize = 0;
    while j < list.len()
        invariant
            j <= list@.len(),
            forall|k: int| 0 <= k < j ==> list@[k] != v,
        decreases list@.len() - j,
    {
        if list[j] == v {
            return true;
        }
        j += 1;
    }
    false
}

/// Aggregate the classified role lists into per-family queue requests: each
/// family used by at least one of the graphics, compute and present roles is
/// requested once, with a queue count equal to the number of roles using it,
/// capped by the queues the family actually offers.
pub fn plan_device_queues(queue_families: &QueueFamilies) -> (r: Vec<DeviceQueueRequest>)
    requires
        queue_families.queue_families@.len() <= u32::MAX,
    ensures
        r@ == plan_spec(*queue_families, queue_families.queue_families@.len() as int),
{
    let mut plan: Vec<DeviceQueueRequest> = Vec::new();
    let mut i: usize = 0;
    while i < queue_families.queue_families.len()
        invariant
            i <= queue_families.queue_families@.len(),
            queue_families.queue_families@.len() <= u32::MAX,
            plan@ == plan_spec(*queue_families, i as int),
        decreases queue_families.queue_families@.len() - i,
    {
        let idx = i as u32;
        let mut usage: u32 = 0;
        if list_contains(&queue_families.graphics, idx) {
            usage += 1;
        }
        if list_contains(&queue_families.compute, idx) {
            usage += 1;
        }
        if list_contains(&queue_families.present, idx) {
            usage += 1;
        }
        if usage > 0 {
            let cap = queue_families.queue_families[i].queue_count;
            let count = if usage < cap {
                usage
            } else {
                cap
            };
            plan.push(DeviceQueueRequest { family_index: idx, queue_count: count });
        }
        i += 1;
    }
    plan
}

/// The largest queue count any family offers (zero when there are none);
/// the logical-device creation sizes its priority list to this bound.
pub fn max_family_queue_count(queue_families: &Vec<QueueFamilyInfo>) -> (r: u32)
    ensures
        forall|k: int| 0 <= k < queue_families@.len() ==> #[trigger] queue_families@[k].queue_count
            <= r,
        queue_families@.len() == 0 ==> r == 0,
        queue_families@.len() > 0 ==> exists|k: int|
            0 <= k < queue_families@.len() && #[trigger] queue_families@[k].queue_count == r,
{
    let mut r: u32 = 0;
    let mut i: usize = 0;
    while i < queue_families.len()
        invariant
            i <= queue_families@.len(),
            forall|k: int| 0 <= k < i ==> #[trigger] queue_families@[k].queue_count <= r,
            i == 0 ==> r == 0,
            i > 0 ==> exists|k: int|
                0 <= k < i && #[trigger] queue_families@[k].queue_count == r,
        decreases queue_families@.len() - i,
    {
        let c = queue_families[i].queue_count;
        if c > r {
            r = c;
        }
        i += 1;
    }
    r
}

/// A queue-family index chosen for a required mask always lies inside the
/// classified candidate list of every role named by that mask.
pub proof fn lemma_selection_in_classified(qf: QueueFamilies, required: u32, chosen: u32)
    requires
        qf.wf(),
        chosen < qf.queue_families@.len(),
        family_qualifies(qf.queue_families@[chosen as int], required),
    ensures
        required & QUEUE_GRAPHICS != 0 ==> qf.graphics@.contains(chosen),
        required & QUEUE_COMPUTE != 0 ==> qf.compute@.contains(chosen),
        required & QUEUE_TRANSFER != 0 ==> qf.transfer@.contains(chosen),
{
    let s = qf.queue_families@;
    let n = s.len() as int;
    let f = s[chosen as int].queue_flags;
    lemma_role_indices_sound(s, n, QueueType::Graphics);
    lemma_role_indices_sound(s, n, QueueType::Compute);
    lemma_role_indices_sound(s, n, QueueType::Transfer);
    assert(f & required == required ==> ((required & 0x1u32 != 0 ==> f & 0x1u32 != 0) && (required
        & 0x2u32 != 0 ==> f & 0x2u32 != 0) && (required & 0x4u32 != 0 ==> f & 0x4u32 != 0)))
        by (bit_vector);
}

} // verus!
