//! Choosing the graphics adapter, its queue families and its memory types.

use crate::gpu;
use vstd::prelude::*;

verus! {

/// The name of the vendor behind a PCI vendor number.
pub open spec fn vendor_of(id: u32) -> Seq<char> {
    if id == 0x10DE {
        "NVIDIA"@
    } else if id == 0x1002 {
        "AMD"@
    } else if id == 0x8086 {
        "Intel"@
    } else if id == 0x13B5 {
        "ARM"@
    } else if id == 0x5143 {
        "Qualcomm"@
    } else if id == 0x1010 {
        "ImgTec"@
    } else if id == 0x106B {
        "Apple"@
    } else {
        "Unknown"@
    }
}

/// The name of the vendor behind a PCI vendor number.
pub fn vendor_name(id: u32) -> (name: &'static str)
    ensures
        name@ == vendor_of(id),
{
    match id {
        0x10DE => "NVIDIA",
        0x1002 => "AMD",
        0x8086 => "Intel",
        0x13B5 => "ARM",
        0x5143 => "Qualcomm",
        0x1010 => "ImgTec",
        0x106B => "Apple",
        _ => "Unknown",
    }
}

/// What a chosen adapter can do.
pub struct DeviceCaps {
    pub vendor_id: u32,
    pub device_id: u32,
    pub device_name: String,
    pub driver_version: u32,
    pub api_version: u32,
    pub graphics_family: u32,
    pub async_compute_family: Option<u32>,
    pub subgroup_size: u32,
    /// The Vulkan number of the kind of device.
    pub device_type: i32,
    pub device_memory_mb: u64,
}

impl DeviceCaps {
    /// The name of the adapter's vendor.
    pub fn vendor_str(&self) -> (name: &'static str)
        ensures
            name@ == vendor_of(self.vendor_id),
    {
        vendor_name(self.vendor_id)
    }

    /// Whether a queue family for parallel compute work was found.
    pub fn has_async_compute(&self) -> (yes: bool)
        ensures
            yes == (self.async_compute_family is Some),
    {
        self.async_compute_family.is_some()
    }
}

/// A queue family: its capability flags, and whether it can present to the
/// window.
#[derive(Clone, Copy)]
pub struct QueueFamily {
    pub flags: u32,
    pub presents: bool,
}

/// A memory heap: its size in bytes and its property flags.
#[derive(Clone, Copy)]
pub struct MemoryHeap {
    pub size: u64,
    pub flags: u32,
}

/// What an adapter reports about itself.
pub struct Adapter {
    pub vendor_id: u32,
    pub device_id: u32,
    pub device_name: String,
    pub driver_version: u32,
    pub api_version: u32,
    pub device_type: i32,
    pub subgroup_size: u32,
    pub families: Vec<QueueFamily>,
    pub heaps: Vec<MemoryHeap>,
}

/// Whether `i` is the least number below `n` with property `p`.
pub open spec fn is_least(n: nat, p: spec_fn(int) -> bool, i: int) -> bool {
    &&& 0 <= i < n
    &&& p(i)
    &&& forall|j: int| 0 <= j < i ==> !#[trigger] p(j)
}

/// The least number below `n` with property `p`, if there is one.
pub open spec fn least_below(n: nat, p: spec_fn(int) -> bool) -> Option<int> {
    if exists|i: int| is_least(n, p, i) {
        Some(choose|i: int| is_least(n, p, i))
    } else {
        None
    }
}

/// The number that a search from zero stops at is the least one.
proof fn lemma_least_found(n: nat, p: spec_fn(int) -> bool, i: int)
    requires
        is_least(n, p, i),
    ensures
        least_below(n, p) == Some(i),
{
    let k = choose|k: int| is_least(n, p, k);
    assert(is_least(n, p, k));
    assert(k == i) by {
        if k < i {
            assert(!p(k));
        }
        if i < k {
            assert(!p(i));
        }
    }
}

proof fn lemma_least_missing(n: nat, p: spec_fn(int) -> bool)
    requires
        forall|j: int| 0 <= j < n ==> !#[trigger] p(j),
    ensures
        least_below(n, p) is None,
{
}

pub open spec fn family_has(f: QueueFamily, wanted: u32) -> bool {
    gpu::has_bits(f.flags, wanted)
}

/// A family that can draw, compute and present.
pub open spec fn is_primary(f: QueueFamily) -> bool {
    f.presents && family_has(f, gpu::QUEUE_GRAPHICS) && family_has(f, gpu::QUEUE_COMPUTE)
}

/// The family that does the drawing: the first that can draw, compute and
/// present.
pub open spec fn primary_family(families: Seq<QueueFamily>) -> Option<int> {
    least_below(families.len(), |i: int| is_primary(families[i]))
}

/// The families besides `primary` that compute, and do not draw if `dedicated`
/// is set.
pub open spec fn computes_apart(
    families: Seq<QueueFamily>,
    primary: int,
    dedicated: bool,
) -> spec_fn(int) -> bool {
    |i: int|
        i != primary && family_has(families[i], gpu::QUEUE_COMPUTE) && !(dedicated && family_has(
            families[i],
            gpu::QUEUE_GRAPHICS,
        ))
}

/// The family for parallel compute work: the first other family that computes
/// without drawing, or else the first other one that computes.
pub open spec fn async_family(families: Seq<QueueFamily>, primary: int) -> Option<int> {
    let dedicated = least_below(families.len(), computes_apart(families, primary, true));
    if dedicated is Some {
        dedicated
    } else {
        least_below(families.len(), computes_apart(families, primary, false))
    }
}

/// The size of the largest heap on the device itself.
pub open spec fn largest_device_heap(heaps: Seq<MemoryHeap>) -> u64
    decreases heaps.len(),
{
    if heaps.len() == 0 {
        0
    } else {
        let rest = largest_device_heap(heaps.drop_last());
        let h = heaps.last();
        if gpu::has_bits(h.flags, gpu::HEAP_DEVICE_LOCAL) && h.size > rest {
            h.size
        } else {
            rest
        }
    }
}

/// How strongly a kind of device is preferred.
pub open spec fn device_score(device_type: i32) -> int {
    if device_type == gpu::DEVICE_TYPE_DISCRETE_GPU {
        100
    } else if device_type == gpu::DEVICE_TYPE_INTEGRATED_GPU {
        50
    } else {
        10
    }
}

/// Whether an adapter can be used at all.
pub open spec fn is_suitable(a: Adapter) -> bool {
    primary_family(a.families@) is Some
}

/// Whether `caps` describe adapter `a`.
pub open spec fn describes(caps: DeviceCaps, a: Adapter) -> bool {
    &&& is_suitable(a)
    &&& caps.vendor_id == a.vendor_id
    &&& caps.device_id == a.device_id
    &&& caps.device_name@ == a.device_name@
    &&& caps.driver_version == a.driver_version
    &&& caps.api_version == a.api_version
    &&& caps.subgroup_size == a.subgroup_size
    &&& caps.device_type == a.device_type
    &&& caps.device_memory_mb == largest_device_heap(a.heaps@) as int / 0x10_0000
    &&& primary_family(a.families@) == Some(caps.graphics_family as int)
    &&& async_family(a.families@, caps.graphics_family as int) == (
    match caps.async_compute_family {
        Some(f) => Some(f as int),
        None => None,
    })
}

/// Whether adapter `k` is the one to use: the first among the suitable ones of
/// the most preferred kind.
pub open spec fn is_best(adapters: Seq<Adapter>, k: int) -> bool {
    &&& 0 <= k < adapters.len()
    &&& is_suitable(adapters[k])
    &&& forall|j: int|
        0 <= j < adapters.len() && is_suitable(#[trigger] adapters[j]) ==> {
            &&& device_score(adapters[j].device_type) <= device_score(adapters[k].device_type)
            &&& j < k ==> device_score(adapters[j].device_type) < device_score(
                adapters[k].device_type,
            )
        }
}

/// Finds the family that does the drawing.
fn find_primary(families: &Vec<QueueFamily>) -> (r: Option<u32>)
    requires
        families@.len() <= u32::MAX,
    ensures
        match r {
            Some(f) => primary_family(families@) == Some(f as int),
            None => primary_family(families@) is None,
        },
{
    let ghost p = |i: int| is_primary(families@[i]);
    let mut i: usize = 0;
    while i < families.len()
        invariant
            i <= families@.len() <= u32::MAX,
            p == |i: int| is_primary(families@[i]),
            forall|j: int| 0 <= j < i ==> !#[trigger] p(j),
        decreases families@.len() - i,
    {
        let q = families[i];
        if q.presents && gpu::queue_flags_contain(q.flags, gpu::QUEUE_GRAPHICS)
            && gpu::queue_flags_contain(q.flags, gpu::QUEUE_COMPUTE) {
            proof {
                assert(p(i as int));
                lemma_least_found(families@.len(), p, i as int);
            }
            return Some(i as u32);
        }
        assert(!p(i as int));
        i = i + 1;
    }
    proof {
        lemma_least_missing(families@.len(), p);
    }
    None
}

/// Finds the first family besides `primary` that computes, and does not draw if
/// `dedicated` is set.
fn find_compute(families: &Vec<QueueFamily>, primary: u32, dedicated: bool) -> (r: Option<u32>)
    requires
        families@.len() <= u32::MAX,
    ensures
        match r {
            Some(f) => least_below(
                families@.len(),
                computes_apart(families@, primary as int, dedicated),
            ) == Some(f as int),
            None => least_below(
                families@.len(),
                computes_apart(families@, primary as int, dedicated),
            ) is None,
        },
{
    let ghost p = computes_apart(families@, primary as int, dedicated);
    let mut i: usize = 0;
    #[verifier::loop_isolation(false)]
    while i < families.len()
        invariant
            i <= families@.len(),
            forall|j: int| 0 <= j < i ==> !#[trigger] p(j),
        decreases families@.len() - i,
    {
        let q = families[i];
        if i as u32 != primary && gpu::queue_flags_contain(q.flags, gpu::QUEUE_COMPUTE) && (
        !dedicated || !gpu::queue_flags_contain(q.flags, gpu::QUEUE_GRAPHICS)) {
            proof {
                assert(p(i as int));
                lemma_least_found(families@.len(), p, i as int);
            }
            return Some(i as u32);
        }
        assert(!p(i as int));
        i = i + 1;
    }
    proof {
        lemma_least_missing(families@.len(), p);
    }
    None
}

/// Finds the size of the largest heap on the device itself.
fn device_memory(heaps: &Vec<MemoryHeap>) -> (bytes: u64)
    ensures
        bytes == largest_device_heap(heaps@),
{
    let mut best: u64 = 0;
    let mut i: usize = 0;
    assert(heaps@.take(0) =~= Seq::<MemoryHeap>::empty());
    while i < heaps.len()
        invariant
            i <= heaps@.len(),
            best == largest_device_heap(heaps@.take(i as int)),
        decreases heaps@.len() - i,
    {
        let h = heaps[i];
        assert(heaps@.take(i + 1).drop_last() =~= heaps@.take(i as int));
        if gpu::heap_flags_contain(h.flags, gpu::HEAP_DEVICE_LOCAL) && h.size > best {
            best = h.size;
        }
        i = i + 1;
    }
    assert(heaps@.take(heaps@.len() as int) =~= heaps@);
    best
}

/// Sums up what adapter `a` can do, or nothing if it cannot be used.
pub fn adapter_caps(a: &Adapter) -> (caps: Option<DeviceCaps>)
    requires
        a.families@.len() <= u32::MAX,
    ensures
        match caps {
            Some(c) => describes(c, *a),
            None => !is_suitable(*a),
        },
{
    let primary: u32 = match find_primary(&a.families) {
        Some(p) => p,
        None => {
            return None;
        },
    };
    let mut async_fam: Option<u32> = find_compute(&a.families, primary, true);
    if async_fam.is_none() {
        async_fam = find_compute(&a.families, primary, false);
    }
    Some(
        DeviceCaps {
            vendor_id: a.vendor_id,
            device_id: a.device_id,
            device_name: a.device_name.clone(),
            driver_version: a.driver_version,
            api_version: a.api_version,
            graphics_family: primary,
            async_compute_family: async_fam,
            subgroup_size: a.subgroup_size,
            device_type: a.device_type,
            device_memory_mb: device_memory(&a.heaps) / (1024 * 1024),
        },
    )
}

fn score_of(device_type: i32) -> (score: i32)
    ensures
        score == device_score(device_type),
{
    match device_type {
        gpu::DEVICE_TYPE_DISCRETE_GPU => 100,
        gpu::DEVICE_TYPE_INTEGRATED_GPU => 50,
        _ => 10,
    }
}

/// Picks the adapter to draw with, and sums up what it can do. There is none if
/// no adapter has a family that can draw, compute and present.
pub fn pick_physical_device(adapters: &Vec<Adapter>) -> (pick: Option<(usize, DeviceCaps)>)
    requires
        forall|j: int| 0 <= j < adapters@.len() ==> #[trigger] adapters@[j].families@.len()
            <= u32::MAX,
    ensures
        match pick {
            Some((k, caps)) => is_best(adapters@, k as int) && describes(caps, adapters@[k as int]),
            None => forall|j: int|
                0 <= j < adapters@.len() ==> !is_suitable(#[trigger] adapters@[j]),
        },
{
    let mut best: Option<(usize, DeviceCaps)> = None;
    let mut best_score: i32 = -1;
    let mut i: usize = 0;
    while i < adapters.len()
        invariant
            i <= adapters@.len(),
            forall|j: int|
                0 <= j < adapters@.len() ==> #[trigger] adapters@[j].families@.len() <= u32::MAX,
            match best {
                Some((k, caps)) => {
                    &&& is_best(adapters@.take(i as int), k as int)
                    &&& describes(caps, adapters@[k as int])
                    &&& best_score == device_score(adapters@[k as int].device_type)
                },
                None => best_score == -1 && forall|j: int|
                    0 <= j < i ==> !is_suitable(#[trigger] adapters@[j]),
            },
        decreases adapters@.len() - i,
    {
        let ghost before = adapters@.take(i as int);
        let ghost after = adapters@.take(i + 1);
        assert(forall|j: int| 0 <= j < i ==> before[j] == after[j] && after[j] == adapters@[j]);
        assert(after[i as int] == adapters@[i as int]);
        match adapter_caps(&adapters[i]) {
            Some(caps) => {
                let score: i32 = score_of(adapters[i].device_type);
                if best_score < score {
                    best = Some((i, caps));
                    best_score = score;
                    assert(is_best(after, i as int));
                } else {
                    assert(best is Some);
                    assert(is_best(after, best.unwrap().0 as int));
                }
            },
            None => {
                if best.is_some() {
                    assert(is_best(after, best.unwrap().0 as int));
                }
            },
        }
        i = i + 1;
    }
    assert(adapters@.take(adapters@.len() as int) =~= adapters@);
    best
}

/// Whether memory type `i` is allowed by `type_bits` and has the properties.
pub open spec fn memory_type_fits(types: Seq<u32>, type_bits: u32, props: u32, i: int) -> bool {
    (type_bits & (1u32 << (i as u32))) != 0 && gpu::has_bits(types[i], props)
}

/// Finds the first memory type that the resource allows and that has all the
/// properties asked for.
pub fn find_memory_type(types: &Vec<u32>, type_bits: u32, props: u32) -> (r: Option<u32>)
    requires
        types@.len() <= 32,
    ensures
        match r {
            Some(t) => is_least(
                types@.len(),
                |i: int| memory_type_fits(types@, type_bits, props, i),
                t as int,
            ),
            None => forall|i: int|
                0 <= i < types@.len() ==> !memory_type_fits(types@, type_bits, props, i),
        },
        r matches Some(t) ==> {
            &&& t < types@.len()
            &&& memory_type_fits(types@, type_bits, props, t as int)
            &&& forall|i: int| 0 <= i < t ==> !memory_type_fits(types@, type_bits, props, i)
        },
{
    let ghost p = |i: int| memory_type_fits(types@, type_bits, props, i);
    let mut i: usize = 0;
    while i < types.len()
        invariant
            i <= types@.len() <= 32,
            p == |i: int| memory_type_fits(types@, type_bits, props, i),
            forall|j: int| 0 <= j < i ==> !memory_type_fits(types@, type_bits, props, j),
        decreases types@.len() - i,
    {
        if (type_bits & (1u32 << (i as u32))) != 0 && gpu::memory_flags_contain(types[i], props) {
            assert(p(i as int));
            return Some(i as u32);
        }
        i = i + 1;
    }
    None
}

/// A parallel compute family computes and is never the drawing family.
pub proof fn law_async_family_is_apart(families: Seq<QueueFamily>, primary: int)
    ensures
        async_family(families, primary) matches Some(f) ==> {
            &&& 0 <= f < families.len()
            &&& f != primary
            &&& family_has(families[f], gpu::QUEUE_COMPUTE)
        },
{
}

/// A compute-only family is preferred: if there is one besides the drawing
/// family, the parallel compute family does not draw.
pub proof fn law_dedicated_family_first(families: Seq<QueueFamily>, primary: int, k: int)
    requires
        0 <= k < families.len(),
        k != primary,
        family_has(families[k], gpu::QUEUE_COMPUTE),
        !family_has(families[k], gpu::QUEUE_GRAPHICS),
    ensures
        async_family(families, primary) matches Some(f) && !family_has(
            families[f],
            gpu::QUEUE_GRAPHICS,
        ),
{
    let p = computes_apart(families, primary, true);
    assert(p(k));
    lemma_least_exists(families.len(), p, k);
}

/// If any number has the property, there is a least one.
proof fn lemma_least_exists(n: nat, p: spec_fn(int) -> bool, k: int)
    requires
        0 <= k < n,
        p(k),
    ensures
        least_below(n, p) is Some,
    decreases k,
{
    if forall|j: int| 0 <= j < k ==> !#[trigger] p(j) {
        assert(is_least(n, p, k));
    } else {
        let j = choose|j: int| 0 <= j < k && #[trigger] p(j);
        lemma_least_exists(n, p, j);
    }
}

/// Only one adapter can be the one to use.
pub proof fn law_best_is_unique(adapters: Seq<Adapter>, k: int, m: int)
    requires
        is_best(adapters, k),
        is_best(adapters, m),
    ensures
        k == m,
{
    assert(is_suitable(adapters[k]) && is_suitable(adapters[m]));
}

/// No heap on the device is larger than the reported memory, and the report is
/// the size of one of them, or zero.
pub proof fn law_device_memory_is_largest(heaps: Seq<MemoryHeap>)
    ensures
        forall|i: int|
            0 <= i < heaps.len() && gpu::has_bits(
                #[trigger] heaps[i].flags,
                gpu::HEAP_DEVICE_LOCAL,
            ) ==> heaps[i].size <= largest_device_heap(heaps),
        largest_device_heap(heaps) == 0 || exists|i: int|
            0 <= i < heaps.len() && gpu::has_bits(
                #[trigger] heaps[i].flags,
                gpu::HEAP_DEVICE_LOCAL,
            ) && heaps[i].size == largest_device_heap(heaps),
    decreases heaps.len(),
{
    if heaps.len() > 0 {
        let rest = heaps.drop_last();
        let n = heaps.len() - 1;
        law_device_memory_is_largest(rest);
        assert forall|i: int|
            0 <= i < heaps.len() && gpu::has_bits(
                #[trigger] heaps[i].flags,
                gpu::HEAP_DEVICE_LOCAL,
            ) implies heaps[i].size <= largest_device_heap(heaps) by {
            if i < n {
                assert(gpu::has_bits(rest[i].flags, gpu::HEAP_DEVICE_LOCAL));
            }
        }
        if largest_device_heap(heaps) == largest_device_heap(rest) {
            if largest_device_heap(rest) != 0 {
                let i = choose|i: int|
                    0 <= i < n && gpu::has_bits(#[trigger] rest[i].flags, gpu::HEAP_DEVICE_LOCAL)
                        && rest[i].size == largest_device_heap(rest);
                assert(gpu::has_bits(heaps[i].flags, gpu::HEAP_DEVICE_LOCAL));
            }
        } else {
            assert(gpu::has_bits(heaps[n].flags, gpu::HEAP_DEVICE_LOCAL));
        }
    }
}

/// The families that the device gets a queue of.
pub open spec fn queues_of(caps: DeviceCaps) -> Seq<u32> {
    match caps.async_compute_family {
        Some(f) => seq![caps.graphics_family, f],
        None => seq![caps.graphics_family],
    }
}

/// The families that the device gets a queue of: the one that draws and, where there is
/// one, the one for parallel compute work.
pub fn device_queues(caps: &DeviceCaps) -> (families: Vec<u32>)
    ensures
        families@ == queues_of(*caps),
{
    let mut families: Vec<u32> = Vec::new();
    families.push(caps.graphics_family);
    if let Some(f) = caps.async_compute_family {
        families.push(f);
    }
    assert(families@ =~= queues_of(*caps));
    families
}

/// No family is asked for two queues.
pub proof fn law_queues_differ(caps: DeviceCaps, a: Adapter)
    requires
        describes(caps, a),
    ensures
        queues_of(caps).no_duplicates(),
{
    law_async_family_is_apart(a.families@, caps.graphics_family as int);
}

/// The family that does the drawing is the first one that can present, draw and compute:
/// there is one as soon as some family can do all of it, and it never comes later.
pub proof fn law_first_able_family_draws(families: Seq<QueueFamily>, k: int)
    requires
        0 <= k < families.len(),
        families[k].presents,
        families[k].flags & 1 == 1,
        families[k].flags & 2 == 2,
    ensures
        primary_family(families) matches Some(f) && {
            &&& 0 <= f <= k
            &&& families[f].presents
            &&& families[f].flags & 1 == 1
            &&& families[f].flags & 2 == 2
        },
{
    let p = |i: int| is_primary(families[i]);
    assert(p(k));
    lemma_least_exists(families.len(), p, k);
    let f = least_below(families.len(), p).unwrap();
    assert(is_least(families.len(), p, f));
    assert(p(f));
    assert(f <= k) by {
        if k < f {
            assert(!p(k));
        }
    }
}

/// A family that does the drawing can do all that it has to.
pub proof fn law_drawing_family_is_able(families: Seq<QueueFamily>)
    ensures
        primary_family(families) matches Some(f) ==> {
            &&& 0 <= f < families.len()
            &&& families[f].presents
            &&& families[f].flags & 1 == 1
            &&& families[f].flags & 2 == 2
        },
{
    let p = |i: int| is_primary(families[i]);
    if let Some(f) = primary_family(families) {
        assert(is_least(families.len(), p, f));
        assert(p(f));
    }
}

/// The family for parallel compute work is there as soon as some other family computes.
/// Among those that compute without drawing it is the first, and where there are none of
/// these, it is the first that computes.
pub proof fn law_first_apart_family_computes(families: Seq<QueueFamily>, primary: int, k: int)
    requires
        0 <= k < families.len(),
        k != primary,
        families[k].flags & 2 == 2,
    ensures
        async_family(families, primary) matches Some(f) && {
            &&& 0 <= f < families.len() && f != primary && families[f].flags & 2 == 2
            &&& families[k].flags & 1 != 1 ==> f <= k
            &&& families[f].flags & 1 == 1 ==> f <= k
        },
{
    let apart = computes_apart(families, primary, true);
    let any = computes_apart(families, primary, false);
    assert(any(k));
    lemma_least_exists(families.len(), any, k);
    let g = least_below(families.len(), any).unwrap();
    assert(is_least(families.len(), any, g));
    assert(any(g));
    if k < g {
        assert(!any(k));
    }
    if families[k].flags & 1 != 1 {
        assert(apart(k));
        lemma_least_exists(families.len(), apart, k);
    }
    if let Some(f) = least_below(families.len(), apart) {
        assert(is_least(families.len(), apart, f));
        assert(apart(f));
        if k < f {
            assert(!apart(k));
        }
    }
}

/// A discrete adapter is taken before an integrated one, an integrated one before any
/// other, and among adapters of one kind the first.
pub proof fn law_better_kinds_come_first(adapters: Seq<Adapter>, k: int, j: int)
    requires
        is_best(adapters, k),
        0 <= j < adapters.len(),
        is_suitable(adapters[j]),
    ensures
        adapters[j].device_type == 2 ==> adapters[k].device_type == 2,
        adapters[j].device_type == 1 ==> adapters[k].device_type == 1 || adapters[k].device_type
            == 2,
        adapters[j].device_type == adapters[k].device_type ==> k <= j,
        adapters[k].device_type != 1 && adapters[k].device_type != 2 ==> k <= j,
{
}

/// What is reported of an adapter is what it says of itself, with the memory of its
/// largest own heap in whole mebibytes, and with queues that it has.
pub proof fn law_report_is_the_adapters(caps: DeviceCaps, a: Adapter)
    requires
        describes(caps, a),
    ensures
        caps.vendor_id == a.vendor_id,
        caps.device_id == a.device_id,
        caps.device_name@ == a.device_name@,
        caps.driver_version == a.driver_version,
        caps.api_version == a.api_version,
        caps.subgroup_size == a.subgroup_size,
        caps.device_type == a.device_type,
        caps.device_memory_mb * 1048576 <= largest_device_heap(a.heaps@) < (caps.device_memory_mb
            + 1) * 1048576,
        caps.graphics_family < a.families@.len(),
        a.families@[caps.graphics_family as int].presents,
        a.families@[caps.graphics_family as int].flags & 1 == 1,
        a.families@[caps.graphics_family as int].flags & 2 == 2,
        caps.async_compute_family matches Some(f) ==> f < a.families@.len() && f
            != caps.graphics_family && a.families@[f as int].flags & 2 == 2,
{
    law_drawing_family_is_able(a.families@);
    law_async_family_is_apart(a.families@, caps.graphics_family as int);
}

/// The device gets one queue of the family that draws, which comes first, and one of the
/// family for parallel compute work where there is one.
pub proof fn law_device_has_its_queues(caps: DeviceCaps)
    ensures
        queues_of(caps)[0] == caps.graphics_family,
        caps.async_compute_family is None ==> queues_of(caps).len() == 1,
        caps.async_compute_family matches Some(f) ==> queues_of(caps).len() == 2 && queues_of(
            caps,
        )[1] == f,
{
}

/// A memory type fits where the bit of its number is set among the allowed ones and each
/// property asked for is among its own.
pub proof fn law_fitting_memory_type(types: Seq<u32>, type_bits: u32, props: u32, i: u32)
    requires
        i < 32,
        i < types.len(),
    ensures
        memory_type_fits(types, type_bits, props, i as int) <==> (type_bits >> i) % 2 == 1 && types[
        i as int] & props == props,
{
    assert((type_bits & (1u32 << i)) != 0 <==> (type_bits >> i) % 2 == 1) by (bit_vector)
        requires
            i < 32,
    ;
}

/// Vendors are known by these numbers, and by no others.
pub proof fn law_vendors_are_known(id: u32)
    ensures
        id == 0x10DE <==> vendor_of(id) == "NVIDIA"@,
        id == 0x1002 <==> vendor_of(id) == "AMD"@,
        id == 0x8086 <==> vendor_of(id) == "Intel"@,
        id == 0x13B5 <==> vendor_of(id) == "ARM"@,
        id == 0x5143 <==> vendor_of(id) == "Qualcomm"@,
        id == 0x1010 <==> vendor_of(id) == "ImgTec"@,
        id == 0x106B <==> vendor_of(id) == "Apple"@,
        vendor_of(id) == "Unknown"@ <==> id != 0x10DE && id != 0x1002 && id != 0x8086 && id
            != 0x13B5 && id != 0x5143 && id != 0x1010 && id != 0x106B,
{
    reveal_strlit("NVIDIA");
    reveal_strlit("AMD");
    reveal_strlit("Intel");
    reveal_strlit("ARM");
    reveal_strlit("Qualcomm");
    reveal_strlit("ImgTec");
    reveal_strlit("Apple");
    reveal_strlit("Unknown");
    let name = vendor_of(id);
    assert(name.len() > 0);
    assert(name[0] == 'A' ==> name[1] == 'M' || name[1] == 'R' || name[1] == 'p');
    assert("AMD"@[1] == 'M' && "ARM"@[1] == 'R' && "Apple"@[1] == 'p');
    assert("Intel"@[1] == 'n' && "ImgTec"@[1] == 'm');
    assert("NVIDIA"@[0] == 'N' && "Qualcomm"@[0] == 'Q' && "Unknown"@[0] == 'U');
    assert("AMD"@[0] == 'A' && "ARM"@[0] == 'A' && "Apple"@[0] == 'A');
    assert("Intel"@[0] == 'I' && "ImgTec"@[0] == 'I');
}

} // verus!
