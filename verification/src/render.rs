//! Planning the instances the renderer draws.
//!
//! Every drawn entity contributes some transforms and some geometries; each
//! pairing of one of its transforms with one of its geometries is an
//! instance. Transforms and geometries are stored one after the other in
//! the order the entities are visited, and an instance is the pair of their
//! positions, each stored in 32 bits.
use vstd::prelude::*;

use vstd::arithmetic::div_mod::lemma_fundamental_div_mod_converse;

verus! {

/// The most transforms one frame can upload: 2²¹.
pub const MAX_TRANSFORM2D_COUNT: usize = 2097152;

/// The most geometries one frame can upload: 2²¹.
pub const MAX_GEOMETRY_COUNT: usize = 2097152;

/// The most instances one frame can draw: 2²².
pub const MAX_INDEX_PAIR_COUNT: usize = 4194304;

/// The number of transforms of the entities `groups`, each given as its
/// (number of transforms, number of geometries).
pub open spec fn total_transforms(groups: Seq<(usize, usize)>) -> nat
    decreases groups.len(),
{
    if groups.len() == 0 {
        0
    } else {
        total_transforms(groups.drop_last()) + groups.last().0 as nat
    }
}

/// The number of geometries of the entities `groups`.
pub open spec fn total_geometries(groups: Seq<(usize, usize)>) -> nat
    decreases groups.len(),
{
    if groups.len() == 0 {
        0
    } else {
        total_geometries(groups.drop_last()) + groups.last().1 as nat
    }
}

/// The number of instances of the entities `groups`.
pub open spec fn total_pairs(groups: Seq<(usize, usize)>) -> nat
    decreases groups.len(),
{
    if groups.len() == 0 {
        0
    } else {
        total_pairs(groups.drop_last()) + (groups.last().0 as nat) * (groups.last().1 as nat)
    }
}

/// The instances of one entity whose transforms start at `t0` and whose
/// geometries start at `g0`: every transform with every geometry, transform
/// by transform, each as the positions of its transform and its geometry.
pub open spec fn group_pairs(t0: nat, g0: nat, t_len: nat, g_len: nat) -> Seq<(nat, nat)> {
    Seq::new(
        t_len * g_len,
        |k: int| (t0 + (k / g_len as int) as nat, g0 + (k % g_len as int) as nat),
    )
}

/// The stored pairs `v` hold exactly the positions `p`.
pub open spec fn holds_positions(v: Seq<(u32, u32)>, p: Seq<(nat, nat)>) -> bool {
    &&& v.len() == p.len()
    &&& forall|i: int| 0 <= i < v.len() ==> #[trigger] v[i].0 == p[i].0 && v[i].1 == p[i].1
}

/// The instances of the entities `groups`, entity by entity.
pub open spec fn index_pairs(groups: Seq<(usize, usize)>) -> Seq<(nat, nat)>
    decreases groups.len(),
{
    if groups.len() == 0 {
        Seq::empty()
    } else {
        let rest = groups.drop_last();
        index_pairs(rest) + group_pairs(
            total_transforms(rest),
            total_geometries(rest),
            groups.last().0 as nat,
            groups.last().1 as nat,
        )
    }
}

/// Which limit a frame exceeds.
#[derive(Debug, Clone, Copy, PartialEq, Eq)]
pub enum InstanceLimitError {
    TooManyTransforms,
    TooManyGeometries,
    TooManyIndexPairs,
}

/// What to upload for a frame: the numbers of transforms and geometries and
/// the instances.
#[derive(Debug, Clone)]
pub struct InstancePlan {
    pub transform_count: usize,
    pub geometry_count: usize,
    pub index_pairs: Vec<(u32, u32)>,
}

proof fn lemma_totals_take(groups: Seq<(usize, usize)>, i: int)
    requires
        0 <= i < groups.len(),
    ensures
        groups.take(i + 1).drop_last() == groups.take(i),
        groups.take(i + 1).last() == groups[i],
        total_transforms(groups.take(i + 1)) == total_transforms(groups.take(i)) + groups[i].0,
        total_geometries(groups.take(i + 1)) == total_geometries(groups.take(i)) + groups[i].1,
        total_pairs(groups.take(i + 1)) == total_pairs(groups.take(i)) + groups[i].0
            * groups[i].1,
        index_pairs(groups.take(i + 1)) == index_pairs(groups.take(i)) + group_pairs(
            total_transforms(groups.take(i)),
            total_geometries(groups.take(i)),
            groups[i].0 as nat,
            groups[i].1 as nat,
        ),
{
    assert(groups.take(i + 1).drop_last() =~= groups.take(i));
}

proof fn lemma_totals_monotone(groups: Seq<(usize, usize)>, i: int, j: int)
    requires
        0 <= i <= j <= groups.len(),
    ensures
        total_transforms(groups.take(i)) <= total_transforms(groups.take(j)),
        total_geometries(groups.take(i)) <= total_geometries(groups.take(j)),
    decreases j - i,
{
    if i < j {
        lemma_totals_monotone(groups, i, j - 1);
        lemma_totals_take(groups, j - 1);
    }
}

proof fn lemma_group_pair_at(t0: nat, g0: nat, t_len: nat, g_len: nat, t: nat, g: nat)
    requires
        t < t_len,
        g < g_len,
    ensures
        t * g_len + g < t_len * g_len,
        group_pairs(t0, g0, t_len, g_len)[(t * g_len + g) as int] == (t0 + t, g0 + g),
{
    let k = (t * g_len + g) as int;
    assert(t * g_len + g < t_len * g_len) by (nonlinear_arith)
        requires
            t < t_len,
            g < g_len,
    ;
    lemma_fundamental_div_mod_converse(k, g_len as int, t as int, g as int);
}

/// Every pairing of an entity's transforms with its geometries is drawn
/// exactly once: there are as many instances as pairings, and each instance
/// refers to a stored transform and a stored geometry.
pub proof fn lemma_index_pairs_cover(groups: Seq<(usize, usize)>)
    ensures
        index_pairs(groups).len() == total_pairs(groups),
        forall|k: int|
            0 <= k < index_pairs(groups).len() ==> (#[trigger] index_pairs(groups)[k]).0
                < total_transforms(groups) && index_pairs(groups)[k].1 < total_geometries(groups),
    decreases groups.len(),
{
    if groups.len() > 0 {
        let rest = groups.drop_last();
        lemma_index_pairs_cover(rest);
        let t0 = total_transforms(rest);
        let g0 = total_geometries(rest);
        let tl = groups.last().0 as nat;
        let gl = groups.last().1 as nat;
        let head = index_pairs(rest);
        let group = group_pairs(t0, g0, tl, gl);
        assert(index_pairs(groups) == head + group);
        {
            assert forall|k: int| 0 <= k < index_pairs(groups).len() implies (
            #[trigger] index_pairs(groups)[k]).0 < total_transforms(groups) && index_pairs(
                groups,
            )[k].1 < total_geometries(groups) by {
                if k >= head.len() {
                    let q = k - head.len();
                    assert(0 <= q < tl * gl);
                    assert(gl > 0) by (nonlinear_arith)
                        requires
                            0 <= q < tl * gl,
                    ;
                    assert(q / (gl as int) < tl && q % (gl as int) < gl) by (nonlinear_arith)
                        requires
                            0 <= q < tl * gl,
                            gl > 0,
                    ;
                    assert(index_pairs(groups)[k] == group[q]);
                }
            }
        }
    }
}

/// The instances for the entities `groups` (each given as its number of
/// transforms and number of geometries), or the first limit, checked in the
/// order transforms, geometries, instances, that the frame exceeds.
pub fn plan_instances(groups: &Vec<(usize, usize)>) -> (r: Result<InstancePlan, InstanceLimitError>)
    ensures
        match r {
            Ok(plan) => {
                &&& total_transforms(groups@) <= MAX_TRANSFORM2D_COUNT
                &&& total_geometries(groups@) <= MAX_GEOMETRY_COUNT
                &&& total_pairs(groups@) <= MAX_INDEX_PAIR_COUNT
                &&& plan.transform_count == total_transforms(groups@)
                &&& plan.geometry_count == total_geometries(groups@)
                &&& holds_positions(plan.index_pairs@, index_pairs(groups@))
            },
            Err(InstanceLimitError::TooManyTransforms) => total_transforms(groups@)
                > MAX_TRANSFORM2D_COUNT,
            Err(InstanceLimitError::TooManyGeometries) => {
                &&& total_transforms(groups@) <= MAX_TRANSFORM2D_COUNT
                &&& total_geometries(groups@) > MAX_GEOMETRY_COUNT
            },
            Err(InstanceLimitError::TooManyIndexPairs) => {
                &&& total_transforms(groups@) <= MAX_TRANSFORM2D_COUNT
                &&& total_geometries(groups@) <= MAX_GEOMETRY_COUNT
                &&& total_pairs(groups@) > MAX_INDEX_PAIR_COUNT
            },
        },
{
    let n = groups.len();
    // Running totals, capped one past each limit.
    let cap_t: u128 = MAX_TRANSFORM2D_COUNT as u128 + 1;
    let cap_g: u128 = MAX_GEOMETRY_COUNT as u128 + 1;
    let cap_p: u128 = MAX_INDEX_PAIR_COUNT as u128 + 1;
    let mut sum_t: u128 = 0;
    let mut sum_g: u128 = 0;
    let mut sum_p: u128 = 0;
    let mut i: usize = 0;
    while i < n
        invariant
            n == groups@.len(),
            i <= n,
            cap_t == MAX_TRANSFORM2D_COUNT + 1,
            cap_g == MAX_GEOMETRY_COUNT + 1,
            cap_p == MAX_INDEX_PAIR_COUNT + 1,
            sum_t == if total_transforms(groups@.take(i as int)) < cap_t {
                total_transforms(groups@.take(i as int))
            } else {
                cap_t as nat
            },
            sum_g == if total_geometries(groups@.take(i as int)) < cap_g {
                total_geometries(groups@.take(i as int))
            } else {
                cap_g as nat
            },
            sum_p == if total_pairs(groups@.take(i as int)) < cap_p {
                total_pairs(groups@.take(i as int))
            } else {
                cap_p as nat
            },
        decreases n - i,
    {
        let (t_len, g_len) = groups[i];
        proof {
            lemma_totals_take(groups@, i as int);
            assert(t_len as int * g_len as int <= 0xffff_ffff_ffff_ffff * 0xffff_ffff_ffff_ffff)
                by (nonlinear_arith)
                requires
                    t_len <= 0xffff_ffff_ffff_ffff,
                    g_len <= 0xffff_ffff_ffff_ffff,
            ;
        }
        let a: u128 = sum_t + t_len as u128;
        sum_t = if a < cap_t {
            a
        } else {
            cap_t
        };
        let b: u128 = sum_g + g_len as u128;
        sum_g = if b < cap_g {
            b
        } else {
            cap_g
        };
        let c: u128 = sum_p + t_len as u128 * g_len as u128;
        sum_p = if c < cap_p {
            c
        } else {
            cap_p
        };
        i = i + 1;
    }
    proof {
        assert(groups@.take(n as int) =~= groups@);
    }
    if sum_t >= cap_t {
        return Err(InstanceLimitError::TooManyTransforms);
    }
    if sum_g >= cap_g {
        return Err(InstanceLimitError::TooManyGeometries);
    }
    if sum_p >= cap_p {
        return Err(InstanceLimitError::TooManyIndexPairs);
    }
    let transform_count: usize = sum_t as usize;
    let geometry_count: usize = sum_g as usize;
    let mut pairs: Vec<(u32, u32)> = Vec::new();
    let mut t_count: usize = 0;
    let mut g_count: usize = 0;
    let mut i: usize = 0;
    while i < n
        invariant
            n == groups@.len(),
            i <= n,
            total_transforms(groups@) <= MAX_TRANSFORM2D_COUNT,
            total_geometries(groups@) <= MAX_GEOMETRY_COUNT,
            t_count == total_transforms(groups@.take(i as int)),
            g_count == total_geometries(groups@.take(i as int)),
            holds_positions(pairs@, index_pairs(groups@.take(i as int))),
        decreases n - i,
    {
        let (t_len, g_len) = groups[i];
        proof {
            lemma_totals_take(groups@, i as int);
            lemma_totals_monotone(groups@, i + 1, n as int);
            assert(groups@.take(n as int) =~= groups@);
        }
        let ghost base = index_pairs(groups@.take(i as int));
        let ghost group = group_pairs(t_count as nat, g_count as nat, t_len as nat, g_len as nat);
        let mut t: usize = 0;
        while t < t_len
            invariant
                t <= t_len,
                t_count + t_len <= MAX_TRANSFORM2D_COUNT,
                g_count + g_len <= MAX_GEOMETRY_COUNT,
                group == group_pairs(t_count as nat, g_count as nat, t_len as nat, g_len as nat),
                holds_positions(pairs@, base + group.take(t * g_len)),
            decreases t_len - t,
        {
            proof {
                assert(t * g_len + g_len == (t + 1) * g_len) by (nonlinear_arith);
                assert(t * g_len <= t_len * g_len) by (nonlinear_arith)
                    requires
                        t <= t_len,
                ;
            }
            let mut g: usize = 0;
            while g < g_len
                invariant
                    t < t_len,
                    g <= g_len,
                    t_count + t_len <= MAX_TRANSFORM2D_COUNT,
                    g_count + g_len <= MAX_GEOMETRY_COUNT,
                    group == group_pairs(
                        t_count as nat,
                        g_count as nat,
                        t_len as nat,
                        g_len as nat,
                    ),
                    holds_positions(pairs@, base + group.take(t * g_len + g)),
                decreases g_len - g,
            {
                proof {
                    lemma_group_pair_at(
                        t_count as nat,
                        g_count as nat,
                        t_len as nat,
                        g_len as nat,
                        t as nat,
                        g as nat,
                    );
                }
                let tx: usize = t_count + t;
                let gx: usize = g_count + g;
                let pair: (u32, u32) = (tx as u32, gx as u32);
                proof {
                    assert(group.take(t * g_len + g + 1) =~= group.take(t * g_len + g).push(
                        group[(t * g_len + g) as int],
                    ));
                }
                pairs.push(pair);
                g = g + 1;
            }
            t = t + 1;
        }
        proof {
            assert(group.take(t_len * g_len) =~= group);
        }
        t_count = t_count + t_len;
        g_count = g_count + g_len;
        i = i + 1;
    }
    proof {
        assert(groups@.take(n as int) =~= groups@);
    }
    Ok(InstancePlan { transform_count, geometry_count, index_pairs: pairs })
}

/// `bytes` are the 32-bit `words` laid out least significant byte first.
pub open spec fn little_endian_words(words: Seq<u32>, bytes: Seq<u8>) -> bool {
    &&& bytes.len() == 4 * words.len()
    &&& forall|i: int|
        0 <= i < words.len() ==> #[trigger] words[i] == bytes[4 * i] + 0x100 * bytes[4 * i + 1]
            + 0x1_0000 * bytes[4 * i + 2] + 0x100_0000 * bytes[4 * i + 3]
}

/// `bytes` are the 32-bit `words` laid out most significant byte first.
pub open spec fn big_endian_words(words: Seq<u32>, bytes: Seq<u8>) -> bool {
    &&& bytes.len() == 4 * words.len()
    &&& forall|i: int|
        0 <= i < words.len() ==> #[trigger] words[i] == 0x100_0000 * bytes[4 * i] + 0x1_0000
            * bytes[4 * i + 1] + 0x100 * bytes[4 * i + 2] + bytes[4 * i + 3]
}

/// `bytes` are the 32-bit `words` in the byte order of the machine, which
/// is one of the two.
pub open spec fn native_words(words: Seq<u32>, bytes: Seq<u8>) -> bool {
    little_endian_words(words, bytes) || big_endian_words(words, bytes)
}

/// The memory of `words` read as bytes (`bytemuck::cast_slice`): four bytes
/// per word, in the byte order of the machine.
#[verifier::external_body]
fn words_as_bytes(words: &[u32]) -> (bytes: Vec<u8>)
    ensures
        native_words(words@, bytes@),
{
    bytemuck::cast_slice::<u32, u8>(words).to_vec()
}

/// The instances as 32-bit words: transform position, then geometry
/// position, instance by instance.
pub open spec fn pair_words(pairs: Seq<(u32, u32)>) -> Seq<u32> {
    Seq::new(
        2 * pairs.len(),
        |k: int|
            if k % 2 == 0 {
                pairs[k / 2].0
            } else {
                pairs[k / 2].1
            },
    )
}

/// The bytes uploaded for the instances `pairs`: each pair as two 32-bit
/// words, in the byte order of the machine.
pub fn index_pair_bytes(pairs: &Vec<(u32, u32)>) -> (bytes: Vec<u8>)
    requires
        2 * pairs@.len() <= usize::MAX,
    ensures
        native_words(pair_words(pairs@), bytes@),
{
    let n = pairs.len();
    let mut words: Vec<u32> = Vec::new();
    let mut i: usize = 0;
    while i < n
        invariant
            n == pairs@.len(),
            2 * n <= usize::MAX,
            i <= n,
            words@.len() == 2 * i,
            forall|k: int| 0 <= k < 2 * i ==> #[trigger] words@[k] == pair_words(pairs@)[k],
        decreases n - i,
    {
        let (t, g) = pairs[i];
        words.push(t);
        words.push(g);
        proof {
            assert(pair_words(pairs@)[2 * i] == t);
            assert(pair_words(pairs@)[2 * i + 1] == g);
        }
        i = i + 1;
    }
    proof {
        assert(words@ =~= pair_words(pairs@));
    }
    words_as_bytes(words.as_slice())
}

/// The bytes uploaded for the two faces of a quad, corners ABC and CDA, as
/// 32-bit indices.
pub fn quad_index_bytes() -> (bytes: Vec<u8>)
    ensures
        native_words(seq![0u32, 1, 2, 2, 3, 0], bytes@),
{
    let words: Vec<u32> = vec![0, 1, 2, 2, 3, 0];
    proof {
        assert(words@ =~= seq![0u32, 1, 2, 2, 3, 0]);
    }
    words_as_bytes(words.as_slice())
}

/// The shader sources last compiled, identified by the hashes of their
/// contents (vertex, fragment).
#[derive(Debug, Clone, Copy, PartialEq, Eq)]
pub struct ShaderHashes {
    pub vhash: u64,
    pub fhash: u64,
}

impl ShaderHashes {
    /// Nothing compiled yet.
    pub fn new() -> (h: ShaderHashes)
        ensures
            h == (ShaderHashes { vhash: 0, fhash: 0 }),
    {
        ShaderHashes { vhash: 0, fhash: 0 }
    }

    /// Records the hashes of the sources just read; says whether either
    /// source changed since the last compilation, in which case both are to
    /// be compiled again.
    pub fn update(&mut self, vhash: u64, fhash: u64) -> (changed: bool)
        ensures
            changed == (old(self).vhash != vhash || old(self).fhash != fhash),
            *final(self) == (ShaderHashes { vhash, fhash }),
    {
        if self.vhash == vhash && self.fhash == fhash {
            return false;
        }
        self.vhash = vhash;
        self.fhash = fhash;
        true
    }
}

/// A step of drawing a frame.
#[derive(Debug, Clone, Copy, PartialEq, Eq, Structural)]
pub enum DrawEvent {
    Begin,
    Finish,
}

/// Why a step of drawing a frame is refused.
#[derive(Debug, Clone, Copy, PartialEq, Eq, Structural)]
pub enum DrawError {
    /// A frame is being drawn already.
    AlreadyBegun,
    /// No frame is being drawn.
    AlreadyEnded,
}

/// Whether a frame is being drawn after `event`, given whether one was
/// (`drawing`): a frame begins only when none is being drawn, and finishes
/// only when one is.
pub fn draw_step(drawing: bool, event: DrawEvent) -> (r: Result<bool, DrawError>)
    ensures
        r == match event {
            DrawEvent::Begin => if drawing {
                Err(DrawError::AlreadyBegun)
            } else {
                Ok(true)
            },
            DrawEvent::Finish => if drawing {
                Ok(false)
            } else {
                Err(DrawError::AlreadyEnded)
            },
        },
{
    match event {
        DrawEvent::Begin => if drawing {
            Err(DrawError::AlreadyBegun)
        } else {
            Ok(true)
        },
        DrawEvent::Finish => if drawing {
            Ok(false)
        } else {
            Err(DrawError::AlreadyEnded)
        },
    }
}

/// The instances of each entity pair its transforms with its geometries
/// transform by transform: after the instances of the entities before it,
/// the instance for its `t`-th transform and `g`-th geometry comes at
/// `t · (number of its geometries) + g` and refers to the transform and
/// geometry stored at those positions after the ones before.
pub proof fn lemma_instance_position(groups: Seq<(usize, usize)>, t: nat, g: nat)
    requires
        groups.len() > 0,
        t < groups.last().0,
        g < groups.last().1,
    ensures
        ({
            let rest = groups.drop_last();
            let k = index_pairs(rest).len() + t * groups.last().1 + g;
            &&& k < index_pairs(groups).len()
            &&& index_pairs(groups)[k as int] == (total_transforms(rest) + t, total_geometries(
                rest,
            ) + g)
        }),
{
    let rest = groups.drop_last();
    let tl = groups.last().0 as nat;
    let gl = groups.last().1 as nat;
    lemma_group_pair_at(total_transforms(rest), total_geometries(rest), tl, gl, t, g);
    lemma_index_pairs_cover(groups);
    lemma_index_pairs_cover(rest);
    let group = group_pairs(total_transforms(rest), total_geometries(rest), tl, gl);
    assert(index_pairs(groups) == index_pairs(rest) + group);
}

} // verus!
