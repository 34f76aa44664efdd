use vstd::prelude::*;

use rayon::iter::{IndexedParallelIterator, IntoParallelRefIterator, ParallelIterator};

use crate::backend::Backend;
use crate::resource::material::MaterialTemplateId;
use crate::world::entity::Entity;
use crate::world::scene::{GroupView, MaterialEntityGroup, Scene};

verus! {

/// Groups with more entities than this are recorded in parallel, split into
/// about this many chunks.
pub const PARALLEL_CHUNKS: usize = 12;

/// One entity's draw inside a secondary command buffer: bind the entity's
/// material set, its vertex buffer and its transform set, then draw
/// `vertex_count` vertices.
#[derive(Debug, Clone, Copy, PartialEq, Eq, Structural)]
pub struct EntityDraw {
    /// Position of the entity in its material group.
    pub entity: usize,
    pub vertex_count: u32,
}

/// The contents of one secondary command buffer of the forward subpass: bind
/// the template's pipeline and the shared scene set once, then the draws.
pub struct GroupRecording {
    /// Position of the material group in the scene.
    pub group: usize,
    pub template: MaterialTemplateId,
    pub draws: Vec<EntityDraw>,
}

/// A recording as seen by specifications.
pub type RecordingView = (usize, MaterialTemplateId, Seq<EntityDraw>);

impl View for GroupRecording {
    type V = RecordingView;

    open spec fn view(&self) -> RecordingView {
        (self.group, self.template, self.draws@)
    }
}

/// How many vertices one draw of a drawable entity covers.
pub open spec fn entity_vertex_count<G: Backend>(e: Entity<G>) -> u32 {
    e.spec_mesh().spec_model().spec_vertex_count()
}

/// The draws of entities `start..end` of a group, in order.
pub open spec fn draws_of<G: Backend>(entities: Seq<Entity<G>>, start: int, end: int) -> Seq<
    EntityDraw,
> {
    Seq::new(
        (end - start) as nat,
        |k: int| EntityDraw { entity: (start + k) as usize, vertex_count: entity_vertex_count(entities[start + k]) },
    )
}

/// The recording of entities `start..end` of group `index`.
pub open spec fn part_of<G: Backend>(index: int, group: GroupView<G>, range: (usize, usize)) -> RecordingView {
    (index as usize, group.0, draws_of(group.1, range.0 as int, range.1 as int))
}

/// Consecutive ranges of `size` entities from `start` up to `n`, the last
/// one cut at `n`.
pub open spec fn chunks_from(start: int, n: int, size: int) -> Seq<(usize, usize)>
    decreases n - start,
{
    if start >= n || size <= 0 {
        Seq::empty()
    } else if start + size >= n {
        seq![(start as usize, n as usize)]
    } else {
        seq![(start as usize, (start + size) as usize)] + chunks_from(start + size, n, size)
    }
}

/// The ranges a group of `n` entities is recorded in: one range when
/// `n <= PARALLEL_CHUNKS`, otherwise consecutive ranges of
/// `n / PARALLEL_CHUNKS` entities, the last one possibly shorter.
pub open spec fn spec_chunks(n: int) -> Seq<(usize, usize)> {
    if n <= PARALLEL_CHUNKS {
        seq![(0usize, n as usize)]
    } else {
        chunks_from(0, n, n / PARALLEL_CHUNKS as int)
    }
}

/// Splits a group of `n` entities into the ranges that are recorded as
/// separate secondary command buffers.
pub fn chunk_ranges(n: usize) -> (r: Vec<(usize, usize)>)
    ensures
        r@ == spec_chunks(n as int),
{
    let mut r: Vec<(usize, usize)> = Vec::new();
    if n <= PARALLEL_CHUNKS {
        r.push((0, n));
        assert(r@ =~= spec_chunks(n as int));
        return r;
    }
    let size: usize = n / PARALLEL_CHUNKS;
    let mut start: usize = 0;
    while start < n
        invariant
            0 < size <= n,
            size as int == n as int / PARALLEL_CHUNKS as int,
            n > PARALLEL_CHUNKS,
            start <= n,
            r@ + chunks_from(start as int, n as int, size as int) == spec_chunks(n as int),
        decreases n - start,
    {
        let end: usize = if n - start > size { start + size } else { n };
        let ghost before = r@;
        r.push((start, end));
        assert(r@ + chunks_from(end as int, n as int, size as int) =~= spec_chunks(n as int)) by {
            if end < n {
                assert(chunks_from(start as int, n as int, size as int) == seq![(start, end)]
                    + chunks_from(end as int, n as int, size as int));
                assert(r@ + chunks_from(end as int, n as int, size as int) =~= before + (seq![(start, end)]
                    + chunks_from(end as int, n as int, size as int)));
            } else {
                assert(chunks_from(start as int, n as int, size as int) == seq![(start, end)]);
                assert(chunks_from(end as int, n as int, size as int) =~= Seq::<(usize, usize)>::empty());
            }
        }
        start = end;
    }
    assert(chunks_from(start as int, n as int, size as int) =~= Seq::<(usize, usize)>::empty());
    assert(r@ =~= r@ + Seq::<(usize, usize)>::empty());
    r
}

/// Records the draws of entities `start..end` of the group at `index`.
pub fn record_command_buffer_part<G: Backend>(
    index: usize,
    group: &MaterialEntityGroup<G>,
    start: usize,
    end: usize,
) -> (r: GroupRecording)
    requires
        start <= end <= group@.1.len(),
        forall|j: int| start <= j < end ==> (#[trigger] group@.1[j]).is_drawable(),
    ensures
        r@ == part_of(index as int, group@, (start, end)),
{
    let entities = group.entities();
    let mut draws: Vec<EntityDraw> = Vec::new();
    let mut j: usize = start;
    while j < end
        invariant
            start <= j <= end <= entities@.len(),
            entities@ == group@.1,
            forall|i: int| start <= i < end ==> (#[trigger] entities@[i]).is_drawable(),
            draws@ =~= draws_of(entities@, start as int, j as int),
        decreases end - j,
    {
        if let Some(mesh) = entities[j].mesh() {
            draws.push(EntityDraw { entity: j, vertex_count: mesh.vertex_count() });
        }
        j = j + 1;
    }
    GroupRecording { group: index, template: group.material_template_id(), draws }
}

/// The draws of the ranges `ranges` of a group, one range after the other.
pub open spec fn chunk_draws<G: Backend>(entities: Seq<Entity<G>>, ranges: Seq<(usize, usize)>) -> Seq<
    EntityDraw,
>
    decreases ranges.len(),
{
    if ranges.len() == 0 {
        Seq::empty()
    } else {
        draws_of(entities, ranges[0].0 as int, ranges[0].1 as int) + chunk_draws(
            entities,
            ranges.drop_first(),
        )
    }
}

proof fn lemma_draws_split<G: Backend>(entities: Seq<Entity<G>>, a: int, b: int, c: int)
    requires
        0 <= a <= b <= c,
    ensures
        draws_of(entities, a, c) == draws_of(entities, a, b) + draws_of(entities, b, c),
{
    assert(draws_of(entities, a, c) =~= draws_of(entities, a, b) + draws_of(entities, b, c));
}

proof fn lemma_chunks_from_draws<G: Backend>(entities: Seq<Entity<G>>, start: int, n: int, size: int)
    requires
        0 <= start <= n,
        size > 0,
        n <= usize::MAX,
    ensures
        chunk_draws(entities, chunks_from(start, n, size)) == draws_of(entities, start, n),
    decreases n - start,
{
    let ranges = chunks_from(start, n, size);
    if start >= n {
        assert(draws_of(entities, start, n) =~= Seq::<EntityDraw>::empty());
    } else if start + size >= n {
        assert(ranges.drop_first() =~= Seq::<(usize, usize)>::empty());
        assert(chunk_draws(entities, ranges.drop_first()) =~= Seq::<EntityDraw>::empty());
        assert(chunk_draws(entities, ranges) =~= draws_of(entities, start, n));
    } else {
        let rest = chunks_from(start + size, n, size);
        assert(ranges.drop_first() =~= rest);
        lemma_chunks_from_draws(entities, start + size, n, size);
        lemma_draws_split(entities, start, start + size, n);
    }
}

/// Chunked recording partitions a group: the draws of all its chunks, taken
/// in chunk order, are exactly one draw per entity of the group, in order,
/// so no entity is dropped or drawn twice.
pub proof fn lemma_chunks_partition_group<G: Backend>(entities: Seq<Entity<G>>)
    requires
        entities.len() <= usize::MAX,
    ensures
        chunk_draws(entities, spec_chunks(entities.len() as int)) == draws_of(
            entities,
            0,
            entities.len() as int,
        ),
        draws_of(entities, 0, entities.len() as int).len() == entities.len(),
        forall|k: int|
            0 <= k < entities.len() ==> (#[trigger] draws_of(entities, 0, entities.len() as int)[k]).entity
                == k,
{
    let n = entities.len() as int;
    if n <= PARALLEL_CHUNKS {
        let ranges = spec_chunks(n);
        assert(ranges.drop_first() =~= Seq::<(usize, usize)>::empty());
        assert(chunk_draws(entities, ranges.drop_first()) =~= Seq::<EntityDraw>::empty());
        assert(chunk_draws(entities, ranges) =~= draws_of(entities, 0, n));
    } else {
        lemma_chunks_from_draws(entities, 0, n, n / PARALLEL_CHUNKS as int);
    }
}

/// The recordings of the group at `index`: one per chunk, in chunk order.
pub open spec fn group_recordings<G: Backend>(index: int, group: GroupView<G>) -> Seq<RecordingView> {
    spec_chunks(group.1.len() as int).map_values(|range: (usize, usize)| part_of(index, group, range))
}

/// The recordings of the forward subpass for `groups`: group by group, each
/// group chunk by chunk.
pub open spec fn scene_recordings<G: Backend>(groups: Seq<GroupView<G>>) -> Seq<RecordingView>
    decreases groups.len(),
{
    if groups.len() == 0 {
        Seq::empty()
    } else {
        scene_recordings(groups.drop_last()) + group_recordings(
            groups.len() - 1,
            groups.last(),
        )
    }
}

/// Relies on rayon: `par_iter` over a `Vec` is an indexed parallel iterator,
/// and `collect_into_vec` stores the result for each input at the input's
/// position, so there is one recording per range, in the order of `ranges`.
#[verifier::external_body]
fn record_parts_parallel<G: Backend>(
    index: usize,
    group: &MaterialEntityGroup<G>,
    ranges: &Vec<(usize, usize)>,
) -> (r: Vec<GroupRecording>)
    requires
        forall|k: int|
            0 <= k < ranges@.len() ==> (#[trigger] ranges@[k]).0 <= ranges@[k].1 <= group@.1.len(),
        forall|j: int| 0 <= j < group@.1.len() ==> (#[trigger] group@.1[j]).is_drawable(),
    ensures
        r@.len() == ranges@.len(),
        forall|k: int|
            0 <= k < ranges@.len() ==> (#[trigger] r@[k])@ == part_of(index as int, group@, ranges@[k]),
{
    let mut out = Vec::new();
    ranges
        .par_iter()
        .map(|&(start, end)| record_command_buffer_part(index, group, start, end))
        .collect_into_vec(&mut out);
    out
}

proof fn lemma_chunks_in_bounds(n: int)
    requires
        0 <= n <= usize::MAX,
    ensures
        forall|k: int|
            0 <= k < spec_chunks(n).len() ==> (#[trigger] spec_chunks(n)[k]).0 <= spec_chunks(n)[k].1 <= n,
{
    if n > PARALLEL_CHUNKS {
        lemma_chunks_from_bounds(0, n, n / PARALLEL_CHUNKS as int);
    }
}

proof fn lemma_chunks_from_bounds(start: int, n: int, size: int)
    requires
        0 <= start,
        n <= usize::MAX,
        size > 0,
    ensures
        forall|k: int|
            0 <= k < chunks_from(start, n, size).len() ==> start <= (#[trigger] chunks_from(start, n, size)[k]).0
                <= chunks_from(start, n, size)[k].1 <= n,
    decreases n - start,
{
    if start < n && start + size < n {
        lemma_chunks_from_bounds(start + size, n, size);
        let ranges = chunks_from(start, n, size);
        let rest = chunks_from(start + size, n, size);
        assert forall|k: int| 0 <= k < ranges.len() implies start <= (#[trigger] ranges[k]).0 <= ranges[k].1
            <= n by {
            if k > 0 {
                assert(ranges[k] == rest[k - 1]);
            }
        }
    }
}

/// Records the secondary command buffers of the forward subpass for every
/// material group of `scene`, in group order. A group with more than
/// `PARALLEL_CHUNKS` entities is split by [`chunk_ranges`] and its chunks are
/// recorded in parallel; a smaller group is recorded as one buffer.
pub fn record_secondary_buffers<G: Backend>(scene: &Scene<G>) -> (r: Vec<GroupRecording>)
    requires
        scene.wf(),
    ensures
        r@.map_values(|c: GroupRecording| c@) == scene_recordings(scene.groups()),
{
    let groups = scene.groups_vec();
    let ghost views = scene.groups();
    let mut cbs: Vec<GroupRecording> = Vec::new();
    let mut i: usize = 0;
    while i < groups.len()
        invariant
            i <= groups@.len(),
            views == scene.groups(),
            groups@.map_values(|g: MaterialEntityGroup<G>| g@) == views,
            scene.wf(),
            cbs@.map_values(|c: GroupRecording| c@) == scene_recordings(views.subrange(0, i as int)),
        decreases groups@.len() - i,
    {
        let group = &groups[i];
        assert(group@ == views[i as int]);
        let n = group.len();
        let ranges = chunk_ranges(n);
        proof {
            lemma_chunks_in_bounds(n as int);
        }
        let ghost before = cbs@;
        let ghost expected = group_recordings(i as int, group@);
        if n > PARALLEL_CHUNKS {
            let mut parts = record_parts_parallel(i, group, &ranges);
            let ghost parts_view = parts@;
            cbs.append(&mut parts);
            assert(cbs@ =~= before + parts_view);
            assert(parts_view.map_values(|c: GroupRecording| c@) =~= expected);
        } else {
            let part = record_command_buffer_part(i, group, 0, n);
            cbs.push(part);
            assert(seq![part].map_values(|c: GroupRecording| c@) =~= expected);
            assert(cbs@ =~= before + seq![part]);
        }
        assert(views.subrange(0, i + 1).drop_last() =~= views.subrange(0, i as int));
        assert(cbs@.map_values(|c: GroupRecording| c@) =~= scene_recordings(views.subrange(0, i as int))
            + expected);
        i = i + 1;
    }
    assert(views.subrange(0, i as int) =~= views);
    cbs
}

} // verus!
