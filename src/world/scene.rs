use vstd::prelude::*;
use vstd::multiset::Multiset;

use crate::backend::Backend;
use crate::resource::material::MaterialTemplateId;
use crate::error::Error;
use crate::world::entity::Entity;

verus! {

/// A material group as seen by specifications: its template identity and
/// its entities in insertion order.
pub type GroupView<G> = (MaterialTemplateId, Seq<Entity<G>>);

/// Drawable entities that share one material template, so that they can be
/// drawn one after the other with a single pipeline bind.
pub struct MaterialEntityGroup<G: Backend> {
    material_template_id: MaterialTemplateId,
    entities: Vec<Entity<G>>,
}

impl<G: Backend> View for MaterialEntityGroup<G> {
    type V = GroupView<G>;

    closed spec fn view(&self) -> GroupView<G> {
        (self.material_template_id, self.entities@)
    }
}

impl<G: Backend> MaterialEntityGroup<G> {
    pub fn material_template_id(&self) -> (r: MaterialTemplateId)
        ensures
            r == self@.0,
    {
        self.material_template_id
    }

    /// The group's entities, in the order they were added.
    pub fn entities(&self) -> (r: &Vec<Entity<G>>)
        ensures
            r@ == self@.1,
    {
        &self.entities
    }

    pub fn len(&self) -> (r: usize)
        ensures
            r == self@.1.len(),
    {
        self.entities.len()
    }
}

/// Whether some group is keyed by `key`.
pub open spec fn has_group<G: Backend>(groups: Seq<GroupView<G>>, key: MaterialTemplateId) -> bool {
    exists|i: int| 0 <= i < groups.len() && #[trigger] groups[i].0 == key
}

/// The groups after a drawable entity `e` was added: appended to the group of
/// its template, or to a new group at the end when there is none yet.
pub open spec fn groups_after_add<G: Backend>(groups: Seq<GroupView<G>>, e: Entity<G>) -> Seq<
    GroupView<G>,
> {
    let key = e.template_key();
    if has_group(groups, key) {
        let i = choose|i: int| 0 <= i < groups.len() && #[trigger] groups[i].0 == key;
        groups.update(i, (key, groups[i].1.push(e)))
    } else {
        groups.push((key, seq![e]))
    }
}

/// The groups after the drawable entities `es` were added in order.
pub open spec fn groups_after_all<G: Backend>(groups: Seq<GroupView<G>>, es: Seq<Entity<G>>) -> Seq<
    GroupView<G>,
>
    decreases es.len(),
{
    if es.len() == 0 {
        groups
    } else {
        groups_after_add(groups_after_all(groups, es.drop_last()), es.last())
    }
}

/// The grouping invariant: one group per template identity, no empty group,
/// and every entity of a group is drawable with that group's template.
pub open spec fn groups_wf<G: Backend>(groups: Seq<GroupView<G>>) -> bool {
    &&& forall|i: int, j: int|
        0 <= i < j < groups.len() ==> #[trigger] groups[i].0 != #[trigger] groups[j].0
    &&& forall|i: int| 0 <= i < groups.len() ==> #[trigger] groups[i].1.len() > 0
    &&& forall|i: int, j: int|
        0 <= i < groups.len() && 0 <= j < groups[i].1.len() ==> (#[trigger] groups[i].1[j]).is_drawable()
            && groups[i].1[j].template_key() == groups[i].0
}

/// The template identities that have a group.
pub open spec fn group_keys<G: Backend>(groups: Seq<GroupView<G>>) -> Set<MaterialTemplateId> {
    Set::new(|key: MaterialTemplateId| has_group(groups, key))
}

/// The template identities used by the drawable entities `es`.
pub open spec fn templates_used<G: Backend>(es: Seq<Entity<G>>) -> Set<MaterialTemplateId> {
    es.map_values(|e: Entity<G>| e.template_key()).to_set()
}

/// Adding a drawable entity keeps the grouping invariant and opens a group
/// only for a template that had none.
pub proof fn lemma_add_keeps_grouping<G: Backend>(groups: Seq<GroupView<G>>, e: Entity<G>)
    requires
        groups_wf(groups),
        e.is_drawable(),
    ensures
        groups_wf(groups_after_add(groups, e)),
        group_keys(groups_after_add(groups, e)) == group_keys(groups).insert(e.template_key()),
{
    let key = e.template_key();
    let after = groups_after_add(groups, e);
    if has_group(groups, key) {
        let i = choose|i: int| 0 <= i < groups.len() && #[trigger] groups[i].0 == key;
        assert forall|a: int, b: int| 0 <= a < after.len() && 0 <= b < after[a].1.len() implies (
        #[trigger] after[a].1[b]).is_drawable() && after[a].1[b].template_key() == after[a].0 by {
            if a == i && b == groups[i].1.len() {
            } else {
                assert(after[a].1[b] == groups[a].1[b]);
            }
        }
        assert(forall|a: int| 0 <= a < after.len() ==> #[trigger] after[a].0 == groups[a].0);
        assert forall|x: MaterialTemplateId| #[trigger] group_keys(after).contains(x) <==> group_keys(
            groups,
        ).insert(key).contains(x) by {
            if has_group(after, x) {
                let j = choose|j: int| 0 <= j < after.len() && #[trigger] after[j].0 == x;
                assert(groups[j].0 == x);
            }
            if has_group(groups, x) {
                let j = choose|j: int| 0 <= j < groups.len() && #[trigger] groups[j].0 == x;
                assert(after[j].0 == x);
            }
        }
        assert(group_keys(after) =~= group_keys(groups).insert(key));
    } else {
        assert(forall|a: int| 0 <= a < groups.len() ==> #[trigger] after[a] == groups[a]);
        assert(after[groups.len() as int].0 == key);
        assert forall|a: int, b: int| 0 <= a < after.len() && 0 <= b < after[a].1.len() implies (
        #[trigger] after[a].1[b]).is_drawable() && after[a].1[b].template_key() == after[a].0 by {
            if a == groups.len() {
                assert(after[a].1 =~= seq![e]);
            }
        }
        assert forall|x: MaterialTemplateId| #[trigger] group_keys(after).contains(x) <==> group_keys(
            groups,
        ).insert(key).contains(x) by {
            if has_group(after, x) && x != key {
                let j = choose|j: int| 0 <= j < after.len() && #[trigger] after[j].0 == x;
                assert(groups[j].0 == x);
            }
            if has_group(groups, x) {
                let j = choose|j: int| 0 <= j < groups.len() && #[trigger] groups[j].0 == x;
                assert(after[j].0 == x);
            }
            if x == key {
                assert(after[groups.len() as int].0 == x);
            }
        }
        assert(group_keys(after) =~= group_keys(groups).insert(key));
    }
}

/// A drawable entity added to well-formed groups ends up in exactly one
/// group, and that group is keyed by the entity's own material template.
pub proof fn lemma_added_entity_in_one_group<G: Backend>(groups: Seq<GroupView<G>>, e: Entity<G>)
    requires
        groups_wf(groups),
        e.is_drawable(),
    ensures
        ({
            let after = groups_after_add(groups, e);
            &&& exists|i: int| 0 <= i < after.len() && (#[trigger] after[i].1).contains(e)
            &&& forall|i: int|
                0 <= i < after.len() && (#[trigger] after[i].1).contains(e) ==> after[i].0
                    == e.template_key()
            &&& forall|i: int, j: int|
                0 <= i < after.len() && 0 <= j < after.len() && (#[trigger] after[i].1).contains(e)
                    && (#[trigger] after[j].1).contains(e) ==> i == j
        }),
{
    let key = e.template_key();
    let after = groups_after_add(groups, e);
    lemma_add_keeps_grouping(groups, e);
    let i = if has_group(groups, key) {
        choose|i: int| 0 <= i < groups.len() && #[trigger] groups[i].0 == key
    } else {
        groups.len() as int
    };
    assert(after[i].1.last() == e);
    assert(after[i].1.contains(e));
    assert forall|a: int| 0 <= a < after.len() && (#[trigger] after[a].1).contains(e) implies after[a].0
        == key by {
        let b = choose|b: int| 0 <= b < after[a].1.len() && after[a].1[b] == e;
        assert(after[a].1[b].template_key() == after[a].0);
    }
}

/// Grouping depends only on which templates are used: for every order in
/// which drawable entities are added to an empty scene, there is one group
/// per distinct material template among them.
pub proof fn lemma_group_count_is_templates_used<G: Backend>(es: Seq<Entity<G>>)
    requires
        forall|j: int| 0 <= j < es.len() ==> (#[trigger] es[j]).is_drawable(),
    ensures
        groups_wf(groups_after_all(Seq::<GroupView<G>>::empty(), es)),
        group_keys(groups_after_all(Seq::<GroupView<G>>::empty(), es)) == templates_used(es),
        groups_after_all(Seq::<GroupView<G>>::empty(), es).len() == templates_used(es).len(),
    decreases es.len(),
{
    let empty = Seq::<GroupView<G>>::empty();
    let groups = groups_after_all(empty, es);
    if es.len() == 0 {
        assert(group_keys(empty) =~= Set::<MaterialTemplateId>::empty());
        assert(templates_used(es) =~= Set::<MaterialTemplateId>::empty());
    } else {
        let prefix = es.drop_last();
        assert forall|j: int| 0 <= j < prefix.len() implies (#[trigger] prefix[j]).is_drawable() by {
            assert(prefix[j] == es[j]);
        }
        lemma_group_count_is_templates_used(prefix);
        lemma_add_keeps_grouping(groups_after_all(empty, prefix), es.last());
        let f = |e: Entity<G>| e.template_key();
        assert(es.map_values(f) =~= prefix.map_values(f).push(es.last().template_key()));
        assert(es.map_values(f).to_set() =~= prefix.map_values(f).to_set().insert(
            es.last().template_key(),
        )) by {
            assert(es.map_values(f).to_set() =~= prefix.map_values(f).push(
                es.last().template_key(),
            ).to_set());
            prefix.map_values(f).lemma_push_to_set_commute(es.last().template_key());
        }
    }
    lemma_group_count_is_key_count(groups);
}

/// Under the grouping invariant the groups and their template identities
/// are in one-to-one correspondence.
pub proof fn lemma_group_count_is_key_count<G: Backend>(groups: Seq<GroupView<G>>)
    requires
        groups_wf(groups),
    ensures
        groups.len() == group_keys(groups).len(),
{
    let keys = groups.map_values(|g: GroupView<G>| g.0);
    assert(keys.no_duplicates()) by {
        assert forall|i: int, j: int| 0 <= i < keys.len() && 0 <= j < keys.len() && i != j implies keys[i]
            != keys[j] by {
            if i < j {
                assert(groups[i].0 != groups[j].0);
            } else {
                assert(groups[j].0 != groups[i].0);
            }
        }
    }
    keys.unique_seq_to_set();
    assert forall|x: MaterialTemplateId| #[trigger] keys.to_set().contains(x) <==> group_keys(
        groups,
    ).contains(x) by {
        if has_group(groups, x) {
            let j = choose|j: int| 0 <= j < groups.len() && #[trigger] groups[j].0 == x;
            assert(keys[j] == x);
        }
        if keys.contains(x) {
            let j = choose|j: int| 0 <= j < keys.len() && keys[j] == x;
            assert(groups[j].0 == x);
        }
    }
    assert(keys.to_set() =~= group_keys(groups));
}

/// Every grouped entity, group after group.
pub open spec fn grouped<G: Backend>(groups: Seq<GroupView<G>>) -> Multiset<Entity<G>>
    decreases groups.len(),
{
    if groups.len() == 0 {
        Multiset::empty()
    } else {
        grouped(groups.drop_last()).add(groups.last().1.to_multiset())
    }
}

proof fn lemma_grouped_append<G: Backend>(groups: Seq<GroupView<G>>, i: int, e: Entity<G>)
    requires
        0 <= i < groups.len(),
    ensures
        grouped(groups.update(i, (groups[i].0, groups[i].1.push(e)))) == grouped(groups).insert(e),
    decreases groups.len(),
{
    broadcast use vstd::seq_lib::group_to_multiset_ensures, vstd::multiset::group_multiset_axioms;

    let after = groups.update(i, (groups[i].0, groups[i].1.push(e)));
    if i == groups.len() - 1 {
        assert(after.drop_last() =~= groups.drop_last());
        assert(grouped(after) =~= grouped(groups).insert(e));
    } else {
        assert(after.drop_last() =~= groups.drop_last().update(
            i,
            (groups.drop_last()[i].0, groups.drop_last()[i].1.push(e)),
        ));
        lemma_grouped_append(groups.drop_last(), i, e);
        assert(grouped(after) =~= grouped(groups).insert(e));
    }
}

/// Adding a drawable entity puts exactly one more occurrence of it among the
/// grouped entities and changes nothing else there; it is never among the
/// waiting entities, which are not drawable.
pub proof fn lemma_add_counts_entity_once<G: Backend>(
    groups: Seq<GroupView<G>>,
    loading: Seq<Entity<G>>,
    e: Entity<G>,
)
    requires
        groups_wf(groups),
        forall|j: int| 0 <= j < loading.len() ==> !(#[trigger] loading[j]).is_drawable(),
        e.is_drawable(),
    ensures
        grouped(groups_after_add(groups, e)) == grouped(groups).insert(e),
        grouped(groups_after_add(groups, e)).count(e) == grouped(groups).count(e) + 1,
        grouped(groups_after_add(groups, e)).len() == grouped(groups).len() + 1,
        !loading.contains(e),
{
    broadcast use vstd::seq_lib::group_to_multiset_ensures, vstd::multiset::group_multiset_axioms;

    let key = e.template_key();
    if has_group(groups, key) {
        let i = choose|i: int| 0 <= i < groups.len() && #[trigger] groups[i].0 == key;
        lemma_grouped_append(groups, i, e);
    } else {
        let after = groups.push((key, seq![e]));
        assert(after.drop_last() =~= groups);
        assert(seq![e] =~= Seq::<Entity<G>>::empty().push(e));
        assert(grouped(after) =~= grouped(groups).insert(e));
    }
}

/// The entities of `es` grouped under template `key`.
pub open spec fn members_with_key<G: Backend>(es: Seq<Entity<G>>, key: MaterialTemplateId) -> Multiset<
    Entity<G>,
>
    decreases es.len(),
{
    if es.len() == 0 {
        Multiset::empty()
    } else if es.last().template_key() == key {
        members_with_key(es.drop_last(), key).insert(es.last())
    } else {
        members_with_key(es.drop_last(), key)
    }
}

proof fn lemma_members_count<G: Backend>(es: Seq<Entity<G>>, key: MaterialTemplateId, v: Entity<G>)
    ensures
        members_with_key(es, key).count(v) == if v.template_key() == key {
            es.to_multiset().count(v)
        } else {
            0
        },
    decreases es.len(),
{
    broadcast use vstd::seq_lib::group_to_multiset_ensures, vstd::multiset::group_multiset_axioms;

    if es.len() > 0 {
        lemma_members_count(es.drop_last(), key, v);
        assert(es =~= es.drop_last().push(es.last()));
    }
}

proof fn lemma_members_unused<G: Backend>(es: Seq<Entity<G>>, key: MaterialTemplateId)
    requires
        !templates_used(es).contains(key),
    ensures
        members_with_key(es, key) == Multiset::<Entity<G>>::empty(),
    decreases es.len(),
{
    if es.len() > 0 {
        let f = |e: Entity<G>| e.template_key();
        assert(es.map_values(f)[es.len() - 1] == es.last().template_key());
        assert(es.last().template_key() != key);
        assert forall|k: MaterialTemplateId| templates_used(es.drop_last()).contains(k) implies templates_used(
            es,
        ).contains(k) by {
            let j = choose|j: int| 0 <= j < es.drop_last().map_values(f).len() && es.drop_last().map_values(f)[j] == k;
            assert(es.map_values(f)[j] == k);
        }
        lemma_members_unused(es.drop_last(), key);
    }
}

/// After the drawable entities `es` were added in order to an empty scene,
/// each group holds exactly the entities of `es` with its template.
pub proof fn lemma_group_members<G: Backend>(es: Seq<Entity<G>>)
    requires
        forall|j: int| 0 <= j < es.len() ==> (#[trigger] es[j]).is_drawable(),
    ensures
        forall|i: int|
            0 <= i < groups_after_all(Seq::<GroupView<G>>::empty(), es).len() ==> (#[trigger] groups_after_all(
                Seq::<GroupView<G>>::empty(),
                es,
            )[i]).1.to_multiset() == members_with_key(es, groups_after_all(Seq::<GroupView<G>>::empty(), es)[i].0),
    decreases es.len(),
{
    broadcast use vstd::seq_lib::group_to_multiset_ensures, vstd::multiset::group_multiset_axioms;

    if es.len() > 0 {
        let empty = Seq::<GroupView<G>>::empty();
        let prefix = es.drop_last();
        let e = es.last();
        assert forall|j: int| 0 <= j < prefix.len() implies (#[trigger] prefix[j]).is_drawable() by {
            assert(prefix[j] == es[j]);
        }
        lemma_group_members(prefix);
        lemma_group_count_is_templates_used(prefix);
        let before = groups_after_all(empty, prefix);
        let after = groups_after_all(empty, es);
        let key = e.template_key();
        assert(after == groups_after_add(before, e));
        if has_group(before, key) {
            let c = choose|c: int| 0 <= c < before.len() && #[trigger] before[c].0 == key;
            assert forall|i: int| 0 <= i < after.len() implies (#[trigger] after[i]).1.to_multiset()
                == members_with_key(es, after[i].0) by {
                if i != c {
                    assert(before[i].0 != key);
                }
            }
        } else {
            assert(!group_keys(before).contains(key));
            lemma_members_unused(prefix, key);
            assert forall|i: int| 0 <= i < after.len() implies (#[trigger] after[i]).1.to_multiset()
                == members_with_key(es, after[i].0) by {
                if i == before.len() {
                    assert(after[i].1 =~= Seq::<Entity<G>>::empty().push(e));
                    assert(after[i].1.to_multiset() =~= members_with_key(es, key));
                } else {
                    assert(before[i].0 != key);
                }
            }
        }
    }
}

/// Grouping does not depend on the order of adding: two orders of the same
/// drawable entities give groups for the same templates, equally many, and
/// the groups of one template hold the same entities.
pub proof fn lemma_grouping_is_order_independent<G: Backend>(es1: Seq<Entity<G>>, es2: Seq<Entity<G>>)
    requires
        forall|j: int| 0 <= j < es1.len() ==> (#[trigger] es1[j]).is_drawable(),
        forall|j: int| 0 <= j < es2.len() ==> (#[trigger] es2[j]).is_drawable(),
        es1.to_multiset() == es2.to_multiset(),
    ensures
        ({
            let g1 = groups_after_all(Seq::<GroupView<G>>::empty(), es1);
            let g2 = groups_after_all(Seq::<GroupView<G>>::empty(), es2);
            &&& group_keys(g1) == group_keys(g2)
            &&& g1.len() == g2.len()
            &&& forall|i: int, j: int|
                0 <= i < g1.len() && 0 <= j < g2.len() && #[trigger] g1[i].0 == #[trigger] g2[j].0
                    ==> g1[i].1.to_multiset() == g2[j].1.to_multiset()
        }),
{
    broadcast use vstd::multiset::group_multiset_axioms, vstd::seq_lib::group_to_multiset_ensures;

    let g1 = groups_after_all(Seq::<GroupView<G>>::empty(), es1);
    let g2 = groups_after_all(Seq::<GroupView<G>>::empty(), es2);
    lemma_group_members(es1);
    lemma_group_members(es2);
    lemma_group_count_is_templates_used(es1);
    lemma_group_count_is_templates_used(es2);
    assert forall|k: MaterialTemplateId| members_with_key(es1, k) == members_with_key(es2, k) by {
        assert forall|v: Entity<G>| members_with_key(es1, k).count(v) == members_with_key(es2, k).count(v) by {
            lemma_members_count(es1, k, v);
            lemma_members_count(es2, k, v);
        }
        assert(members_with_key(es1, k) =~= members_with_key(es2, k));
    }
    assert forall|k: MaterialTemplateId| group_keys(g1).contains(k) implies group_keys(g2).contains(k) by {
        let i = choose|i: int| 0 <= i < g1.len() && #[trigger] g1[i].0 == k;
        assert(g1[i].1.len() > 0);
        assert(g1[i].1.to_multiset().len() > 0);
        if !group_keys(g2).contains(k) {
            lemma_members_unused(es2, k);
        }
    }
    assert forall|k: MaterialTemplateId| group_keys(g2).contains(k) implies group_keys(g1).contains(k) by {
        let i = choose|i: int| 0 <= i < g2.len() && #[trigger] g2[i].0 == k;
        assert(g2[i].1.len() > 0);
        assert(g2[i].1.to_multiset().len() > 0);
        if !group_keys(g1).contains(k) {
            lemma_members_unused(es1, k);
        }
    }
    assert(group_keys(g1) =~= group_keys(g2));
}

/// What uploading one deferred entity's mesh produced: the vertex buffer,
/// its vertex count and the per-object resources.
pub struct Upload<G: Backend> {
    pub buffer: G::VertexBuffer,
    pub vertex_count: u32,
    pub resources: G::ObjectResources,
}

/// The drawable entity that `e` becomes with `upload`.
pub open spec fn ready<G: Backend>(e: Entity<G>, upload: Upload<G>) -> Entity<G> {
    e.spec_instantiated(upload.buffer, upload.vertex_count, upload.resources)
}

/// The entities `loading[lo..]` made drawable with the matching uploads, in
/// the order they leave the loading list: last one first.
pub open spec fn ready_from<G: Backend>(loading: Seq<Entity<G>>, uploads: Seq<Upload<G>>, lo: int) -> Seq<
    Entity<G>,
> {
    Seq::new(
        (loading.len() - lo) as nat,
        |k: int| ready(loading[loading.len() - 1 - k], uploads[loading.len() - 1 - k]),
    )
}

/// The position of the last of the first `n` waiting entities whose model
/// is already resident; -1 when there is none.
pub open spec fn last_resident<G: Backend>(loading: Seq<Entity<G>>, n: int) -> int
    decreases n,
{
    if n <= 0 {
        -1
    } else if loading[n - 1].pending_model().is_resident() {
        n - 1
    } else {
        last_resident(loading, n - 1)
    }
}

proof fn lemma_last_resident<G: Backend>(loading: Seq<Entity<G>>, n: int)
    requires
        0 <= n <= loading.len(),
    ensures
        -1 <= last_resident(loading, n) < n,
        last_resident(loading, n) >= 0 ==> loading[last_resident(loading, n)].pending_model().is_resident(),
        forall|j: int| last_resident(loading, n) < j < n ==> !(#[trigger] loading[j]).pending_model().is_resident(),
    decreases n,
{
    if n > 0 && !loading[n - 1].pending_model().is_resident() {
        lemma_last_resident(loading, n - 1);
    }
}

/// Entities of a render world, indexed by material template for batched
/// drawing, and the entities still waiting for their mesh.
pub struct Scene<G: Backend> {
    data: Vec<MaterialEntityGroup<G>>,
    loading_list: Vec<Entity<G>>,
}

impl<G: Backend> Scene<G> {
    /// The material groups, in the order they were created.
    pub closed spec fn groups(&self) -> Seq<GroupView<G>> {
        self.data@.map_values(|g: MaterialEntityGroup<G>| g@)
    }

    /// The entities waiting for their mesh, oldest first.
    pub closed spec fn loading(&self) -> Seq<Entity<G>> {
        self.loading_list@
    }

    /// The position of the last waiting entity whose model is resident
    /// already; -1 when there is none.
    pub open spec fn loading_stop(&self) -> int {
        last_resident(self.loading(), self.loading().len() as int)
    }

    /// Every grouped entity sits in the group of its template, one group per
    /// template; every waiting entity is not drawable yet.
    pub open spec fn wf(&self) -> bool {
        &&& groups_wf(self.groups())
        &&& forall|j: int| 0 <= j < self.loading().len() ==> !(#[trigger] self.loading()[j]).is_drawable()
    }

    pub fn new() -> (r: Self)
        ensures
            r.wf(),
            r.groups() == Seq::<GroupView<G>>::empty(),
            r.loading() == Seq::<Entity<G>>::empty(),
    {
        let r = Scene { data: Vec::new(), loading_list: Vec::new() };
        assert(r.groups() =~= Seq::<GroupView<G>>::empty());
        r
    }

    /// The material groups, in the order they were created.
    pub fn groups_vec(&self) -> (r: &Vec<MaterialEntityGroup<G>>)
        ensures
            r@.map_values(|g: MaterialEntityGroup<G>| g@) == self.groups(),
    {
        &self.data
    }

    pub fn group_count(&self) -> (r: usize)
        ensures
            r == self.groups().len(),
    {
        self.data.len()
    }

    /// The entities waiting for their mesh.
    pub fn loading_list(&self) -> (r: &Vec<Entity<G>>)
        ensures
            r@ == self.loading(),
    {
        &self.loading_list
    }

    /// Adds `entity`: a drawable one joins the group of its material template
    /// (a new group is opened for a template not seen before), one without a
    /// mesh joins the loading list.
    pub fn add(&mut self, entity: Entity<G>)
        requires
            old(self).wf(),
        ensures
            final(self).wf(),
            entity.is_drawable() ==> final(self).groups() == groups_after_add(
                old(self).groups(),
                entity,
            ) && final(self).loading() == old(self).loading(),
            !entity.is_drawable() ==> final(self).groups() == old(self).groups()
                && final(self).loading() == old(self).loading().push(entity),
    {
        let key = match entity.mesh() {
            Some(mesh) => mesh.model_material_template_id(),
            None => {
                self.loading_list.push(entity);
                assert(self.loading() == old(self).loading().push(entity));
                return;
            },
        };
        let ghost groups0 = self.groups();
        let mut i: usize = 0;
        while i < self.data.len() && self.data[i].material_template_id != key
            invariant
                i <= self.data@.len(),
                self.groups() == groups0,
                groups0.len() == self.data@.len(),
                forall|j: int| 0 <= j < i ==> #[trigger] groups0[j].0 != key,
            decreases self.data@.len() - i,
        {
            assert(groups0[i as int] == self.data@[i as int]@);
            i = i + 1;
        }
        if i < self.data.len() {
            assert(groups0[i as int] == self.data@[i as int]@);
            assert(groups0[i as int].0 == key);
            proof {
                let c = choose|c: int| 0 <= c < groups0.len() && #[trigger] groups0[c].0 == key;
                assert(c == i as int) by {
                    if c < i {
                    } else if c > i {
                        assert(groups0[i as int].0 != groups0[c].0);
                    }
                }
            }
            self.push_into_group(i, entity);
        } else {
            assert(!has_group(groups0, key));
            let mut entities = Vec::new();
            entities.push(entity);
            let group = MaterialEntityGroup { material_template_id: key, entities };
            assert(group@ =~= (key, seq![entity]));
            self.data.push(group);
            assert(self.groups() =~= groups0.push((key, seq![entity])));
        }
    }

    fn push_into_group(&mut self, i: usize, entity: Entity<G>)
        requires
            i < old(self).data@.len(),
        ensures
            final(self).loading() == old(self).loading(),
            final(self).groups() == old(self).groups().update(
                i as int,
                (old(self).groups()[i as int].0, old(self).groups()[i as int].1.push(entity)),
            ),
    {
        let ghost before = self.groups();
        let group = &mut self.data[i];
        group.entities.push(entity);
        assert(self.groups() =~= before.update(i as int, (before[i as int].0, before[i as int].1.push(entity))));
    }

    /// Makes the waiting entities drawable, last queued first, and adds them
    /// to their material groups. `uploads[i]` is what uploading the mesh of
    /// the `i`-th waiting entity produced. An entity whose model is resident
    /// already stops the pass with `AlreadyLoaded`; it stays in the loading
    /// list together with the entities queued before it.
    pub fn instantiate_models(&mut self, uploads: Vec<Upload<G>>) -> (r: Result<(), Error>)
        requires
            old(self).wf(),
            uploads@.len() == old(self).loading().len(),
        ensures
            final(self).wf(),
            r is Ok <==> old(self).loading_stop() < 0,
            r is Err ==> r == Err::<(), Error>(Error::AlreadyLoaded),
            r is Ok ==> final(self).loading() == Seq::<Entity<G>>::empty(),
            r is Err ==> final(self).loading() == old(self).loading().subrange(0, old(self).loading_stop() + 1),
            final(self).groups() == groups_after_all(
                old(self).groups(),
                ready_from(old(self).loading(), uploads@, old(self).loading_stop() + 1),
            ),
    {
        let ghost loading0 = self.loading();
        let ghost uploads0 = uploads@;
        let ghost groups0 = self.groups();
        let ghost n = loading0.len() as int;
        let mut remaining = uploads;
        proof {
            lemma_last_resident(loading0, n);
            assert(ready_from(loading0, uploads0, n) =~= Seq::<Entity<G>>::empty());
            assert(loading0.subrange(0, n) =~= loading0);
        }
        while self.loading_list.len() > 0
            invariant
                self.wf(),
                loading0 == old(self).loading(),
                groups0 == old(self).groups(),
                0 <= self.loading().len() <= n == loading0.len() == uploads0.len(),
                self.loading() == loading0.subrange(0, self.loading().len() as int),
                uploads0 == uploads@,
                remaining@ == uploads0.subrange(0, self.loading().len() as int),
                self.groups() == groups_after_all(groups0, ready_from(loading0, uploads0, self.loading().len() as int)),
                last_resident(loading0, n) < self.loading().len(),
                last_resident(loading0, n) == last_resident(loading0, self.loading().len() as int),
            decreases self.loading_list@.len(),
        {
            let ghost i = self.loading().len() as int;
            let entity = self.loading_list.pop().unwrap();
            let upload = remaining.pop().unwrap();
            assert(entity == loading0[i - 1]);
            assert(upload == uploads0[i - 1]);
            assert(self.loading() =~= loading0.subrange(0, i - 1));
            assert(remaining@ =~= uploads0.subrange(0, i - 1));
            let Upload { buffer, vertex_count, resources } = upload;
            match entity.instantiate(buffer, vertex_count, resources) {
                Ok(ready_entity) => {
                    proof {
                        entity.lemma_instantiated(buffer, vertex_count, resources);
                        let before = ready_from(loading0, uploads0, i);
                        let after = ready_from(loading0, uploads0, i - 1);
                        assert(after.drop_last() =~= before);
                        assert(after.last() == ready_entity);
                        lemma_add_keeps_grouping(self.groups(), ready_entity);
                        assert(!loading0[i - 1].pending_model().is_resident());
                        assert(last_resident(loading0, i) == last_resident(loading0, i - 1));
                        lemma_last_resident(loading0, i - 1);
                    }
                    self.add(ready_entity);
                },
                Err((back, e)) => {
                    proof {
                        assert(loading0[i - 1].pending_model().is_resident());
                        assert(last_resident(loading0, i) == i - 1);
                        assert(back == loading0[i - 1]);
                    }
                    self.loading_list.push(back);
                    assert(self.loading() =~= loading0.subrange(0, i));
                    return Err(e);
                },
            }
        }
        Ok(())
    }

    /// Removes and returns the most recently queued entity that waits for its
    /// mesh.
    pub fn pop_loading(&mut self) -> (r: Option<Entity<G>>)
        requires
            old(self).wf(),
        ensures
            final(self).wf(),
            final(self).groups() == old(self).groups(),
            old(self).loading().len() == 0 ==> r is None,
            old(self).loading().len() == 0 ==> final(self).loading() == old(self).loading(),
            old(self).loading().len() > 0 ==> r == Some(old(self).loading().last())
                && final(self).loading() == old(self).loading().drop_last(),
    {
        self.loading_list.pop()
    }
}

} // verus!
