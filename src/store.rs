//! The state store that the built-in verbs read and change: objects
//! (entities) with a handle, an optional parent, and components addressed by
//! fully-qualified type path.
use vstd::prelude::*;
use crate::json::{Json, JsonView};
use crate::error::VerbError;
use crate::keyed::{
    has_key, keys_unique, lemma_overlay_at, lemma_overlay_idempotent, lemma_push, lemma_remove, lemma_to_map_dom, lemma_unique_at,
    lemma_update, overlay, to_map,
};

verus! {

/// A component value stored under its type path.
pub struct Component {
    pub path: String,
    pub value: Json,
}

impl Component {
    pub open spec fn pair(self) -> (Seq<char>, JsonView) {
        (self.path@, self.value@)
    }

    /// A copy of this component.
    pub fn duplicate(&self) -> (r: Component)
        ensures
            r.pair() == self.pair(),
            r.path == self.path,
    {
        Component { path: self.path.clone(), value: self.value.duplicate() }
    }
}

/// The path/value pairs of a list of components.
pub open spec fn pairs(cs: Seq<Component>) -> Seq<(Seq<char>, JsonView)> {
    cs.map_values(|c: Component| c.pair())
}

/// What the store holds for one object.
pub struct EntityView {
    pub parent: Option<u64>,
    pub components: Map<Seq<char>, JsonView>,
}

/// One object as stored.
pub struct EntityRecord {
    pub id: u64,
    pub parent: Option<u64>,
    pub components: Vec<Component>,
}

impl EntityRecord {
    pub open spec fn view(self) -> EntityView {
        EntityView { parent: self.parent, components: to_map(pairs(self.components@)) }
    }

    pub open spec fn wf(self) -> bool {
        keys_unique(pairs(self.components@))
    }
}

/// The handle/view pairs of a list of stored objects.
pub open spec fn entity_pairs(es: Seq<EntityRecord>) -> Seq<(u64, EntityView)> {
    es.map_values(|e: EntityRecord| (e.id, e.view()))
}

/// Every path of `paths` names a component of `m`.
pub open spec fn has_all(m: Map<Seq<char>, JsonView>, paths: Seq<String>) -> bool {
    forall|i: int| 0 <= i < paths.len() ==> m.contains_key(#[trigger] paths[i]@)
}

/// No path of `paths` names a component of `m`.
pub open spec fn has_none(m: Map<Seq<char>, JsonView>, paths: Seq<String>) -> bool {
    forall|i: int| 0 <= i < paths.len() ==> !m.contains_key(#[trigger] paths[i]@)
}

/// `cs` holds, in order, the component of `m` under each path of `paths`.
pub open spec fn picked(m: Map<Seq<char>, JsonView>, paths: Seq<String>, cs: Seq<Component>) -> bool {
    &&& cs.len() == paths.len()
    &&& forall|i: int|
        0 <= i < cs.len() ==> (#[trigger] cs[i]).path@ == paths[i]@ && cs[i].value@
            == m[paths[i]@]
}

/// `paths[i]` is the first path of `paths` that names no component of `m`.
pub open spec fn first_missing(m: Map<Seq<char>, JsonView>, paths: Seq<String>, i: int) -> bool {
    &&& 0 <= i < paths.len()
    &&& !m.contains_key(paths[i]@)
    &&& forall|j: int| 0 <= j < i ==> m.contains_key(#[trigger] paths[j]@)
}

/// The position of the component stored under `path`, if any.
fn find_component(cs: &Vec<Component>, path: &String) -> (r: Option<usize>)
    ensures
        match r {
            Some(i) => i < cs@.len() && cs@[i as int].path@ == path@,
            None => !has_key(pairs(cs@), path@),
        },
{
    let mut i: usize = 0;
    while i < cs.len()
        invariant
            i <= cs@.len(),
            forall|j: int| 0 <= j < i ==> (#[trigger] cs@[j]).path@ != path@,
        decreases cs@.len() - i,
    {
        if cs[i].path == *path {
            return Some(i);
        }
        i = i + 1;
    }
    proof {
        if has_key(pairs(cs@), path@) {
            let j = choose|j: int| 0 <= j < pairs(cs@).len() && #[trigger] pairs(cs@)[j].0 == path@;
            assert(cs@[j].path@ == path@);
        }
    }
    None
}

/// Stores `c`, replacing any component under the same path.
fn set_component(cs: &mut Vec<Component>, c: Component)
    requires
        keys_unique(pairs(old(cs)@)),
    ensures
        keys_unique(pairs(final(cs)@)),
        to_map(pairs(final(cs)@)) == to_map(pairs(old(cs)@)).insert(c.path@, c.value@),
{
    let ghost before = cs@;
    match find_component(cs, &c.path) {
        Some(i) => {
            proof {
                lemma_update(pairs(before), i as int, c.value@);
                assert(pairs(before.update(i as int, c)) =~= pairs(before).update(
                    i as int,
                    (pairs(before)[i as int].0, c.value@),
                ));
            }
            cs.set(i, c);
        },
        None => {
            proof {
                lemma_push(pairs(before), c.path@, c.value@);
                assert(pairs(before.push(c)) =~= pairs(before).push((c.path@, c.value@)));
            }
            cs.push(c);
        },
    }
}

/// Stores each component of `new` in turn over `cs`.
fn set_components(cs: &mut Vec<Component>, new: &Vec<Component>)
    requires
        keys_unique(pairs(old(cs)@)),
    ensures
        keys_unique(pairs(final(cs)@)),
        to_map(pairs(final(cs)@)) == overlay(to_map(pairs(old(cs)@)), pairs(new@)),
{
    let ghost start = to_map(pairs(cs@));
    let mut i: usize = 0;
    while i < new.len()
        invariant
            i <= new@.len(),
            keys_unique(pairs(cs@)),
            to_map(pairs(cs@)) == overlay(start, pairs(new@).take(i as int)),
        decreases new@.len() - i,
    {
        let c = new[i].duplicate();
        set_component(cs, c);
        proof {
            let s = pairs(new@).take(i as int + 1);
            assert(s.drop_last() =~= pairs(new@).take(i as int));
            assert(s.last() == new@[i as int].pair());
        }
        i = i + 1;
    }
    proof {
        assert(pairs(new@).take(new@.len() as int) =~= pairs(new@));
    }
}

/// The components of `cs` under each path of `paths`, or the position of the
/// first path that names none.
fn pick(cs: &Vec<Component>, paths: &Vec<String>) -> (r: Result<Vec<Component>, usize>)
    requires
        keys_unique(pairs(cs@)),
    ensures
        match r {
            Ok(out) => has_all(to_map(pairs(cs@)), paths@) && picked(
                to_map(pairs(cs@)),
                paths@,
                out@,
            ),
            Err(i) => first_missing(to_map(pairs(cs@)), paths@, i as int),
        },
{
    let ghost m = to_map(pairs(cs@));
    let mut out: Vec<Component> = Vec::new();
    let mut i: usize = 0;
    while i < paths.len()
        invariant
            i <= paths@.len(),
            has_all(m, paths@.take(i as int)),
            picked(m, paths@.take(i as int), out@),
            m == to_map(pairs(cs@)),
            keys_unique(pairs(cs@)),
        decreases paths@.len() - i,
    {
        proof {
            assert forall|j: int| 0 <= j < i implies m.contains_key(#[trigger] paths@[j]@) by {
                assert(paths@.take(i as int)[j] == paths@[j]);
            }
        }
        match find_component(cs, &paths[i]) {
            Some(k) => {
                proof {
                    lemma_unique_at(pairs(cs@), k as int);
                    assert(pairs(cs@)[k as int] == cs@[k as int].pair());
                }
                out.push(cs[k].duplicate());
                proof {
                    let t = paths@.take(i as int + 1);
                    assert forall|j: int| 0 <= j < t.len() implies m.contains_key(
                        #[trigger] t[j]@,
                    ) by {
                        if j < i {
                            assert(paths@.take(i as int)[j] == t[j]);
                        }
                    }
                    assert forall|j: int| 0 <= j < out@.len() implies (#[trigger] out@[j]).path@
                        == t[j]@ && out@[j].value@ == m[t[j]@] by {
                        if j < i {
                            assert(paths@.take(i as int)[j] == t[j]);
                        }
                    }
                }
            },
            None => {
                proof {
                    lemma_to_map_dom(pairs(cs@), paths@[i as int]@);
                }
                return Err(i);
            },
        }
        i = i + 1;
    }
    proof {
        assert(paths@.take(paths@.len() as int) =~= paths@);
    }
    Ok(out)
}

/// `m` after `components` are stored on the object `entity`, each replacing
/// what was under its path.
pub open spec fn inserted(m: Map<u64, EntityView>, entity: u64, components: Seq<Component>) -> Map<
    u64,
    EntityView,
> {
    m.insert(
        entity,
        EntityView {
            parent: m[entity].parent,
            components: overlay(m[entity].components, pairs(components)),
        },
    )
}

/// After components with distinct paths are inserted on an object, reading
/// those paths back gives exactly the inserted values.
pub proof fn law_insert_then_get(
    m: Map<u64, EntityView>,
    entity: u64,
    components: Seq<Component>,
    paths: Seq<String>,
    out: Seq<Component>,
)
    requires
        m.contains_key(entity),
        keys_unique(pairs(components)),
        paths.len() == components.len(),
        forall|i: int| 0 <= i < paths.len() ==> (#[trigger] paths[i])@ == components[i].path@,
    ensures
        inserted(m, entity, components).contains_key(entity),
        has_all(inserted(m, entity, components)[entity].components, paths),
        picked(inserted(m, entity, components)[entity].components, paths, out) ==> forall|i: int|
            0 <= i < out.len() ==> (#[trigger] out[i]).value@ == components[i].value@,
{
    let ps = pairs(components);
    let after = inserted(m, entity, components)[entity].components;
    assert forall|i: int| 0 <= i < paths.len() implies after.contains_key(#[trigger] paths[i]@)
        && after[paths[i]@] == components[i].value@ by {
        assert(ps[i].0 == paths[i]@);
        lemma_unique_at(ps, i);
        assert(has_key(ps, paths[i]@));
        lemma_overlay_at(m[entity].components, ps, paths[i]@);
    }
}

/// Inserting the same components twice leaves the store as inserting them
/// once does.
pub proof fn law_insert_idempotent(m: Map<u64, EntityView>, entity: u64, components: Seq<Component>)
    requires
        m.contains_key(entity),
    ensures
        inserted(inserted(m, entity, components), entity, components) == inserted(
            m,
            entity,
            components,
        ),
{
    lemma_overlay_idempotent(m[entity].components, pairs(components));
    let once = inserted(m, entity, components);
    assert(inserted(once, entity, components) =~= once);
}

/// `m` with the component under each path of `paths` taken out.
pub open spec fn without(m: Map<Seq<char>, JsonView>, paths: Seq<String>) -> Map<Seq<char>, JsonView>
    decreases paths.len(),
{
    if paths.len() == 0 {
        m
    } else {
        without(m, paths.drop_last()).remove(paths.last()@)
    }
}

/// `m` with the parent of each object of `ids`, in turn, set to `parent`.
pub open spec fn reparented(m: Map<u64, EntityView>, ids: Seq<u64>, parent: Option<u64>) -> Map<
    u64,
    EntityView,
>
    decreases ids.len(),
{
    if ids.len() == 0 {
        m
    } else {
        let r = reparented(m, ids.drop_last(), parent);
        r.insert(ids.last(), EntityView { parent, components: r[ids.last()].components })
    }
}

/// Every handle of `ids` names an object of `m`.
pub open spec fn all_present(m: Map<u64, EntityView>, ids: Seq<u64>) -> bool {
    forall|i: int| 0 <= i < ids.len() ==> m.contains_key(#[trigger] ids[i])
}

/// `ids[i]` is the first handle of `ids` that names no object of `m`.
pub open spec fn first_absent(m: Map<u64, EntityView>, ids: Seq<u64>, i: int) -> bool {
    &&& 0 <= i < ids.len()
    &&& !m.contains_key(ids[i])
    &&& forall|j: int| 0 <= j < i ==> m.contains_key(#[trigger] ids[j])
}

/// An object matches a query when it has every component of `components`
/// and of `with`, and none of `without`.
pub open spec fn matches_query(
    v: EntityView,
    components: Seq<String>,
    with: Seq<String>,
    without: Seq<String>,
) -> bool {
    has_all(v.components, components) && has_all(v.components, with) && has_none(
        v.components,
        without,
    )
}

/// `names` lists each key of `m` exactly once.
pub open spec fn lists_keys(m: Map<Seq<char>, JsonView>, names: Seq<String>) -> bool {
    &&& forall|k: Seq<char>|
        m.contains_key(k) <==> exists|i: int| 0 <= i < names.len() && (#[trigger] names[i])@ == k
    &&& forall|i: int, j: int|
        0 <= i < names.len() && 0 <= j < names.len() && (#[trigger] names[i])@ == (
        #[trigger] names[j])@ ==> i == j
}

/// One result of a query: an object and the requested components.
pub struct QueryRow {
    pub entity: u64,
    pub components: Vec<Component>,
}

/// A copy of a list of components.
fn copy_components(v: &Vec<Component>) -> (r: Vec<Component>)
    ensures
        pairs(r@) == pairs(v@),
{
    let mut cs: Vec<Component> = Vec::new();
    let mut k: usize = 0;
    while k < v.len()
        invariant
            k <= v@.len(),
            cs@.len() == k,
            forall|j: int| 0 <= j < k ==> (#[trigger] cs@[j]).pair() == v@[j].pair(),
        decreases v@.len() - k,
    {
        cs.push(v[k].duplicate());
        k = k + 1;
    }
    proof {
        assert(pairs(cs@) =~= pairs(v@));
    }
    cs
}

/// Whether `cs` has no component under any path of `paths`.
fn lacks_all(cs: &Vec<Component>, paths: &Vec<String>) -> (r: bool)
    ensures
        r == has_none(to_map(pairs(cs@)), paths@),
{
    let mut i: usize = 0;
    while i < paths.len()
        invariant
            i <= paths@.len(),
            forall|j: int| 0 <= j < i ==> !to_map(pairs(cs@)).contains_key(#[trigger] paths@[j]@),
        decreases paths@.len() - i,
    {
        proof {
            lemma_to_map_dom(pairs(cs@), paths@[i as int]@);
        }
        match find_component(cs, &paths[i]) {
            Some(k) => {
                proof {
                    assert(pairs(cs@)[k as int].0 == paths@[i as int]@);
                }
                return false;
            },
            None => {},
        }
        i = i + 1;
    }
    true
}

/// The store: every object, and the handle that the next spawned one gets.
pub struct World {
    entities: Vec<EntityRecord>,
    next_id: u64,
}

impl View for World {
    type V = Map<u64, EntityView>;

    closed spec fn view(&self) -> Map<u64, EntityView> {
        to_map(entity_pairs(self.entities@))
    }
}

impl World {
    /// Handles are unique, each object's component paths are unique, and
    /// every handle is below the next one to be handed out.
    pub closed spec fn wf(&self) -> bool {
        &&& keys_unique(entity_pairs(self.entities@))
        &&& forall|i: int|
            0 <= i < self.entities@.len() ==> (#[trigger] self.entities@[i]).wf()
                && self.entities@[i].id < self.next_id
    }

    /// The handle that the next spawned object gets.
    pub closed spec fn next_handle(&self) -> u64 {
        self.next_id
    }

    /// An empty store.
    pub fn new() -> (r: World)
        ensures
            r.wf(),
            r@ == Map::<u64, EntityView>::empty(),
            r.next_handle() == 0,
    {
        let r = World { entities: Vec::new(), next_id: 0 };
        proof {
            assert(entity_pairs(r.entities@) =~= Seq::<(u64, EntityView)>::empty());
        }
        r
    }

    /// The position of the object with handle `id`, if any.
    fn find_entity(&self, id: u64) -> (r: Option<usize>)
        requires
            self.wf(),
        ensures
            match r {
                Some(i) => i < self.entities@.len() && self.entities@[i as int].id == id
                    && self@.contains_key(id) && self@[id] == self.entities@[i as int].view(),
                None => !self@.contains_key(id),
            },
    {
        let mut i: usize = 0;
        while i < self.entities.len()
            invariant
                self.wf(),
                i <= self.entities@.len(),
                forall|j: int| 0 <= j < i ==> (#[trigger] self.entities@[j]).id != id,
            decreases self.entities@.len() - i,
        {
            if self.entities[i].id == id {
                proof {
                    lemma_unique_at(entity_pairs(self.entities@), i as int);
                }
                return Some(i);
            }
            i = i + 1;
        }
        proof {
            lemma_to_map_dom(entity_pairs(self.entities@), id);
            if has_key(entity_pairs(self.entities@), id) {
                let j = choose|j: int|
                    0 <= j < entity_pairs(self.entities@).len() && #[trigger] entity_pairs(
                        self.entities@,
                    )[j].0 == id;
                assert(self.entities@[j].id == id);
            }
        }
        None
    }

    /// Puts `rec` at position `i`, in place of the object with the same handle.
    fn replace_entity(&mut self, i: usize, rec: EntityRecord)
        requires
            old(self).wf(),
            i < old(self).entities@.len(),
            rec.id == old(self).entities@[i as int].id,
            rec.wf(),
        ensures
            final(self).wf(),
            final(self)@ == old(self)@.insert(rec.id, rec.view()),
            final(self).next_handle() == old(self).next_handle(),
    {
        let ghost es = self.entities@;
        proof {
            lemma_update(entity_pairs(es), i as int, rec.view());
            assert(entity_pairs(es.update(i as int, rec)) =~= entity_pairs(es).update(
                i as int,
                (entity_pairs(es)[i as int].0, rec.view()),
            ));
        }
        self.entities.set(i, rec);
        proof {
            assert forall|j: int| 0 <= j < self.entities@.len() implies (
            #[trigger] self.entities@[j]).wf() && self.entities@[j].id < self.next_id by {
                if j != i {
                    assert(self.entities@[j] == es[j]);
                }
            }
        }
    }

    /// Creates an object holding `components` (a later one replaces an
    /// earlier one under the same path) and returns its handle.
    pub fn spawn(&mut self, components: &Vec<Component>) -> (r: Result<u64, VerbError>)
        requires
            old(self).wf(),
        ensures
            final(self).wf(),
            old(self).next_handle() < u64::MAX ==> {
                &&& r == Ok::<u64, VerbError>(old(self).next_handle())
                &&& !old(self)@.contains_key(old(self).next_handle())
                &&& final(self)@ == old(self)@.insert(
                    old(self).next_handle(),
                    EntityView { parent: None, components: to_map(pairs(components@)) },
                )
                &&& final(self).next_handle() == old(self).next_handle() + 1
            },
            old(self).next_handle() == u64::MAX ==> r == Err::<u64, VerbError>(
                VerbError::HandlesExhausted,
            ) && *final(self) == *old(self),
    {
        if self.next_id == u64::MAX {
            return Err(VerbError::HandlesExhausted);
        }
        let mut cs: Vec<Component> = Vec::new();
        proof {
            assert(pairs(cs@) =~= Seq::<(Seq<char>, JsonView)>::empty());
        }
        set_components(&mut cs, components);
        let id = self.next_id;
        let rec = EntityRecord { id, parent: None, components: cs };
        let ghost es = self.entities@;
        proof {
            lemma_to_map_dom(entity_pairs(es), id);
            if has_key(entity_pairs(es), id) {
                let j = choose|j: int|
                    0 <= j < entity_pairs(es).len() && #[trigger] entity_pairs(es)[j].0 == id;
                assert(es[j].id < self.next_id);
            }
            lemma_push(entity_pairs(es), id, rec.view());
            assert(entity_pairs(es.push(rec)) =~= entity_pairs(es).push((id, rec.view())));
        }
        self.entities.push(rec);
        self.next_id = id + 1;
        proof {
            assert forall|j: int| 0 <= j < self.entities@.len() implies (
            #[trigger] self.entities@[j]).wf() && self.entities@[j].id < self.next_id by {
                if j < es.len() {
                    assert(self.entities@[j] == es[j]);
                }
            }
        }
        Ok(id)
    }

    /// Stores `components` on the object `entity`, replacing those under the
    /// same paths.
    pub fn insert(&mut self, entity: u64, components: &Vec<Component>) -> (r: Result<
        (),
        VerbError,
    >)
        requires
            old(self).wf(),
        ensures
            final(self).wf(),
            final(self).next_handle() == old(self).next_handle(),
            old(self)@.contains_key(entity) ==> r is Ok && final(self)@ == inserted(
                old(self)@,
                entity,
                components@,
            ),
            !old(self)@.contains_key(entity) ==> r == Err::<(), VerbError>(
                VerbError::NoSuchEntity(entity),
            ) && *final(self) == *old(self),
    {
        match self.find_entity(entity) {
            None => Err(VerbError::NoSuchEntity(entity)),
            Some(i) => {
                let mut cs = copy_components(&self.entities[i].components);
                proof {
                    assert(self.entities@[i as int].wf());
                }
                set_components(&mut cs, components);
                let rec = EntityRecord { id: entity, parent: self.entities[i].parent, components: cs };
                self.replace_entity(i, rec);
                Ok(())
            },
        }
    }

    /// The components of the object `entity` under each path of `paths`.
    pub fn get(&self, entity: u64, paths: &Vec<String>) -> (r: Result<Vec<Component>, VerbError>)
        requires
            self.wf(),
        ensures
            !self@.contains_key(entity) ==> r == Err::<Vec<Component>, VerbError>(
                VerbError::NoSuchEntity(entity),
            ),
            self@.contains_key(entity) ==> match r {
                Ok(cs) => has_all(self@[entity].components, paths@) && picked(
                    self@[entity].components,
                    paths@,
                    cs@,
                ),
                Err(e) => exists|i: int|
                    first_missing(self@[entity].components, paths@, i) && e
                        == VerbError::NoSuchComponent(entity, paths@[i]),
            },
            self@.contains_key(entity) ==> (r is Ok <==> has_all(
                self@[entity].components,
                paths@,
            )),
    {
        match self.find_entity(entity) {
            None => Err(VerbError::NoSuchEntity(entity)),
            Some(i) => {
                proof {
                    assert(self.entities@[i as int].wf());
                }
                match pick(&self.entities[i].components, paths) {
                    Ok(cs) => Ok(cs),
                    Err(k) => {
                        let e = VerbError::NoSuchComponent(entity, paths[k].clone());
                        proof {
                            assert(first_missing(self@[entity].components, paths@, k as int));
                        }
                        Err(e)
                    },
                }
            },
        }
    }
}

impl World {
    /// Takes the components under `paths` off the object `entity`; nothing
    /// changes unless the object has all of them.
    pub fn remove(&mut self, entity: u64, paths: &Vec<String>) -> (r: Result<(), VerbError>)
        requires
            old(self).wf(),
        ensures
            final(self).wf(),
            final(self).next_handle() == old(self).next_handle(),
            !old(self)@.contains_key(entity) ==> r == Err::<(), VerbError>(
                VerbError::NoSuchEntity(entity),
            ) && *final(self) == *old(self),
            old(self)@.contains_key(entity) && !has_all(old(self)@[entity].components, paths@)
                ==> *final(self) == *old(self) && exists|i: int|
                first_missing(old(self)@[entity].components, paths@, i) && r == Err::<
                    (),
                    VerbError,
                >(VerbError::NoSuchComponent(entity, paths@[i])),
            old(self)@.contains_key(entity) && has_all(old(self)@[entity].components, paths@)
                ==> r is Ok && final(self)@ == old(self)@.insert(
                entity,
                EntityView {
                    parent: old(self)@[entity].parent,
                    components: without(old(self)@[entity].components, paths@),
                },
            ),
    {
        match self.find_entity(entity) {
            None => Err(VerbError::NoSuchEntity(entity)),
            Some(i) => {
                proof {
                    assert(self.entities@[i as int].wf());
                }
                match pick(&self.entities[i].components, paths) {
                    Err(k) => {
                        let e = VerbError::NoSuchComponent(entity, paths[k].clone());
                        proof {
                            assert(first_missing(self@[entity].components, paths@, k as int));
                        }
                        return Err(e);
                    },
                    Ok(_) => {},
                }
                let mut cs = copy_components(&self.entities[i].components);
                let ghost start = to_map(pairs(cs@));
                let mut j: usize = 0;
                while j < paths.len()
                    invariant
                        j <= paths@.len(),
                        keys_unique(pairs(cs@)),
                        to_map(pairs(cs@)) == without(start, paths@.take(j as int)),
                    decreases paths@.len() - j,
                {
                    let ghost before = cs@;
                    let ghost key = paths@[j as int]@;
                    match find_component(&cs, &paths[j]) {
                        Some(k) => {
                            proof {
                                lemma_remove(pairs(before), k as int);
                                assert(pairs(before.remove(k as int)) =~= pairs(before).remove(
                                    k as int,
                                ));
                            }
                            cs.remove(k);
                        },
                        None => {
                            proof {
                                lemma_to_map_dom(pairs(before), key);
                                assert(to_map(pairs(before)).remove(key) =~= to_map(
                                    pairs(before),
                                ));
                            }
                        },
                    }
                    proof {
                        let t = paths@.take(j as int + 1);
                        assert(t.drop_last() =~= paths@.take(j as int));
                    }
                    j = j + 1;
                }
                proof {
                    assert(paths@.take(paths@.len() as int) =~= paths@);
                }
                let rec = EntityRecord { id: entity, parent: self.entities[i].parent, components: cs };
                self.replace_entity(i, rec);
                Ok(())
            },
        }
    }

    /// Deletes the object `entity` and its components.
    pub fn destroy(&mut self, entity: u64) -> (r: Result<(), VerbError>)
        requires
            old(self).wf(),
        ensures
            final(self).wf(),
            final(self).next_handle() == old(self).next_handle(),
            old(self)@.contains_key(entity) ==> r is Ok && final(self)@ == old(self)@.remove(
                entity,
            ),
            !old(self)@.contains_key(entity) ==> r == Err::<(), VerbError>(
                VerbError::NoSuchEntity(entity),
            ) && *final(self) == *old(self),
    {
        match self.find_entity(entity) {
            None => Err(VerbError::NoSuchEntity(entity)),
            Some(i) => {
                let ghost es = self.entities@;
                proof {
                    lemma_remove(entity_pairs(es), i as int);
                    assert(entity_pairs(es.remove(i as int)) =~= entity_pairs(es).remove(i as int));
                }
                self.entities.remove(i);
                proof {
                    assert forall|j: int| 0 <= j < self.entities@.len() implies (
                    #[trigger] self.entities@[j]).wf() && self.entities@[j].id < self.next_id by {
                        if j < i {
                            assert(self.entities@[j] == es[j]);
                        } else {
                            assert(self.entities@[j] == es[j + 1]);
                        }
                    }
                }
                Ok(())
            },
        }
    }

    /// Sets the parent of each object of `entities` to `parent`; nothing
    /// changes unless all of them, and the parent, exist.
    pub fn reparent(&mut self, entities: &Vec<u64>, parent: Option<u64>) -> (r: Result<
        (),
        VerbError,
    >)
        requires
            old(self).wf(),
        ensures
            final(self).wf(),
            final(self).next_handle() == old(self).next_handle(),
            match parent {
                Some(p) => !old(self)@.contains_key(p),
                None => false,
            } ==> r == Err::<(), VerbError>(VerbError::NoSuchEntity(parent->0)) && *final(self)
                == *old(self),
            match parent {
                Some(p) => old(self)@.contains_key(p),
                None => true,
            } ==> {
                &&& !all_present(old(self)@, entities@) ==> *final(self) == *old(self)
                    && exists|i: int|
                    first_absent(old(self)@, entities@, i) && r == Err::<(), VerbError>(
                        VerbError::NoSuchEntity(entities@[i]),
                    )
                &&& all_present(old(self)@, entities@) ==> r is Ok && final(self)@ == reparented(
                    old(self)@,
                    entities@,
                    parent,
                )
            },
    {
        match parent {
            Some(p) => {
                if self.find_entity(p).is_none() {
                    return Err(VerbError::NoSuchEntity(p));
                }
            },
            None => {},
        }
        let mut j: usize = 0;
        while j < entities.len()
            invariant
                self.wf(),
                *self == *old(self),
                match parent {
                    Some(p) => self@.contains_key(p),
                    None => true,
                },
                j <= entities@.len(),
                forall|k: int| 0 <= k < j ==> self@.contains_key(#[trigger] entities@[k]),
            decreases entities@.len() - j,
        {
            if self.find_entity(entities[j]).is_none() {
                proof {
                    assert(first_absent(self@, entities@, j as int));
                }
                return Err(VerbError::NoSuchEntity(entities[j]));
            }
            j = j + 1;
        }
        let ghost start = self@;
        let mut j: usize = 0;
        while j < entities.len()
            invariant
                self.wf(),
                j <= entities@.len(),
                all_present(start, entities@),
                self@.dom() == start.dom(),
                self@ == reparented(start, entities@.take(j as int), parent),
                self.next_handle() == old(self).next_handle(),
            decreases entities@.len() - j,
        {
            let id = entities[j];
            assert(start.contains_key(entities@[j as int]));
            match self.find_entity(id) {
                Some(i) => {
                    proof {
                        assert(self.entities@[i as int].wf());
                    }
                    let cs = copy_components(&self.entities[i].components);
                    let rec = EntityRecord { id, parent, components: cs };
                    let ghost prev = self@;
                    self.replace_entity(i, rec);
                    proof {
                        assert(self@.dom() =~= prev.dom());
                        let t = entities@.take(j as int + 1);
                        assert(t.drop_last() =~= entities@.take(j as int));
                    }
                },
                None => {},
            }
            j = j + 1;
        }
        proof {
            assert(entities@.take(entities@.len() as int) =~= entities@);
        }
        Ok(())
    }

    /// The type paths of the components of the object `entity`.
    pub fn list(&self, entity: u64) -> (r: Result<Vec<String>, VerbError>)
        requires
            self.wf(),
        ensures
            !self@.contains_key(entity) ==> r == Err::<Vec<String>, VerbError>(
                VerbError::NoSuchEntity(entity),
            ),
            self@.contains_key(entity) ==> match r {
                Ok(names) => lists_keys(self@[entity].components, names@),
                Err(_) => false,
            },
    {
        match self.find_entity(entity) {
            None => Err(VerbError::NoSuchEntity(entity)),
            Some(i) => {
                let cs = &self.entities[i].components;
                proof {
                    assert(self.entities@[i as int].wf());
                }
                let mut names: Vec<String> = Vec::new();
                let mut k: usize = 0;
                while k < cs.len()
                    invariant
                        k <= cs@.len(),
                        names@.len() == k,
                        forall|a: int| 0 <= a < k ==> (#[trigger] names@[a])@ == pairs(cs@)[a].0,
                    decreases cs@.len() - k,
                {
                    names.push(cs[k].path.clone());
                    k = k + 1;
                }
                proof {
                    let ps = pairs(cs@);
                    assert(self@[entity].components == to_map(ps));
                    assert forall|key: Seq<char>|
                        self@[entity].components.contains_key(key) <==> exists|a: int|
                            0 <= a < names@.len() && (#[trigger] names@[a])@ == key by {
                        lemma_to_map_dom(ps, key);
                        if has_key(ps, key) {
                            let a = choose|a: int| 0 <= a < ps.len() && #[trigger] ps[a].0 == key;
                            assert(names@[a]@ == key);
                        }
                        if exists|a: int| 0 <= a < names@.len() && (#[trigger] names@[a])@ == key {
                            let a = choose|a: int|
                                0 <= a < names@.len() && (#[trigger] names@[a])@ == key;
                            assert(ps[a].0 == key);
                        }
                    }
                    assert forall|a: int, b: int|
                        0 <= a < names@.len() && 0 <= b < names@.len() && (
                        #[trigger] names@[a])@ == (#[trigger] names@[b])@ implies a == b by {
                        assert(ps[a].0 == ps[b].0);
                    }
                    assert(lists_keys(self@[entity].components, names@));
                }
                Ok(names)
            },
        }
    }

    /// Every object that has all of `components` and `with` and none of
    /// `without`, each with its components under `components`.
    pub fn query(&self, components: &Vec<String>, with: &Vec<String>, without: &Vec<String>) -> (r:
        Vec<QueryRow>)
        requires
            self.wf(),
        ensures
            forall|i: int|
                0 <= i < r@.len() ==> {
                    &&& self@.contains_key((#[trigger] r@[i]).entity)
                    &&& matches_query(self@[r@[i].entity], components@, with@, without@)
                    &&& picked(self@[r@[i].entity].components, components@, r@[i].components@)
                },
            forall|id: u64|
                self@.contains_key(id) && matches_query(self@[id], components@, with@, without@)
                    ==> exists|i: int| 0 <= i < r@.len() && (#[trigger] r@[i]).entity == id,
            forall|i: int, j: int|
                0 <= i < r@.len() && 0 <= j < r@.len() && (#[trigger] r@[i]).entity == (
                #[trigger] r@[j]).entity ==> i == j,
    {
        let ghost es = self.entities@;
        let ghost eps = entity_pairs(es);
        let mut rows: Vec<QueryRow> = Vec::new();
        let ghost mut origin: Seq<int> = Seq::empty();
        let mut k: usize = 0;
        while k < self.entities.len()
            invariant
                self.wf(),
                es == self.entities@,
                eps == entity_pairs(es),
                k <= es.len(),
                origin.len() == rows@.len(),
                forall|i: int|
                    0 <= i < rows@.len() ==> {
                        &&& 0 <= #[trigger] origin[i] < k
                        &&& es[origin[i]].id == rows@[i].entity
                        &&& matches_query(es[origin[i]].view(), components@, with@, without@)
                        &&& picked(es[origin[i]].view().components, components@, rows@[i].components@)
                    },
                forall|a: int, b: int|
                    0 <= a < b < rows@.len() ==> #[trigger] origin[a] < #[trigger] origin[b],
                forall|j: int|
                    0 <= j < k && matches_query(
                        (#[trigger] es[j]).view(),
                        components@,
                        with@,
                        without@,
                    ) ==> exists|i: int| 0 <= i < rows@.len() && origin[i] == j,
            decreases es.len() - k,
        {
            let rec = &self.entities[k];
            proof {
                assert(es[k as int].wf());
            }
            let picked_now = pick(&rec.components, components);
            let with_ok = pick(&rec.components, with);
            let none_ok = lacks_all(&rec.components, without);
            proof {
                let m = es[k as int].view().components;
                assert(m == to_map(pairs(rec.components@)));
                match picked_now {
                    Err(i) => {
                        assert(!m.contains_key(components@[i as int]@));
                    },
                    Ok(_) => {},
                }
                match with_ok {
                    Err(i) => {
                        assert(!m.contains_key(with@[i as int]@));
                    },
                    Ok(_) => {},
                }
            }
            let ghost origin_before = origin;
            match picked_now {
                Ok(cs) => {
                    if with_ok.is_ok() && none_ok {
                        rows.push(QueryRow { entity: rec.id, components: cs });
                        proof {
                            origin = origin.push(k as int);
                        }
                    }
                },
                Err(_) => {},
            }
            proof {
                assert forall|j: int|
                    0 <= j < k + 1 && matches_query(
                        (#[trigger] es[j]).view(),
                        components@,
                        with@,
                        without@,
                    ) implies exists|i: int| 0 <= i < rows@.len() && origin[i] == j by {
                    if j == k {
                        assert(origin[rows@.len() - 1] == j);
                    } else {
                        let i = choose|i: int|
                            0 <= i < origin_before.len() && origin_before[i] == j;
                        assert(origin[i] == j);
                    }
                }
            }
            k = k + 1;
        }
        proof {
            assert forall|i: int| 0 <= i < rows@.len() implies {
                &&& self@.contains_key((#[trigger] rows@[i]).entity)
                &&& matches_query(self@[rows@[i].entity], components@, with@, without@)
                &&& picked(self@[rows@[i].entity].components, components@, rows@[i].components@)
            } by {
                lemma_unique_at(eps, origin[i]);
            }
            assert forall|id: u64|
                self@.contains_key(id) && matches_query(self@[id], components@, with@, without@)
                    implies exists|i: int| 0 <= i < rows@.len() && (#[trigger] rows@[i]).entity
                == id by {
                lemma_to_map_dom(eps, id);
                let j = choose|j: int| 0 <= j < eps.len() && #[trigger] eps[j].0 == id;
                lemma_unique_at(eps, j);
                assert(matches_query(es[j].view(), components@, with@, without@));
                let i = choose|i: int| 0 <= i < rows@.len() && origin[i] == j;
                assert(rows@[i].entity == id);
            }
            assert forall|a: int, b: int|
                0 <= a < rows@.len() && 0 <= b < rows@.len() && (#[trigger] rows@[a]).entity == (
                #[trigger] rows@[b]).entity implies a == b by {
                assert(eps[origin[a]].0 == eps[origin[b]].0);
                if a < b {
                    assert(origin[a] < origin[b]);
                } else if b < a {
                    assert(origin[b] < origin[a]);
                }
            }
        }
        rows
    }
}

} // verus!
