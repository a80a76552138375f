//! The operations on the registry. Each one changes the registry in memory
//! only; the caller holds the lock around the call and persists afterwards.
use vstd::prelude::*;
use crate::error::{AppError, ErrorKind};
use crate::ids::random_uuid;
use crate::models::{AddPlantPayload, Plant, PlantView, UpdatePlantPayload};
use crate::registry::{has_id, ids_unique, index_of, lemma_index_of, Registry};

verus! {

/// A new plant: created today, never watered nor fertilized, no images.
pub open spec fn new_plant_view(id: u128, name: Seq<char>, watering: u32, fertilizing: u32, today: i32) -> PlantView {
    PlantView {
        id,
        name,
        watering_frequency_days: watering,
        fertilizing_frequency_days: fertilizing,
        last_watered: None,
        last_fertilized: None,
        image_filenames: Seq::empty(),
        created_at: today,
    }
}

/// The plant with its name and frequencies replaced.
pub open spec fn with_settings(p: PlantView, name: Seq<char>, watering: u32, fertilizing: u32) -> PlantView {
    PlantView {
        name,
        watering_frequency_days: watering,
        fertilizing_frequency_days: fertilizing,
        ..p
    }
}

/// The plant watered on day `today`.
pub open spec fn watered_on(p: PlantView, today: i32) -> PlantView {
    PlantView { last_watered: Some(today), ..p }
}

/// The plant fertilized on day `today`.
pub open spec fn fertilized_on(p: PlantView, today: i32) -> PlantView {
    PlantView { last_fertilized: Some(today), ..p }
}

/// The registry after marking plant `id` watered on day `today`.
pub open spec fn mark_watered_in(s: Seq<PlantView>, id: u128, today: i32) -> Seq<PlantView> {
    if has_id(s, id) {
        s.update(index_of(s, id), watered_on(s[index_of(s, id)], today))
    } else {
        s
    }
}

/// The registry after marking plant `id` fertilized on day `today`.
pub open spec fn mark_fertilized_in(s: Seq<PlantView>, id: u128, today: i32) -> Seq<PlantView> {
    if has_id(s, id) {
        s.update(index_of(s, id), fertilized_on(s[index_of(s, id)], today))
    } else {
        s
    }
}

/// The registry after deleting plant `id`.
pub open spec fn delete_in(s: Seq<PlantView>, id: u128) -> Seq<PlantView> {
    if has_id(s, id) {
        s.remove(index_of(s, id))
    } else {
        s
    }
}

/// Adds a plant with identifier `id`, created on day `today`. Fails, with
/// nothing changed, when `id` is taken.
pub fn insert_plant(registry: &mut Registry, id: u128, payload: AddPlantPayload, today: i32) -> (r: Result<Plant, AppError>)
    requires
        old(registry).wf(),
    ensures
        final(registry).wf(),
        r is Err <==> has_id(old(registry)@, id),
        r is Err ==> r->Err_0.kind == ErrorKind::Internal && final(registry)@ == old(registry)@,
        r is Ok ==> r->Ok_0@ == new_plant_view(
            id,
            payload.name@,
            payload.watering_frequency_days,
            payload.fertilizing_frequency_days,
            today,
        ) && final(registry)@ == old(registry)@.push(r->Ok_0@),
{
    if registry.find_index(id).is_some() {
        return Err(AppError::internal());
    }
    let p = Plant {
        id,
        name: payload.name,
        watering_frequency_days: payload.watering_frequency_days,
        fertilizing_frequency_days: payload.fertilizing_frequency_days,
        last_watered: None,
        last_fertilized: None,
        image_filenames: Vec::new(),
        created_at: today,
    };
    assert(p@.image_filenames =~= Seq::<Seq<char>>::empty());
    let out = p.clone();
    registry.push(p);
    Ok(out)
}

/// Adds a plant under a fresh random identifier, created on day `today`.
/// It fails, with nothing changed, only when the drawn identifier is taken,
/// so never on an empty registry.
pub fn add_plant(registry: &mut Registry, payload: AddPlantPayload, today: i32) -> (r: Result<Plant, AppError>)
    requires
        old(registry).wf(),
    ensures
        final(registry).wf(),
        r is Err ==> old(registry)@.len() > 0,
        r is Ok ==> crate::ids::is_v4(r->Ok_0.id),
        r is Err ==> r->Err_0.kind == ErrorKind::Internal && final(registry)@ == old(registry)@,
        r is Ok ==> !has_id(old(registry)@, r->Ok_0.id) && r->Ok_0@ == new_plant_view(
            r->Ok_0.id,
            payload.name@,
            payload.watering_frequency_days,
            payload.fertilizing_frequency_days,
            today,
        ) && final(registry)@ == old(registry)@.push(r->Ok_0@),
{
    let id = random_uuid();
    insert_plant(registry, id, payload, today)
}

/// A copy of every plant, in registry order.
pub fn get_plants(registry: &Registry) -> (r: Vec<Plant>)
    ensures
        crate::registry::plant_views(r@) == registry@,
{
    registry.snapshot()
}

/// The plant with identifier `id`, or not-found.
pub fn get_plant_by_id(registry: &Registry, id: u128) -> (r: Result<Plant, AppError>)
    requires
        registry.wf(),
    ensures
        r is Ok <==> has_id(registry@, id),
        r is Ok ==> r->Ok_0@ == registry@[index_of(registry@, id)],
        r is Err ==> r->Err_0.kind == ErrorKind::NotFound,
{
    match registry.find_index(id) {
        Some(i) => Ok(registry.get(i).clone()),
        None => Err(AppError::not_found()),
    }
}

/// Replaces the name and both frequencies of plant `id`; its dates and
/// images stay. Not-found, with nothing changed, when there is no such plant.
pub fn update_plant(registry: &mut Registry, id: u128, payload: UpdatePlantPayload) -> (r: Result<Plant, AppError>)
    requires
        old(registry).wf(),
    ensures
        final(registry).wf(),
        r is Ok <==> has_id(old(registry)@, id),
        r is Err ==> r->Err_0.kind == ErrorKind::NotFound && final(registry)@ == old(registry)@,
        r is Ok ==> {
            let k = index_of(old(registry)@, id);
            let p = with_settings(
                old(registry)@[k],
                payload.name@,
                payload.watering_frequency_days,
                payload.fertilizing_frequency_days,
            );
            &&& r->Ok_0@ == p
            &&& final(registry)@ == old(registry)@.update(k, p)
        },
{
    match registry.find_index(id) {
        None => Err(AppError::not_found()),
        Some(i) => {
            let mut p = registry.get(i).clone();
            p.name = payload.name;
            p.watering_frequency_days = payload.watering_frequency_days;
            p.fertilizing_frequency_days = payload.fertilizing_frequency_days;
            let out = p.clone();
            registry.set(i, p);
            Ok(out)
        },
    }
}

/// Removes plant `id`. Not-found, with nothing changed, when there is no
/// such plant.
pub fn delete_plant(registry: &mut Registry, id: u128) -> (r: Result<(), AppError>)
    requires
        old(registry).wf(),
    ensures
        final(registry).wf(),
        r is Ok <==> has_id(old(registry)@, id),
        r is Err ==> r->Err_0.kind == ErrorKind::NotFound,
        final(registry)@ == delete_in(old(registry)@, id),
{
    match registry.find_index(id) {
        None => Err(AppError::not_found()),
        Some(i) => {
            registry.remove(i);
            Ok(())
        },
    }
}

/// Records that plant `id` was watered on day `today`.
pub fn mark_watered(registry: &mut Registry, id: u128, today: i32) -> (r: Result<Plant, AppError>)
    requires
        old(registry).wf(),
    ensures
        final(registry).wf(),
        r is Ok <==> has_id(old(registry)@, id),
        r is Err ==> r->Err_0.kind == ErrorKind::NotFound,
        final(registry)@ == mark_watered_in(old(registry)@, id, today),
        r is Ok ==> r->Ok_0@ == watered_on(old(registry)@[index_of(old(registry)@, id)], today),
{
    match registry.find_index(id) {
        None => Err(AppError::not_found()),
        Some(i) => {
            let mut p = registry.get(i).clone();
            p.last_watered = Some(today);
            let out = p.clone();
            registry.set(i, p);
            Ok(out)
        },
    }
}

/// Records that plant `id` was fertilized on day `today`.
pub fn mark_fertilized(registry: &mut Registry, id: u128, today: i32) -> (r: Result<Plant, AppError>)
    requires
        old(registry).wf(),
    ensures
        final(registry).wf(),
        r is Ok <==> has_id(old(registry)@, id),
        r is Err ==> r->Err_0.kind == ErrorKind::NotFound,
        final(registry)@ == mark_fertilized_in(old(registry)@, id, today),
        r is Ok ==> r->Ok_0@ == fertilized_on(old(registry)@[index_of(old(registry)@, id)], today),
{
    match registry.find_index(id) {
        None => Err(AppError::not_found()),
        Some(i) => {
            let mut p = registry.get(i).clone();
            p.last_fertilized = Some(today);
            let out = p.clone();
            registry.set(i, p);
            Ok(out)
        },
    }
}

/// After a deletion no plant has the deleted identifier, the rest keep their
/// order, and deleting again changes nothing (the second call is not-found).
pub proof fn lemma_delete_idempotent(s: Seq<PlantView>, id: u128)
    requires
        ids_unique(s),
    ensures
        !has_id(delete_in(s, id), id),
        delete_in(delete_in(s, id), id) == delete_in(s, id),
        has_id(s, id) ==> delete_in(s, id).len() + 1 == s.len(),
        forall|i: int| 0 <= i < s.len() && s[i].id != id ==> #[trigger] delete_in(s, id).contains(s[i]),
{
    if has_id(s, id) {
        let k = index_of(s, id);
        let d = s.remove(k);
        if has_id(d, id) {
            let j = choose|j: int| 0 <= j < d.len() && d[j].id == id;
            let j2 = if j < k { j } else { j + 1 };
            assert(s[j2].id == s[k].id);
        }
        assert forall|i: int| 0 <= i < s.len() && s[i].id != id implies #[trigger] d.contains(s[i]) by {
            if i < k {
                assert(d[i] == s[i]);
            } else {
                assert(d[i - 1] == s[i]);
            }
        }
    }
}

/// Marking a plant watered twice on one day gives the same registry as
/// marking it once.
pub proof fn lemma_mark_watered_idempotent(s: Seq<PlantView>, id: u128, today: i32)
    requires
        ids_unique(s),
    ensures
        mark_watered_in(mark_watered_in(s, id, today), id, today) == mark_watered_in(s, id, today),
{
    if has_id(s, id) {
        let k = index_of(s, id);
        let m = mark_watered_in(s, id, today);
        assert(ids_unique(m)) by {
            assert forall|a: int, b: int|
                0 <= a < m.len() && 0 <= b < m.len() && #[trigger] m[a].id == #[trigger] m[b].id implies a == b by {
                assert(s[a].id == m[a].id && s[b].id == m[b].id);
            }
        }
        lemma_index_of(m, id, k);
        assert(watered_on(m[k], today) == m[k]);
        assert(m.update(k, m[k]) =~= m);
    }
}

/// Marking a plant fertilized twice on one day gives the same registry as
/// marking it once.
pub proof fn lemma_mark_fertilized_idempotent(s: Seq<PlantView>, id: u128, today: i32)
    requires
        ids_unique(s),
    ensures
        mark_fertilized_in(mark_fertilized_in(s, id, today), id, today) == mark_fertilized_in(s, id, today),
{
    if has_id(s, id) {
        let k = index_of(s, id);
        let m = mark_fertilized_in(s, id, today);
        assert(ids_unique(m)) by {
            assert forall|a: int, b: int|
                0 <= a < m.len() && 0 <= b < m.len() && #[trigger] m[a].id == #[trigger] m[b].id implies a == b by {
                assert(s[a].id == m[a].id && s[b].id == m[b].id);
            }
        }
        lemma_index_of(m, id, k);
        assert(fertilized_on(m[k], today) == m[k]);
        assert(m.update(k, m[k]) =~= m);
    }
}

/// Two successful additions give plants with distinct identifiers, and both
/// are in the registry afterwards.
pub proof fn lemma_two_adds_both_kept(s: Seq<PlantView>, a: PlantView, b: PlantView)
    requires
        ids_unique(s),
        !has_id(s, a.id),
        !has_id(s.push(a), b.id),
    ensures
        a.id != b.id,
        ids_unique(s.push(a).push(b)),
        s.push(a).push(b).contains(a),
        s.push(a).push(b).contains(b),
{
    let t = s.push(a);
    let u = t.push(b);
    assert(t[s.len() as int] == a);
    assert(u[s.len() as int] == a);
    assert(u[t.len() as int] == b);
    assert forall|i: int, j: int|
        0 <= i < u.len() && 0 <= j < u.len() && #[trigger] u[i].id == #[trigger] u[j].id implies i == j by {
        if i < s.len() && j < s.len() {
            assert(s[i].id == s[j].id);
        } else if i < s.len() && j == s.len() {
            assert(s[i].id == a.id);
        } else if j < s.len() && i == s.len() {
            assert(s[j].id == a.id);
        } else if i < t.len() && j == t.len() {
            assert(t[i].id == b.id);
        } else if j < t.len() && i == t.len() {
            assert(t[j].id == b.id);
        }
    }
}

} // verus!
