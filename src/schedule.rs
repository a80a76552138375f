//! The schedule: upcoming and overdue care tasks derived from a registry
//! snapshot and the current day.
use vstd::prelude::*;
use crate::models::{
    days_overdue, next_fertilizing_due_of, next_watering_due_of, Plant, PlantTask,
    PlantTaskView, PlantView, ScheduleResponse, TaskKind,
};
use crate::registry::{ids_unique, Registry};

verus! {

/// Width, in days after today, of the upcoming window.
pub const UPCOMING_WINDOW_DAYS: i64 = 3;

/// A task is overdue when its due day is strictly before today.
pub open spec fn is_overdue(due: int, today: int) -> bool {
    due < today
}

/// A task is upcoming when it is due from today through the end of the window.
pub open spec fn is_upcoming(due: int, today: int) -> bool {
    today <= due <= today + UPCOMING_WINDOW_DAYS
}

pub open spec fn due_of(p: PlantView, kind: TaskKind) -> int {
    match kind {
        TaskKind::Watering => next_watering_due_of(p),
        TaskKind::Fertilizing => next_fertilizing_due_of(p),
    }
}

/// The task of kind `kind` for plant `p`, as seen on day `today`.
pub open spec fn task_of(p: PlantView, kind: TaskKind, today: int) -> PlantTaskView {
    PlantTaskView {
        plant_id: p.id,
        plant_name: p.name,
        task_type: kind,
        due_date: due_of(p, kind) as i64,
        days_overdue: days_overdue(due_of(p, kind), today),
    }
}

/// Whether a task belongs to the overdue list (`overdue`) or to the
/// upcoming list (`!overdue`).
pub open spec fn selected(t: PlantTaskView, today: int, overdue: bool) -> bool {
    if overdue {
        is_overdue(t.due_date as int, today)
    } else {
        is_upcoming(t.due_date as int, today)
    }
}

/// The tasks of one list in the order the plants are visited: for each plant,
/// watering before fertilizing.
pub open spec fn collect_tasks(plants: Seq<PlantView>, today: int, overdue: bool) -> Seq<
    PlantTaskView,
>
    decreases plants.len(),
{
    if plants.len() == 0 {
        Seq::empty()
    } else {
        let rest = collect_tasks(plants.drop_last(), today, overdue);
        let p = plants.last();
        let w = task_of(p, TaskKind::Watering, today);
        let f = task_of(p, TaskKind::Fertilizing, today);
        let with_w = if selected(w, today, overdue) {
            rest.push(w)
        } else {
            rest
        };
        if selected(f, today, overdue) {
            with_w.push(f)
        } else {
            with_w
        }
    }
}

/// Inserts `t` after every task whose due day is not later than its own.
pub open spec fn insert_by_due(s: Seq<PlantTaskView>, t: PlantTaskView) -> Seq<PlantTaskView>
    decreases s.len(),
{
    if s.len() == 0 {
        seq![t]
    } else if s.last().due_date <= t.due_date {
        s.push(t)
    } else {
        insert_by_due(s.drop_last(), t).push(s.last())
    }
}

/// Stable sort by due day: insertion of each task in turn.
pub open spec fn sort_by_due(s: Seq<PlantTaskView>) -> Seq<PlantTaskView>
    decreases s.len(),
{
    if s.len() == 0 {
        s
    } else {
        insert_by_due(sort_by_due(s.drop_last()), s.last())
    }
}

pub open spec fn sorted_by_due(s: Seq<PlantTaskView>) -> bool {
    forall|i: int, j: int| 0 <= i <= j < s.len() ==> s[i].due_date <= s[j].due_date
}

pub open spec fn task_views(v: Seq<PlantTask>) -> Seq<PlantTaskView> {
    v.map_values(|t: PlantTask| t@)
}

/// The upcoming list of the schedule of `plants` on day `today`.
pub open spec fn upcoming_of(plants: Seq<PlantView>, today: int) -> Seq<PlantTaskView> {
    sort_by_due(collect_tasks(plants, today, false))
}

/// The overdue list of the schedule of `plants` on day `today`.
pub open spec fn overdue_of(plants: Seq<PlantView>, today: int) -> Seq<PlantTaskView> {
    sort_by_due(collect_tasks(plants, today, true))
}

proof fn lemma_insert_at(s: Seq<PlantTaskView>, t: PlantTaskView, k: int)
    requires
        0 <= k <= s.len(),
        forall|j: int| k <= j < s.len() ==> s[j].due_date > t.due_date,
        k == 0 || s[k - 1].due_date <= t.due_date,
    ensures
        insert_by_due(s, t) == s.insert(k, t),
    decreases s.len(),
{
    if s.len() == 0 {
        assert(s.insert(k, t) =~= seq![t]);
    } else if k == s.len() {
        assert(s.insert(k, t) =~= s.push(t));
    } else {
        lemma_insert_at(s.drop_last(), t, k);
        assert(s.drop_last().insert(k, t).push(s.last()) =~= s.insert(k, t));
    }
}

proof fn lemma_insert_keeps(s: Seq<PlantTaskView>, t: PlantTaskView)
    ensures
        insert_by_due(s, t).len() == s.len() + 1,
        forall|x: PlantTaskView| #[trigger]
            insert_by_due(s, t).contains(x) <==> s.contains(x) || x == t,
        sorted_by_due(s) ==> sorted_by_due(insert_by_due(s, t)),
    decreases s.len(),
{
    if s.len() == 0 {
        assert(insert_by_due(s, t) =~= seq![t]);
        assert forall|x: PlantTaskView| #[trigger]
            insert_by_due(s, t).contains(x) <==> s.contains(x) || x == t by {
            if x == t {
                assert(insert_by_due(s, t)[0] == t);
            }
        }
    } else if s.last().due_date <= t.due_date {
        let r = s.push(t);
        assert forall|x: PlantTaskView| #[trigger] r.contains(x) <==> s.contains(x) || x == t by {
            if s.contains(x) {
                let i = choose|i: int| 0 <= i < s.len() && s[i] == x;
                assert(r[i] == x);
            }
            if x == t {
                assert(r[s.len() as int] == t);
            }
            if r.contains(x) {
                let i = choose|i: int| 0 <= i < r.len() && r[i] == x;
                if i < s.len() {
                    assert(s[i] == x);
                }
            }
        }
    } else {
        let d = s.drop_last();
        lemma_insert_keeps(d, t);
        let m = insert_by_due(d, t);
        let r = m.push(s.last());
        assert(s =~= d.push(s.last()));
        assert forall|x: PlantTaskView| #[trigger] r.contains(x) <==> s.contains(x) || x == t by {
            if s.contains(x) {
                let i = choose|i: int| 0 <= i < s.len() && s[i] == x;
                if i < d.len() {
                    assert(d[i] == x);
                    assert(m.contains(x));
                    let k = choose|k: int| 0 <= k < m.len() && m[k] == x;
                    assert(r[k] == x);
                } else {
                    assert(r[m.len() as int] == x);
                }
            }
            if x == t {
                assert(m.contains(x));
                let k = choose|k: int| 0 <= k < m.len() && m[k] == x;
                assert(r[k] == x);
            }
            if r.contains(x) {
                let i = choose|i: int| 0 <= i < r.len() && r[i] == x;
                if i < m.len() {
                    assert(m[i] == x);
                    assert(m.contains(x));
                    if d.contains(x) {
                        let k = choose|k: int| 0 <= k < d.len() && d[k] == x;
                        assert(s[k] == x);
                    }
                } else {
                    assert(s[s.len() - 1] == x);
                }
            }
        }
        if sorted_by_due(s) {
            assert(sorted_by_due(d));
            assert forall|i: int, j: int| 0 <= i <= j < r.len() implies r[i].due_date
                <= r[j].due_date by {
                if j == r.len() - 1 && i < j {
                    let x = r[i];
                    assert(m[i] == x);
                    assert(m.contains(x));
                    if x != t {
                        assert(d.contains(x));
                        let k = choose|k: int| 0 <= k < d.len() && d[k] == x;
                        assert(s[k] == x);
                    }
                }
            }
        }
    }
}

/// Sorting keeps exactly the same tasks and orders them by due day.
pub proof fn lemma_sort_by_due(s: Seq<PlantTaskView>)
    ensures
        sort_by_due(s).len() == s.len(),
        sorted_by_due(sort_by_due(s)),
        forall|x: PlantTaskView| #[trigger] sort_by_due(s).contains(x) <==> s.contains(x),
    decreases s.len(),
{
    if s.len() > 0 {
        let d = s.drop_last();
        lemma_sort_by_due(d);
        lemma_insert_keeps(sort_by_due(d), s.last());
        assert(s =~= d.push(s.last()));
        assert forall|x: PlantTaskView| #[trigger] sort_by_due(s).contains(x) <==> s.contains(x) by {
            if s.contains(x) && x != s.last() {
                let i = choose|i: int| 0 <= i < s.len() && s[i] == x;
                assert(d[i] == x);
            }
            if d.contains(x) {
                let i = choose|i: int| 0 <= i < d.len() && d[i] == x;
                assert(s[i] == x);
            }
            if x == s.last() {
                assert(s[s.len() - 1] == x);
            }
        }
    }
}

/// Every collected task belongs to its list, and every task of a plant that
/// belongs to the list is collected.
pub proof fn lemma_collect_tasks(plants: Seq<PlantView>, today: int, overdue: bool)
    ensures
        forall|x: PlantTaskView| #[trigger]
            collect_tasks(plants, today, overdue).contains(x) ==> selected(x, today, overdue)
                && x.days_overdue == days_overdue(x.due_date as int, today),
        forall|i: int, kind: TaskKind|
            0 <= i < plants.len() && selected(#[trigger] task_of(plants[i], kind, today), today, overdue)
                ==> collect_tasks(plants, today, overdue).contains(task_of(plants[i], kind, today)),
    decreases plants.len(),
{
    if plants.len() > 0 {
        let d = plants.drop_last();
        lemma_collect_tasks(d, today, overdue);
        let rest = collect_tasks(d, today, overdue);
        let r = collect_tasks(plants, today, overdue);
        let p = plants.last();
        let w = task_of(p, TaskKind::Watering, today);
        let f = task_of(p, TaskKind::Fertilizing, today);
        let with_w = if selected(w, today, overdue) { rest.push(w) } else { rest };
        assert(r == if selected(f, today, overdue) { with_w.push(f) } else { with_w });
        assert forall|x: PlantTaskView| #[trigger] r.contains(x) implies selected(x, today, overdue)
            && x.days_overdue == days_overdue(x.due_date as int, today) by {
            let k = choose|k: int| 0 <= k < r.len() && r[k] == x;
            if k < rest.len() {
                assert(rest[k] == x);
                assert(rest.contains(x));
            }
        }
        assert forall|i: int, kind: TaskKind|
            0 <= i < plants.len() && selected(#[trigger] task_of(plants[i], kind, today), today, overdue)
            implies r.contains(task_of(plants[i], kind, today)) by {
            let x = task_of(plants[i], kind, today);
            if i < d.len() {
                assert(d[i] == plants[i]);
                assert(rest.contains(x));
                let k = choose|k: int| 0 <= k < rest.len() && rest[k] == x;
                assert(r[k] == x);
            } else if kind == TaskKind::Watering {
                assert(with_w[rest.len() as int] == x);
                assert(r[rest.len() as int] == x);
            } else {
                assert(r[with_w.len() as int] == x);
            }
        }
    }
}

/// Inserts `t` into `v` after every task whose due day is not later.
fn insert_task(v: &mut Vec<PlantTask>, t: PlantTask)
    ensures
        task_views(final(v)@) == insert_by_due(task_views(old(v)@), t@),
{
    let ghost tv = t@;
    let mut k: usize = v.len();
    while k > 0 && v[k - 1].due_date > t.due_date
        invariant
            k <= v.len(),
            forall|j: int| k <= j < v.len() ==> v@[j].due_date > t.due_date,
        decreases k,
    {
        k -= 1;
    }
    proof {
        lemma_insert_at(task_views(v@), tv, k as int);
    }
    let ghost before = v@;
    v.insert(k, t);
    assert(task_views(v@) =~= task_views(before).insert(k as int, tv));
}

fn make_task(p: &Plant, kind: TaskKind, due: i64, overdue_days: Option<i64>) -> (r: PlantTask)
    ensures
        r@ == (PlantTaskView {
            plant_id: p.id,
            plant_name: p.name@,
            task_type: kind,
            due_date: due,
            days_overdue: overdue_days,
        }),
{
    PlantTask {
        plant_id: p.id,
        plant_name: p.name.clone(),
        task_type: kind,
        due_date: due,
        days_overdue: overdue_days,
    }
}

proof fn lemma_sort_push(s: Seq<PlantTaskView>, t: PlantTaskView)
    ensures
        sort_by_due(s.push(t)) == insert_by_due(sort_by_due(s), t),
{
    assert(s.push(t).drop_last() =~= s);
}

/// The schedule of the registry on day `today`: the upcoming tasks (due from
/// today through three days later) and the overdue tasks (due before today),
/// each sorted by due day, ties in plant order, watering before fertilizing.
pub fn get_schedule(registry: &Registry, today: i32) -> (r: ScheduleResponse)
    ensures
        task_views(r.upcoming_tasks@) == upcoming_of(registry@, today as int),
        task_views(r.overdue_tasks@) == overdue_of(registry@, today as int),
        sorted_by_due(task_views(r.upcoming_tasks@)),
        sorted_by_due(task_views(r.overdue_tasks@)),
        forall|i: int|
            0 <= i < r.upcoming_tasks@.len() ==> is_upcoming(
                #[trigger] r.upcoming_tasks@[i].due_date as int,
                today as int,
            ) && r.upcoming_tasks@[i].days_overdue is None,
        forall|i: int|
            0 <= i < r.overdue_tasks@.len() ==> is_overdue(
                #[trigger] r.overdue_tasks@[i].due_date as int,
                today as int,
            ) && r.overdue_tasks@[i].days_overdue == days_overdue(
                r.overdue_tasks@[i].due_date as int,
                today as int,
            ),
{
    let mut upcoming: Vec<PlantTask> = Vec::new();
    let mut overdue: Vec<PlantTask> = Vec::new();
    let window_end: i64 = today as i64 + UPCOMING_WINDOW_DAYS;
    let n = registry.len();
    let ghost all = registry@;
    let mut i: usize = 0;
    while i < n
        invariant
            n == all.len(),
            all == registry@,
            i <= n,
            window_end == today + UPCOMING_WINDOW_DAYS,
            task_views(upcoming@) == sort_by_due(collect_tasks(all.take(i as int), today as int, false)),
            task_views(overdue@) == sort_by_due(collect_tasks(all.take(i as int), today as int, true)),
        decreases n - i,
    {
        let p = registry.get(i);
        let ghost pv = all[i as int];
        let ghost prefix = all.take(i + 1);
        assert(prefix.drop_last() =~= all.take(i as int));
        assert(prefix.last() == pv);
        let ghost up0 = collect_tasks(all.take(i as int), today as int, false);
        let ghost ov0 = collect_tasks(all.take(i as int), today as int, true);
        let ghost wt = task_of(pv, TaskKind::Watering, today as int);
        let ghost ft = task_of(pv, TaskKind::Fertilizing, today as int);

        let w = p.next_watering_due();
        if w < today as i64 {
            let t = make_task(p, TaskKind::Watering, w, p.watering_days_overdue(today));
            assert(t@ == wt);
            insert_task(&mut overdue, t);
            proof { lemma_sort_push(ov0, wt); }
        } else if w <= window_end {
            let t = make_task(p, TaskKind::Watering, w, None);
            assert(t@ == wt);
            insert_task(&mut upcoming, t);
            proof { lemma_sort_push(up0, wt); }
        }
        let ghost up1 = if selected(wt, today as int, false) { up0.push(wt) } else { up0 };
        let ghost ov1 = if selected(wt, today as int, true) { ov0.push(wt) } else { ov0 };
        assert(task_views(upcoming@) == sort_by_due(up1));
        assert(task_views(overdue@) == sort_by_due(ov1));

        let f = p.next_fertilizing_due();
        if f < today as i64 {
            let t = make_task(p, TaskKind::Fertilizing, f, p.fertilizing_days_overdue(today));
            assert(t@ == ft);
            insert_task(&mut overdue, t);
            proof { lemma_sort_push(ov1, ft); }
        } else if f <= window_end {
            let t = make_task(p, TaskKind::Fertilizing, f, None);
            assert(t@ == ft);
            insert_task(&mut upcoming, t);
            proof { lemma_sort_push(up1, ft); }
        }
        i += 1;
    }
    assert(all.take(n as int) =~= all);
    proof {
        let cu = collect_tasks(all, today as int, false);
        let co = collect_tasks(all, today as int, true);
        lemma_sort_by_due(cu);
        lemma_sort_by_due(co);
        lemma_collect_tasks(all, today as int, false);
        lemma_collect_tasks(all, today as int, true);
        assert forall|i: int| 0 <= i < upcoming@.len() implies is_upcoming(
            #[trigger] upcoming@[i].due_date as int, today as int) && upcoming@[i].days_overdue is None by {
            let x = task_views(upcoming@)[i];
            assert(sort_by_due(cu).contains(x));
            assert(cu.contains(x));
        }
        assert forall|i: int| 0 <= i < overdue@.len() implies is_overdue(
            #[trigger] overdue@[i].due_date as int, today as int)
            && overdue@[i].days_overdue == days_overdue(overdue@[i].due_date as int, today as int) by {
            let x = task_views(overdue@)[i];
            assert(sort_by_due(co).contains(x));
            assert(co.contains(x));
        }
    }
    ScheduleResponse { upcoming_tasks: upcoming, overdue_tasks: overdue }
}

/// Each task of each plant is in the overdue list exactly when its due day
/// is before today, and in the upcoming list exactly when it is due from today
/// through the end of the window; never in both. An overdue task carries
/// `today - due` days overdue, an upcoming one none.
pub proof fn lemma_schedule_classification(plants: Seq<PlantView>, today: i32, i: int, kind: TaskKind)
    requires
        0 <= i < plants.len(),
    ensures
        ({
            let t = task_of(plants[i], kind, today as int);
            let due = due_of(plants[i], kind);
            &&& t.due_date == due
            &&& overdue_of(plants, today as int).contains(t) <==> is_overdue(due, today as int)
            &&& upcoming_of(plants, today as int).contains(t) <==> is_upcoming(due, today as int)
            &&& !(is_overdue(due, today as int) && is_upcoming(due, today as int))
            &&& is_overdue(due, today as int) ==> t.days_overdue == Some((today - due) as i64)
            &&& !is_overdue(due, today as int) ==> t.days_overdue is None
        }),
{
    lemma_collect_tasks(plants, today as int, true);
    lemma_collect_tasks(plants, today as int, false);
    lemma_sort_by_due(collect_tasks(plants, today as int, true));
    lemma_sort_by_due(collect_tasks(plants, today as int, false));
    let t = task_of(plants[i], kind, today as int);
    assert(selected(t, today as int, true) == is_overdue(t.due_date as int, today as int));
}

/// No two tasks of a list are for the same plant and the same kind of care.
pub open spec fn task_keys_distinct(s: Seq<PlantTaskView>) -> bool {
    forall|a: int, b: int|
        0 <= a < s.len() && 0 <= b < s.len() && a != b ==> (#[trigger] s[a]).plant_id
            != (#[trigger] s[b]).plant_id || s[a].task_type != s[b].task_type
}

proof fn lemma_collect_origin(plants: Seq<PlantView>, today: int, overdue: bool)
    ensures
        forall|x: PlantTaskView| #[trigger]
            collect_tasks(plants, today, overdue).contains(x) ==> exists|i: int|
                0 <= i < plants.len() && x == task_of(plants[i], x.task_type, today),
    decreases plants.len(),
{
    if plants.len() > 0 {
        let d = plants.drop_last();
        lemma_collect_origin(d, today, overdue);
        let rest = collect_tasks(d, today, overdue);
        let r = collect_tasks(plants, today, overdue);
        let p = plants.last();
        let w = task_of(p, TaskKind::Watering, today);
        let f = task_of(p, TaskKind::Fertilizing, today);
        let with_w = if selected(w, today, overdue) { rest.push(w) } else { rest };
        assert(r == if selected(f, today, overdue) { with_w.push(f) } else { with_w });
        assert forall|x: PlantTaskView| #[trigger] r.contains(x) implies exists|i: int|
            0 <= i < plants.len() && x == task_of(plants[i], x.task_type, today) by {
            let k = choose|k: int| 0 <= k < r.len() && r[k] == x;
            if k < rest.len() {
                assert(rest[k] == x);
                assert(rest.contains(x));
                let i = choose|i: int| 0 <= i < d.len() && x == task_of(d[i], x.task_type, today);
                assert(plants[i] == d[i]);
            } else {
                let last = plants.len() - 1;
                assert(plants[last] == p);
                assert(x == w || x == f);
                assert(x == task_of(plants[last], x.task_type, today));
            }
        }
    }
}

proof fn lemma_collect_distinct(plants: Seq<PlantView>, today: int, overdue: bool)
    requires
        ids_unique(plants),
    ensures
        task_keys_distinct(collect_tasks(plants, today, overdue)),
    decreases plants.len(),
{
    if plants.len() > 0 {
        let d = plants.drop_last();
        assert(ids_unique(d)) by {
            assert forall|a: int, b: int|
                0 <= a < d.len() && 0 <= b < d.len() && #[trigger] d[a].id == #[trigger] d[b].id implies a == b by {
                assert(plants[a] == d[a] && plants[b] == d[b]);
            }
        }
        lemma_collect_distinct(d, today, overdue);
        lemma_collect_origin(d, today, overdue);
        let rest = collect_tasks(d, today, overdue);
        let r = collect_tasks(plants, today, overdue);
        let p = plants.last();
        let last = plants.len() - 1;
        let w = task_of(p, TaskKind::Watering, today);
        let f = task_of(p, TaskKind::Fertilizing, today);
        let with_w = if selected(w, today, overdue) { rest.push(w) } else { rest };
        assert(r == if selected(f, today, overdue) { with_w.push(f) } else { with_w });
        assert forall|k: int| 0 <= k < rest.len() implies (#[trigger] rest[k]).plant_id != p.id by {
            let x = rest[k];
            assert(rest.contains(x));
            let i = choose|i: int| 0 <= i < d.len() && x == task_of(d[i], x.task_type, today);
            assert(plants[i] == d[i]);
            assert(plants[last] == p);
        }
        assert forall|a: int, b: int|
            0 <= a < r.len() && 0 <= b < r.len() && a != b implies (#[trigger] r[a]).plant_id
            != (#[trigger] r[b]).plant_id || r[a].task_type != r[b].task_type by {
            if a < rest.len() && b < rest.len() {
                assert(r[a] == rest[a] && r[b] == rest[b]);
            } else if a < rest.len() {
                assert(r[a] == rest[a]);
                assert(r[b].plant_id == p.id);
            } else if b < rest.len() {
                assert(r[b] == rest[b]);
                assert(r[a].plant_id == p.id);
            }
        }
    }
}

proof fn lemma_insert_distinct(s: Seq<PlantTaskView>, t: PlantTaskView)
    requires
        task_keys_distinct(s),
        forall|k: int| 0 <= k < s.len() ==> (#[trigger] s[k]).plant_id != t.plant_id || s[k].task_type
            != t.task_type,
    ensures
        task_keys_distinct(insert_by_due(s, t)),
    decreases s.len(),
{
    if s.len() == 0 {
        assert(insert_by_due(s, t) =~= seq![t]);
    } else if s.last().due_date <= t.due_date {
        let r = s.push(t);
        assert forall|a: int, b: int|
            0 <= a < r.len() && 0 <= b < r.len() && a != b implies (#[trigger] r[a]).plant_id
            != (#[trigger] r[b]).plant_id || r[a].task_type != r[b].task_type by {
            if a < s.len() && b < s.len() {
                assert(r[a] == s[a] && r[b] == s[b]);
            } else if a < s.len() {
                assert(r[a] == s[a]);
            } else {
                assert(r[b] == s[b]);
            }
        }
    } else {
        let d = s.drop_last();
        let l = s.last();
        assert forall|a: int, b: int|
            0 <= a < d.len() && 0 <= b < d.len() && a != b implies (#[trigger] d[a]).plant_id
            != (#[trigger] d[b]).plant_id || d[a].task_type != d[b].task_type by {
            assert(s[a] == d[a] && s[b] == d[b]);
        }
        assert forall|k: int| 0 <= k < d.len() implies (#[trigger] d[k]).plant_id != t.plant_id
            || d[k].task_type != t.task_type by {
            assert(s[k] == d[k]);
        }
        lemma_insert_distinct(d, t);
        lemma_insert_keeps(d, t);
        let m = insert_by_due(d, t);
        let r = m.push(l);
        assert forall|k: int| 0 <= k < m.len() implies (#[trigger] m[k]).plant_id != l.plant_id
            || m[k].task_type != l.task_type by {
            let x = m[k];
            assert(m.contains(x));
            if x == t {
                assert(s[s.len() - 1] == l);
            } else {
                let j = choose|j: int| 0 <= j < d.len() && d[j] == x;
                assert(s[j] == x);
                assert(s[s.len() - 1] == l);
            }
        }
        assert forall|a: int, b: int|
            0 <= a < r.len() && 0 <= b < r.len() && a != b implies (#[trigger] r[a]).plant_id
            != (#[trigger] r[b]).plant_id || r[a].task_type != r[b].task_type by {
            if a < m.len() && b < m.len() {
                assert(r[a] == m[a] && r[b] == m[b]);
            } else if a < m.len() {
                assert(r[a] == m[a]);
            } else {
                assert(r[b] == m[b]);
            }
        }
    }
}

proof fn lemma_sort_distinct(s: Seq<PlantTaskView>)
    requires
        task_keys_distinct(s),
    ensures
        task_keys_distinct(sort_by_due(s)),
    decreases s.len(),
{
    if s.len() > 0 {
        let d = s.drop_last();
        let l = s.last();
        assert forall|a: int, b: int|
            0 <= a < d.len() && 0 <= b < d.len() && a != b implies (#[trigger] d[a]).plant_id
            != (#[trigger] d[b]).plant_id || d[a].task_type != d[b].task_type by {
            assert(s[a] == d[a] && s[b] == d[b]);
        }
        lemma_sort_distinct(d);
        lemma_sort_by_due(d);
        let m = sort_by_due(d);
        assert forall|k: int| 0 <= k < m.len() implies (#[trigger] m[k]).plant_id != l.plant_id
            || m[k].task_type != l.task_type by {
            let x = m[k];
            assert(m.contains(x));
            let j = choose|j: int| 0 <= j < d.len() && d[j] == x;
            assert(s[j] == x);
            assert(s[s.len() - 1] == l);
        }
        lemma_insert_distinct(m, l);
    }
}

/// With unique plant identifiers, every entry of either list is the task of
/// some plant, no plant and kind of care appears twice in a list, and the two
/// lists hold at most two tasks per plant. Together with the classification
/// above, each plant and kind due by the end of the window is in exactly one
/// list, once, and one due later is in neither.
pub proof fn lemma_schedule_entries(plants: Seq<PlantView>, today: i32)
    requires
        ids_unique(plants),
    ensures
        task_keys_distinct(overdue_of(plants, today as int)),
        task_keys_distinct(upcoming_of(plants, today as int)),
        overdue_of(plants, today as int).len() + upcoming_of(plants, today as int).len() <= 2
            * plants.len(),
        forall|x: PlantTaskView| #[trigger] overdue_of(plants, today as int).contains(x) ==> exists|i: int|
            0 <= i < plants.len() && x == task_of(plants[i], x.task_type, today as int),
        forall|x: PlantTaskView| #[trigger] upcoming_of(plants, today as int).contains(x) ==> exists|i: int|
            0 <= i < plants.len() && x == task_of(plants[i], x.task_type, today as int),
{
    let co = collect_tasks(plants, today as int, true);
    let cu = collect_tasks(plants, today as int, false);
    lemma_collect_origin(plants, today as int, true);
    lemma_collect_origin(plants, today as int, false);
    lemma_collect_distinct(plants, today as int, true);
    lemma_collect_distinct(plants, today as int, false);
    lemma_sort_by_due(co);
    lemma_sort_by_due(cu);
    lemma_sort_distinct(co);
    lemma_sort_distinct(cu);
    lemma_lists_total(plants, today as int);
}

proof fn lemma_lists_total(plants: Seq<PlantView>, today: int)
    ensures
        collect_tasks(plants, today, true).len() + collect_tasks(plants, today, false).len() <= 2
            * plants.len(),
    decreases plants.len(),
{
    if plants.len() > 0 {
        lemma_lists_total(plants.drop_last(), today);
    }
}

} // verus!
