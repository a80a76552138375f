//! Plant records, request payloads and schedule entries, with due-date
//! arithmetic.
use vstd::prelude::*;

verus! {

/// A plant as the registry holds it.
#[derive(Debug)]
pub struct Plant {
    /// Opaque unique identifier (the 128-bit value of a UUID).
    pub id: u128,
    pub name: String,
    pub watering_frequency_days: u32,
    pub fertilizing_frequency_days: u32,
    /// Day number of the last watering, if any.
    pub last_watered: Option<i32>,
    /// Day number of the last fertilizing, if any.
    pub last_fertilized: Option<i32>,
    /// Stored image file names, in upload order.
    pub image_filenames: Vec<String>,
    /// Day number of the day the plant was added.
    pub created_at: i32,
}

/// Mathematical model of a [`Plant`].
pub struct PlantView {
    pub id: u128,
    pub name: Seq<char>,
    pub watering_frequency_days: u32,
    pub fertilizing_frequency_days: u32,
    pub last_watered: Option<i32>,
    pub last_fertilized: Option<i32>,
    pub image_filenames: Seq<Seq<char>>,
    pub created_at: i32,
}

pub open spec fn string_views(v: Seq<String>) -> Seq<Seq<char>> {
    v.map_values(|s: String| s@)
}

impl View for Plant {
    type V = PlantView;

    open spec fn view(&self) -> PlantView {
        PlantView {
            id: self.id,
            name: self.name@,
            watering_frequency_days: self.watering_frequency_days,
            fertilizing_frequency_days: self.fertilizing_frequency_days,
            last_watered: self.last_watered,
            last_fertilized: self.last_fertilized,
            image_filenames: string_views(self.image_filenames@),
            created_at: self.created_at,
        }
    }
}

/// Copies a list of strings, element by element.
fn clone_strings(v: &Vec<String>) -> (r: Vec<String>)
    ensures
        string_views(r@) == string_views(v@),
{
    let mut r: Vec<String> = Vec::new();
    let mut i: usize = 0;
    while i < v.len()
        invariant
            i <= v.len(),
            r.len() == i,
            forall|j: int| 0 <= j < i ==> (#[trigger] r@[j])@ == v@[j]@,
        decreases v.len() - i,
    {
        r.push(v[i].clone());
        i += 1;
    }
    assert(string_views(r@) =~= string_views(v@));
    r
}

impl Clone for Plant {
    fn clone(&self) -> (r: Self)
        ensures
            r@ == self@,
    {
        Plant {
            id: self.id,
            name: self.name.clone(),
            watering_frequency_days: self.watering_frequency_days,
            fertilizing_frequency_days: self.fertilizing_frequency_days,
            last_watered: self.last_watered,
            last_fertilized: self.last_fertilized,
            image_filenames: clone_strings(&self.image_filenames),
            created_at: self.created_at,
        }
    }
}

/// Fields of a new plant.
#[derive(Debug)]
pub struct AddPlantPayload {
    pub name: String,
    pub watering_frequency_days: u32,
    pub fertilizing_frequency_days: u32,
}

/// Replacement values for the editable fields of a plant.
#[derive(Debug)]
pub struct UpdatePlantPayload {
    pub name: String,
    pub watering_frequency_days: u32,
    pub fertilizing_frequency_days: u32,
}

/// The two kinds of care a plant is scheduled for.
#[derive(PartialEq, Eq, Structural, Clone, Copy, Debug)]
pub enum TaskKind {
    Watering,
    Fertilizing,
}

impl TaskKind {
    /// The name of the task kind as it is shown to users.
    pub fn as_str(&self) -> (r: &'static str)
        ensures
            r@ == (match self {
                TaskKind::Watering => "Watering"@,
                TaskKind::Fertilizing => "Fertilizing"@,
            }),
    {
        match self {
            TaskKind::Watering => "Watering",
            TaskKind::Fertilizing => "Fertilizing",
        }
    }
}

/// One due or overdue care task.
#[derive(Debug)]
pub struct PlantTask {
    pub plant_id: u128,
    pub plant_name: String,
    pub task_type: TaskKind,
    /// Day number of the due date.
    pub due_date: i64,
    /// Days past the due date; present only when the task is overdue.
    pub days_overdue: Option<i64>,
}

/// Mathematical model of a [`PlantTask`].
pub struct PlantTaskView {
    pub plant_id: u128,
    pub plant_name: Seq<char>,
    pub task_type: TaskKind,
    pub due_date: i64,
    pub days_overdue: Option<i64>,
}

impl View for PlantTask {
    type V = PlantTaskView;

    open spec fn view(&self) -> PlantTaskView {
        PlantTaskView {
            plant_id: self.plant_id,
            plant_name: self.plant_name@,
            task_type: self.task_type,
            due_date: self.due_date,
            days_overdue: self.days_overdue,
        }
    }
}

/// The schedule: tasks due within the next days, and overdue tasks.
#[derive(Debug)]
pub struct ScheduleResponse {
    pub upcoming_tasks: Vec<PlantTask>,
    pub overdue_tasks: Vec<PlantTask>,
}

/// The next due day: the last action's day, or the creation day when the
/// action was never recorded, plus the frequency.
pub open spec fn next_due(last: Option<i32>, created_at: i32, frequency_days: u32) -> int {
    match last {
        Some(d) => d + frequency_days,
        None => created_at + frequency_days,
    }
}

/// Days past the due day, present only when the due day is strictly before
/// today.
pub open spec fn days_overdue(due: int, today: int) -> Option<i64> {
    if due < today {
        Some((today - due) as i64)
    } else {
        None
    }
}

pub open spec fn next_watering_due_of(p: PlantView) -> int {
    next_due(p.last_watered, p.created_at, p.watering_frequency_days)
}

pub open spec fn next_fertilizing_due_of(p: PlantView) -> int {
    next_due(p.last_fertilized, p.created_at, p.fertilizing_frequency_days)
}

fn due_after(last: Option<i32>, created_at: i32, frequency_days: u32) -> (r: i64)
    ensures
        r == next_due(last, created_at, frequency_days),
{
    let anchor: i32 = match last {
        Some(d) => d,
        None => created_at,
    };
    anchor as i64 + frequency_days as i64
}

fn overdue_by(due: i64, today: i32) -> (r: Option<i64>)
    requires
        i32::MIN <= due <= i32::MAX + u32::MAX,
    ensures
        r == days_overdue(due as int, today as int),
        r is Some ==> r->0 == today - due,
{
    if due < today as i64 {
        Some(today as i64 - due)
    } else {
        None
    }
}

impl Plant {
    /// Day number on which the next watering is due.
    pub fn next_watering_due(&self) -> (r: i64)
        ensures
            r == next_watering_due_of(self@),
            self.last_watered is None ==> r == self.created_at + self.watering_frequency_days,
            self.last_watered is Some ==> r == self.last_watered->0
                + self.watering_frequency_days,
    {
        due_after(self.last_watered, self.created_at, self.watering_frequency_days)
    }

    /// Day number on which the next fertilizing is due.
    pub fn next_fertilizing_due(&self) -> (r: i64)
        ensures
            r == next_fertilizing_due_of(self@),
            self.last_fertilized is None ==> r == self.created_at
                + self.fertilizing_frequency_days,
            self.last_fertilized is Some ==> r == self.last_fertilized->0
                + self.fertilizing_frequency_days,
    {
        due_after(self.last_fertilized, self.created_at, self.fertilizing_frequency_days)
    }

    /// How many days the watering is overdue on day `today`, if it is.
    pub fn watering_days_overdue(&self, today: i32) -> (r: Option<i64>)
        ensures
            r == days_overdue(next_watering_due_of(self@), today as int),
            r is Some <==> next_watering_due_of(self@) < today,
            r is Some ==> r->0 == today - next_watering_due_of(self@),
    {
        overdue_by(self.next_watering_due(), today)
    }

    /// How many days the fertilizing is overdue on day `today`, if it is.
    pub fn fertilizing_days_overdue(&self, today: i32) -> (r: Option<i64>)
        ensures
            r == days_overdue(next_fertilizing_due_of(self@), today as int),
            r is Some <==> next_fertilizing_due_of(self@) < today,
            r is Some ==> r->0 == today - next_fertilizing_due_of(self@),
    {
        overdue_by(self.next_fertilizing_due(), today)
    }
}

} // verus!
