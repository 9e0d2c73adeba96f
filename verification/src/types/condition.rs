//! Status conditions.
//!
//! The time of the last transition of a condition moves only when its status
//! does: a condition that is written again with the same status keeps it.
use crate::text;
use crate::time;
use crate::time::Timestamp;
use vstd::prelude::*;

verus! {

/// A condition in the status of a resource.
pub struct Condition {
    pub type_: String,
    pub status: String,
    pub reason: String,
    pub message: String,
    pub observed_generation: Option<i64>,
    pub last_transition_time: Timestamp,
}

/// A [`Condition`] as plain values.
pub struct ConditionV {
    pub type_: Seq<char>,
    pub status: Seq<char>,
    pub reason: Seq<char>,
    pub message: Seq<char>,
    pub observed_generation: Option<i64>,
    pub last_transition_time: Timestamp,
}

impl DeepView for Condition {
    type V = ConditionV;

    open spec fn deep_view(&self) -> ConditionV {
        ConditionV {
            type_: self.type_@,
            status: self.status@,
            reason: self.reason@,
            message: self.message@,
            observed_generation: self.observed_generation,
            last_transition_time: self.last_transition_time,
        }
    }
}

impl Clone for Condition {
    fn clone(&self) -> (r: Self)
        ensures
            r.deep_view() == self.deep_view(),
    {
        Condition {
            type_: self.type_.clone(),
            status: self.status.clone(),
            reason: self.reason.clone(),
            message: self.message.clone(),
            observed_generation: self.observed_generation,
            last_transition_time: self.last_transition_time,
        }
    }
}

/// Copies conditions.
pub fn copy_conditions(conditions: &Vec<Condition>) -> (r: Vec<Condition>)
    ensures
        r.deep_view() == conditions.deep_view(),
{
    let mut out: Vec<Condition> = Vec::new();
    let mut i: usize = 0;
    while i < conditions.len()
        invariant
            i <= conditions@.len(),
            out@.len() == i,
            forall|j: int|
                0 <= j < i ==> (#[trigger] out@[j]).deep_view() == conditions@[j].deep_view(),
        decreases conditions@.len() - i,
    {
        out.push(conditions[i].clone());
        i += 1;
    }
    proof {
        assert(out.deep_view() =~= conditions.deep_view());
    }
    out
}

/// The position of the first condition of a type, from `i` on; the number of
/// conditions where there is none.
pub open spec fn position(conditions: Seq<ConditionV>, type_: Seq<char>, i: int) -> int
    decreases conditions.len() - i,
{
    if i >= conditions.len() || i < 0 {
        conditions.len() as int
    } else if conditions[i].type_ == type_ {
        i
    } else {
        position(conditions, type_, i + 1)
    }
}

/// The word for a status.
pub open spec fn status_word(is_ready: bool) -> Seq<char> {
    if is_ready {
        "True"@
    } else {
        "False"@
    }
}

/// The conditions with the one of this type set.
pub open spec fn with_condition(conditions: Seq<ConditionV>, new: ConditionV) -> Seq<ConditionV> {
    let i = position(conditions, new.type_, 0);
    if i < conditions.len() {
        conditions.update(
            i,
            ConditionV {
                last_transition_time: if conditions[i].status == new.status {
                    conditions[i].last_transition_time
                } else {
                    new.last_transition_time
                },
                ..new
            },
        )
    } else {
        conditions.push(new)
    }
}

/// Whether the conditions say that the resource is ready.
pub open spec fn says_ready(conditions: Seq<ConditionV>) -> bool {
    let i = position(conditions, "Ready"@, 0);
    i < conditions.len() && conditions[i].status == "True"@
}

proof fn position_is_first(conditions: Seq<ConditionV>, type_: Seq<char>, i: int)
    requires
        0 <= i <= conditions.len(),
    ensures
        i <= position(conditions, type_, i) <= conditions.len(),
        position(conditions, type_, i) < conditions.len() ==> conditions[position(
            conditions,
            type_,
            i,
        )].type_ == type_,
        forall|j: int|
            i <= j < position(conditions, type_, i) ==> (#[trigger] conditions[j]).type_ != type_,
    decreases conditions.len() - i,
{
    if i < conditions.len() && conditions[i].type_ != type_ {
        position_is_first(conditions, type_, i + 1);
    }
}

fn find(conditions: &Vec<Condition>, type_: &str) -> (r: usize)
    ensures
        r == position(conditions.deep_view(), type_@, 0),
        r <= conditions@.len(),
{
    let ghost all = conditions.deep_view();
    let mut i: usize = 0;
    while i < conditions.len()
        invariant
            i <= conditions@.len(),
            all == conditions.deep_view(),
            position(all, type_@, 0) == position(all, type_@, i as int),
        decreases conditions@.len() - i,
    {
        assert(all[i as int].type_ == conditions@[i as int].type_@);
        if text::same(conditions[i].type_.as_str(), type_) {
            return i;
        }
        i += 1;
    }
    i
}

/// Sets the condition of a type.
pub fn set_condition_at(
    conditions: &mut Vec<Condition>,
    type_: &str,
    is_ready: bool,
    reason: String,
    message: String,
    generation: i64,
    now: Timestamp,
)
    ensures
        final(conditions).deep_view() == with_condition(
            old(conditions).deep_view(),
            ConditionV {
                type_: type_@,
                status: status_word(is_ready),
                reason: reason@,
                message: message@,
                observed_generation: Some(generation),
                last_transition_time: now,
            },
        ),
{
    let status: String = if is_ready {
        "True".to_owned()
    } else {
        "False".to_owned()
    };
    let ghost start = conditions.deep_view();
    let i: usize = find(conditions, type_);
    if i < conditions.len() {
        assert(start[i as int] == conditions@[i as int].deep_view());
        let since: Timestamp = if conditions[i].status == status {
            conditions[i].last_transition_time
        } else {
            now
        };
        let ghost before = conditions@;
        let new: Condition = Condition {
            type_: type_.to_owned(),
            status,
            reason,
            message,
            observed_generation: Some(generation),
            last_transition_time: since,
        };
        let ghost view = new.deep_view();
        conditions.set(i, new);
        proof {
            assert(conditions.deep_view() =~= start.update(i as int, view));
        }
    } else {
        let new: Condition = Condition {
            type_: type_.to_owned(),
            status,
            reason,
            message,
            observed_generation: Some(generation),
            last_transition_time: now,
        };
        let ghost view = new.deep_view();
        conditions.push(new);
        proof {
            assert(conditions.deep_view() =~= start.push(view));
        }
    }
}

/// The status of a resource that the operator manages.
pub trait ResourceStatus {
    /// The conditions of the status.
    spec fn listed(&self) -> Seq<ConditionV>;

    fn conditions(&self) -> (r: &Vec<Condition>)
        ensures
            r.deep_view() == self.listed(),
    ;

    fn conditions_mut(&mut self) -> (r: &mut Vec<Condition>)
        ensures
            r.deep_view() == old(self).listed(),
            final(self).listed() == final(r).deep_view(),
    ;

    /// Records the generation that the status is about, where the status has a
    /// place for it.
    fn set_observed_generation(&mut self, _generation: i64)
        ensures
            final(self).listed() == old(self).listed(),
    {
    }

    /// Whether no condition has been written yet.
    fn is_new(&self) -> (r: bool)
        ensures
            r == (self.listed().len() == 0),
    {
        self.conditions().len() == 0
    }

    /// Whether the resource is ready.
    fn is_ready(&self) -> (r: bool)
        ensures
            r == says_ready(self.listed()),
    {
        let conditions: &Vec<Condition> = self.conditions();
        let i: usize = find(conditions, "Ready");
        if i < conditions.len() {
            assert(self.listed()[i as int] == conditions@[i as int].deep_view());
            text::same(conditions[i].status.as_str(), "True")
        } else {
            false
        }
    }

    /// Sets the `Ready` condition as of a given time.
    fn update_ready_at(
        &mut self,
        is_ready: bool,
        reason: &str,
        message: &str,
        generation: i64,
        at: Timestamp,
    )
        ensures
            final(self).listed() == with_condition(
                old(self).listed(),
                ConditionV {
                    type_: "Ready"@,
                    status: status_word(is_ready),
                    reason: reason@,
                    message: message@,
                    observed_generation: Some(generation),
                    last_transition_time: at,
                },
            ),
    {
        set_condition_at(
            self.conditions_mut(),
            "Ready",
            is_ready,
            reason.to_owned(),
            message.to_owned(),
            generation,
            at,
        );
        self.set_observed_generation(generation);
    }

    /// Sets the `Ready` condition as of now.
    fn update_ready(&mut self, is_ready: bool, reason: &str, message: &str, generation: i64)
        ensures
            exists|at: Timestamp|
                time::on_the_clock(at) && final(self).listed() == #[trigger] with_condition(
                    old(self).listed(),
                    ConditionV {
                        type_: "Ready"@,
                        status: status_word(is_ready),
                        reason: reason@,
                        message: message@,
                        observed_generation: Some(generation),
                        last_transition_time: at,
                    },
                ),
    {
        let now: Timestamp = time::now();
        self.update_ready_at(is_ready, reason, message, generation, now);
    }
}

// Laws.

/// Writing the `Ready` condition makes the resource ready exactly when it says so.
pub proof fn readiness_is_what_was_written(
    conditions: Seq<ConditionV>,
    is_ready: bool,
    new: ConditionV,
)
    requires
        new.type_ == "Ready"@,
        new.status == status_word(is_ready),
    ensures
        says_ready(with_condition(conditions, new)) == is_ready,
{
    reveal_strlit("True");
    reveal_strlit("False");
    assert("True"@.len() == 4 && "False"@.len() == 5);
    position_is_first(conditions, "Ready"@, 0);
    let after = with_condition(conditions, new);
    position_is_first(after, "Ready"@, 0);
    let i = position(conditions, "Ready"@, 0);
    let k = position(after, "Ready"@, 0);
    assert(after[i].type_ == "Ready"@);
    if k < i {
        assert(after[k] == conditions[k]);
        assert(conditions[k].type_ != "Ready"@);
    }
    assert(k == i);
}

/// A condition that is written again with the same status keeps the time of its
/// last transition; one whose status changes gets the new time.
pub proof fn transition_time_moves_with_status(
    conditions: Seq<ConditionV>,
    first: ConditionV,
    second: ConditionV,
)
    requires
        first.type_ == second.type_,
    ensures
        ({
            let once = with_condition(conditions, first);
            let twice = with_condition(once, second);
            let i = position(once, first.type_, 0);
            &&& i < once.len()
            &&& position(twice, first.type_, 0) == i
            &&& twice.len() == once.len()
            &&& first.status == second.status ==> twice[i].last_transition_time
                == once[i].last_transition_time
            &&& first.status != second.status ==> twice[i].last_transition_time
                == second.last_transition_time
        }),
{
    let t = first.type_;
    let once = with_condition(conditions, first);
    let twice = with_condition(once, second);
    position_is_first(conditions, t, 0);
    position_is_first(once, t, 0);
    position_is_first(twice, t, 0);
    let a = position(conditions, t, 0);
    let i = position(once, t, 0);
    assert(once[a].type_ == t);
    if i < a {
        assert(once[i] == conditions[i]);
    }
    assert(i == a);
    let k = position(twice, t, 0);
    assert(twice[i].type_ == t);
    if k < i {
        assert(twice[k] == once[k]);
    }
    assert(once[i].status == first.status);
}

/// Writing a condition leaves every condition of another type as it was.
pub proof fn other_conditions_stay(conditions: Seq<ConditionV>, new: ConditionV, i: int)
    requires
        0 <= i < conditions.len(),
        conditions[i].type_ != new.type_,
    ensures
        with_condition(conditions, new)[i] == conditions[i],
{
    position_is_first(conditions, new.type_, 0);
}

/// Writing a condition leaves one of its type first in line that says what was written,
/// field for field: its status, reason, message and generation; and its time is the one that
/// is written where the condition is new or its status changes. No other condition comes or
/// goes.
pub proof fn written_condition_is_there(conditions: Seq<ConditionV>, new: ConditionV)
    ensures
        ({
            let after = with_condition(conditions, new);
            let is_typed = |c: ConditionV| c.type_ == new.type_;
            let known = exists|i: int| 0 <= i < conditions.len() && is_typed(
                #[trigger] conditions[i],
            );
            &&& after.len() == (if known { conditions.len() } else { conditions.len() + 1 })
            &&& exists|i: int|
                {
                    &&& 0 <= i < after.len()
                    &&& (forall|j: int| 0 <= j < i ==> !is_typed(#[trigger] after[j]))
                    &&& (#[trigger] after[i]).type_ == new.type_
                    &&& after[i].status == new.status
                    &&& after[i].reason == new.reason
                    &&& after[i].message == new.message
                    &&& after[i].observed_generation == new.observed_generation
                    &&& !known ==> after[i].last_transition_time == new.last_transition_time
                    &&& known ==> after[i].last_transition_time == (if conditions[i].status
                        == new.status {
                        conditions[i].last_transition_time
                    } else {
                        new.last_transition_time
                    })
                    &&& forall|j: int|
                        0 <= j < conditions.len() && j != i ==> #[trigger] after[j] == conditions[j]
                }
        }),
{
    let after = with_condition(conditions, new);
    let is_typed = |c: ConditionV| c.type_ == new.type_;
    position_is_first(conditions, new.type_, 0);
    let i = position(conditions, new.type_, 0);
    if i < conditions.len() {
        assert(is_typed(conditions[i]));
    }
    assert forall|j: int| 0 <= j < i implies !is_typed(#[trigger] after[j]) by {
        assert(conditions[j].type_ != new.type_);
    }
    assert(after[i].type_ == new.type_);
}

/// A resource is ready exactly where the first of its `Ready` conditions has the status
/// `True`.
pub proof fn readiness_is_the_first_ready_condition(conditions: Seq<ConditionV>, i: int)
    requires
        0 <= i < conditions.len(),
        conditions[i].type_ == "Ready"@,
        forall|j: int| 0 <= j < i ==> (#[trigger] conditions[j]).type_ != "Ready"@,
    ensures
        says_ready(conditions) <==> conditions[i].status == "True"@,
        status_word(true) == "True"@,
        status_word(false) == "False"@,
{
    position_is_first(conditions, "Ready"@, 0);
    let k = position(conditions, "Ready"@, 0);
    if k < i {
        assert(conditions[k].type_ == "Ready"@);
    }
}

/// A resource without a `Ready` condition is not ready.
pub proof fn nothing_said_is_not_ready(conditions: Seq<ConditionV>)
    requires
        forall|j: int| 0 <= j < conditions.len() ==> (#[trigger] conditions[j]).type_ != "Ready"@,
    ensures
        !says_ready(conditions),
{
    position_is_first(conditions, "Ready"@, 0);
    let k = position(conditions, "Ready"@, 0);
    if k < conditions.len() {
        assert(conditions[k].type_ == "Ready"@);
    }
}

/// A condition stands for each of its fields.
pub proof fn conditions_are_seen_as_they_are(condition: Condition)
    ensures
        condition.deep_view().type_ == condition.type_@,
        condition.deep_view().status == condition.status@,
        condition.deep_view().reason == condition.reason@,
        condition.deep_view().message == condition.message@,
        condition.deep_view().observed_generation == condition.observed_generation,
        condition.deep_view().last_transition_time == condition.last_transition_time,
{
}

} // verus!
