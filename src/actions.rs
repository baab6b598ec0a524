//! Corrective actions tied to incidents: creation, the patch engine, and
//! the tallies by status that the dashboard shows.
use vstd::prelude::*;
use vstd::string::*;

use crate::incidents::{if_supplied, keep_or_replace, replace_or_keep};
use crate::osha::MAX_REPORT_RECORDS;
use crate::text::{is_text_less, text_less};

verus! {

/// A corrective action tied to an incident.
#[derive(Debug, Clone)]
pub struct CorrectiveAction {
    pub id: i64,
    pub incident_id: i64,
    pub rca_session_id: Option<i64>,
    pub description: String,
    pub assigned_to: Option<String>,
    pub due_date: Option<String>,
    pub status: String,
    pub completed_date: Option<String>,
    pub notes: Option<String>,
    pub created_at: String,
    pub updated_at: String,
}

/// The fields of a new corrective action.
#[derive(Debug, Clone)]
pub struct CreateCorrectiveAction {
    pub incident_id: i64,
    pub rca_session_id: Option<i64>,
    pub description: String,
    pub assigned_to: Option<String>,
    pub due_date: Option<String>,
}

/// A sparse change to a corrective action.
#[derive(Debug, Clone)]
pub struct UpdateCorrectiveAction {
    pub description: Option<String>,
    pub assigned_to: Option<String>,
    pub due_date: Option<String>,
    pub status: Option<String>,
    pub completed_date: Option<String>,
    pub notes: Option<String>,
}

/// The record of a new corrective action with store id `id`, created at
/// `now`: status `status`, no completion date and no notes.
pub open spec fn created_action(d: CreateCorrectiveAction, id: i64, now: String, status: String) -> CorrectiveAction {
    CorrectiveAction {
        id: id,
        incident_id: d.incident_id,
        rca_session_id: d.rca_session_id,
        description: d.description,
        assigned_to: d.assigned_to,
        due_date: d.due_date,
        status: status,
        completed_date: None,
        notes: None,
        created_at: now,
        updated_at: now,
    }
}

/// Creates the record of a new corrective action; it starts "open".
pub fn create_corrective_action(id: i64, data: CreateCorrectiveAction, now: String) -> (r: CorrectiveAction)
    ensures
        r == created_action(data, id, now, r.status),
        r.status@ == "open"@,
{
    proof {
        reveal_strlit("open");
    }
    let created = now.clone();
    CorrectiveAction {
        id,
        incident_id: data.incident_id,
        rca_session_id: data.rca_session_id,
        description: data.description,
        assigned_to: data.assigned_to,
        due_date: data.due_date,
        status: String::from_str("open"),
        completed_date: None,
        notes: None,
        created_at: created,
        updated_at: now,
    }
}

/// The patch supplies no field.
pub open spec fn action_patch_is_empty(p: UpdateCorrectiveAction) -> bool {
    p.description is None && p.assigned_to is None && p.due_date is None && p.status is None
        && p.completed_date is None && p.notes is None
}

/// The action after patch `p` at time `now`: supplied fields replace the
/// stored ones, and `updated_at` becomes `now` exactly when some field is
/// supplied.
pub open spec fn patched_action(x: CorrectiveAction, p: UpdateCorrectiveAction, now: String) -> CorrectiveAction {
    CorrectiveAction {
        id: x.id,
        incident_id: x.incident_id,
        rca_session_id: x.rca_session_id,
        description: match p.description {
            Some(v) => v,
            None => x.description,
        },
        assigned_to: if p.assigned_to is Some {
            p.assigned_to
        } else {
            x.assigned_to
        },
        due_date: if p.due_date is Some {
            p.due_date
        } else {
            x.due_date
        },
        status: match p.status {
            Some(v) => v,
            None => x.status,
        },
        completed_date: if p.completed_date is Some {
            p.completed_date
        } else {
            x.completed_date
        },
        notes: if p.notes is Some {
            p.notes
        } else {
            x.notes
        },
        created_at: x.created_at,
        updated_at: if action_patch_is_empty(p) {
            x.updated_at
        } else {
            now
        },
    }
}

/// Applies a sparse patch to a stored corrective action at time `now`.
pub fn update_corrective_action(existing: CorrectiveAction, data: UpdateCorrectiveAction, now: String) -> (r: CorrectiveAction)
    ensures
        r == patched_action(existing, data, now),
{
    let empty = data.description.is_none() && data.assigned_to.is_none() && data.due_date.is_none()
        && data.status.is_none() && data.completed_date.is_none() && data.notes.is_none();
    let x = existing;
    let p = data;
    CorrectiveAction {
        id: x.id,
        incident_id: x.incident_id,
        rca_session_id: x.rca_session_id,
        description: replace_or_keep(p.description, x.description),
        assigned_to: keep_or_replace(p.assigned_to, x.assigned_to),
        due_date: keep_or_replace(p.due_date, x.due_date),
        status: replace_or_keep(p.status, x.status),
        completed_date: keep_or_replace(p.completed_date, x.completed_date),
        notes: keep_or_replace(p.notes, x.notes),
        created_at: x.created_at,
        updated_at: if_supplied(empty, x.updated_at, now),
    }
}

/// Tallies of corrective actions by status.
#[derive(Debug, Clone, Copy)]
pub struct CorrectiveActionSummary {
    pub open: i64,
    pub in_progress: i64,
    pub completed: i64,
    pub overdue: i64,
}

/// An action is overdue when it is not completed and its due date falls
/// before `today`.
pub open spec fn is_overdue(a: CorrectiveAction, today: Seq<char>) -> bool {
    a.status@ != "completed"@ && match a.due_date {
        Some(d) => text_less(d@, today),
        None => false,
    }
}

/// Over `s`: how many actions are open, in progress, completed, and overdue.
pub open spec fn action_counts(s: Seq<CorrectiveAction>, today: Seq<char>) -> (nat, nat, nat, nat)
    decreases s.len(),
{
    if s.len() == 0 {
        (0, 0, 0, 0)
    } else {
        let c = action_counts(s.drop_last(), today);
        let a = s.last();
        (
            c.0 + if a.status@ == "open"@ {
                1nat
            } else {
                0nat
            },
            c.1 + if a.status@ == "in_progress"@ {
                1nat
            } else {
                0nat
            },
            c.2 + if a.status@ == "completed"@ {
                1nat
            } else {
                0nat
            },
            c.3 + if is_overdue(a, today) {
                1nat
            } else {
                0nat
            },
        )
    }
}

/// Tallies the corrective actions tied to an establishment's incidents by
/// status, counting as overdue those not completed whose due date is before
/// `today`.
pub fn get_corrective_action_summary(actions: &Vec<CorrectiveAction>, today: &str) -> (r: CorrectiveActionSummary)
    requires
        actions@.len() <= MAX_REPORT_RECORDS,
    ensures
        ({
            let c = action_counts(actions@, today@);
            r.open == c.0 && r.in_progress == c.1 && r.completed == c.2 && r.overdue == c.3
        }),
{
    proof {
        reveal_strlit("open");
        reveal_strlit("in_progress");
        reveal_strlit("completed");
    }
    let open_text = String::from_str("open");
    let progress_text = String::from_str("in_progress");
    let completed_text = String::from_str("completed");
    let mut open: i64 = 0;
    let mut in_progress: i64 = 0;
    let mut completed: i64 = 0;
    let mut overdue: i64 = 0;
    let mut i: usize = 0;
    assert(actions@.subrange(0, 0) =~= Seq::<CorrectiveAction>::empty());
    while i < actions.len()
        invariant
            i <= actions@.len() <= MAX_REPORT_RECORDS,
            open_text@ == "open"@,
            progress_text@ == "in_progress"@,
            completed_text@ == "completed"@,
            ({
                let c = action_counts(actions@.subrange(0, i as int), today@);
                &&& open == c.0 && in_progress == c.1 && completed == c.2 && overdue == c.3
                &&& c.0 <= i && c.1 <= i && c.2 <= i && c.3 <= i
            }),
        decreases actions@.len() - i,
    {
        let a = &actions[i];
        assert(actions@.subrange(0, i + 1).drop_last() =~= actions@.subrange(0, i as int));
        assert(actions@.subrange(0, i + 1).last() == actions@[i as int]);
        if a.status == open_text {
            open = open + 1;
        }
        if a.status == progress_text {
            in_progress = in_progress + 1;
        }
        let done = a.status == completed_text;
        if done {
            completed = completed + 1;
        }
        let late = match &a.due_date {
            Some(d) => !done && is_text_less(d.as_str(), today),
            None => false,
        };
        if late {
            overdue = overdue + 1;
        }
        i = i + 1;
    }
    assert(actions@.subrange(0, i as int) =~= actions@);
    CorrectiveActionSummary { open, in_progress, completed, overdue }
}

} // verus!
