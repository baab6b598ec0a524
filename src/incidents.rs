//! The incident record: its categories, case numbering, creation with
//! defaults, the patch engine and the filter engine.
use vstd::prelude::*;
use vstd::string::*;
use vstd::utf8::encode_utf8;

use crate::error::AppError;
use crate::text::{
    cat, contains_folded, contains_ignoring_case, has_prefix, is_text_less,
    lemma_text_less_asymmetric, lemma_text_less_transitive, starts_with, text_less, trimmed,
};
use crate::validation::{
    is_valid_date, validate_date_format, validate_days_count, validate_not_empty,
    validate_string_length, MAX_DESCRIPTION_LENGTH, MAX_NAME_LENGTH, MAX_OSHA_DAYS,
};

verus! {

/// The outcome of a case; exactly one applies.
#[derive(Debug, Clone, Copy, PartialEq, Eq, Structural)]
pub enum OutcomeSeverity {
    Death,
    DaysAway,
    JobTransferRestriction,
    OtherRecordable,
}

/// The kind of injury or illness; exactly one applies.
#[derive(Debug, Clone, Copy, PartialEq, Eq, Structural)]
pub enum InjuryIllnessType {
    Injury,
    SkinDisorder,
    Respiratory,
    Poisoning,
    HearingLoss,
    OtherIllness,
}

/// The stored name of each outcome.
pub open spec fn severity_name(s: OutcomeSeverity) -> Seq<char> {
    match s {
        OutcomeSeverity::Death => "death"@,
        OutcomeSeverity::DaysAway => "days_away"@,
        OutcomeSeverity::JobTransferRestriction => "job_transfer_restriction"@,
        OutcomeSeverity::OtherRecordable => "other_recordable"@,
    }
}

/// The outcome whose stored name is `t`, if any.
pub open spec fn severity_of_name(t: Seq<char>) -> Option<OutcomeSeverity> {
    if t == "death"@ {
        Some(OutcomeSeverity::Death)
    } else if t == "days_away"@ {
        Some(OutcomeSeverity::DaysAway)
    } else if t == "job_transfer_restriction"@ {
        Some(OutcomeSeverity::JobTransferRestriction)
    } else if t == "other_recordable"@ {
        Some(OutcomeSeverity::OtherRecordable)
    } else {
        None
    }
}

/// The stored name of each injury or illness type.
pub open spec fn illness_type_name(t: InjuryIllnessType) -> Seq<char> {
    match t {
        InjuryIllnessType::Injury => "injury"@,
        InjuryIllnessType::SkinDisorder => "skin_disorder"@,
        InjuryIllnessType::Respiratory => "respiratory"@,
        InjuryIllnessType::Poisoning => "poisoning"@,
        InjuryIllnessType::HearingLoss => "hearing_loss"@,
        InjuryIllnessType::OtherIllness => "other_illness"@,
    }
}

/// The injury or illness type whose stored name is `t`, if any.
pub open spec fn illness_type_of_name(t: Seq<char>) -> Option<InjuryIllnessType> {
    if t == "injury"@ {
        Some(InjuryIllnessType::Injury)
    } else if t == "skin_disorder"@ {
        Some(InjuryIllnessType::SkinDisorder)
    } else if t == "respiratory"@ {
        Some(InjuryIllnessType::Respiratory)
    } else if t == "poisoning"@ {
        Some(InjuryIllnessType::Poisoning)
    } else if t == "hearing_loss"@ {
        Some(InjuryIllnessType::HearingLoss)
    } else if t == "other_illness"@ {
        Some(InjuryIllnessType::OtherIllness)
    } else {
        None
    }
}

pub(crate) fn same_text(a: &str, b: &str) -> (r: bool)
    ensures
        r == (a@ == b@),
{
    let n = a.unicode_len();
    if n != b.unicode_len() {
        return false;
    }
    let mut i: usize = 0;
    while i < n
        invariant
            n == a@.len(),
            n == b@.len(),
            i <= n,
            forall|k: int| 0 <= k < i ==> a@[k] == b@[k],
        decreases n - i,
    {
        if a.get_char(i) != b.get_char(i) {
            return false;
        }
        i = i + 1;
    }
    assert(a@ =~= b@);
    true
}

impl OutcomeSeverity {
    /// Reads a stored outcome name.
    pub fn from_text(t: &str) -> (r: Option<OutcomeSeverity>)
        ensures
            r == severity_of_name(t@),
    {
        proof {
            reveal_strlit("death");
            reveal_strlit("days_away");
            reveal_strlit("job_transfer_restriction");
            reveal_strlit("other_recordable");
        }
        if same_text(t, "death") {
            Some(OutcomeSeverity::Death)
        } else if same_text(t, "days_away") {
            Some(OutcomeSeverity::DaysAway)
        } else if same_text(t, "job_transfer_restriction") {
            Some(OutcomeSeverity::JobTransferRestriction)
        } else if same_text(t, "other_recordable") {
            Some(OutcomeSeverity::OtherRecordable)
        } else {
            None
        }
    }

    /// The stored name of the outcome.
    pub fn as_text(&self) -> (r: String)
        ensures
            r@ == severity_name(*self),
    {
        match self {
            OutcomeSeverity::Death => String::from_str("death"),
            OutcomeSeverity::DaysAway => String::from_str("days_away"),
            OutcomeSeverity::JobTransferRestriction => String::from_str("job_transfer_restriction"),
            OutcomeSeverity::OtherRecordable => String::from_str("other_recordable"),
        }
    }
}

impl InjuryIllnessType {
    /// Reads a stored injury or illness type name.
    pub fn from_text(t: &str) -> (r: Option<InjuryIllnessType>)
        ensures
            r == illness_type_of_name(t@),
    {
        proof {
            reveal_strlit("injury");
            reveal_strlit("skin_disorder");
            reveal_strlit("respiratory");
            reveal_strlit("poisoning");
            reveal_strlit("hearing_loss");
            reveal_strlit("other_illness");
        }
        if same_text(t, "injury") {
            Some(InjuryIllnessType::Injury)
        } else if same_text(t, "skin_disorder") {
            Some(InjuryIllnessType::SkinDisorder)
        } else if same_text(t, "respiratory") {
            Some(InjuryIllnessType::Respiratory)
        } else if same_text(t, "poisoning") {
            Some(InjuryIllnessType::Poisoning)
        } else if same_text(t, "hearing_loss") {
            Some(InjuryIllnessType::HearingLoss)
        } else if same_text(t, "other_illness") {
            Some(InjuryIllnessType::OtherIllness)
        } else {
            None
        }
    }

    /// The stored name of the type.
    pub fn as_text(&self) -> (r: String)
        ensures
            r@ == illness_type_name(*self),
    {
        match self {
            InjuryIllnessType::Injury => String::from_str("injury"),
            InjuryIllnessType::SkinDisorder => String::from_str("skin_disorder"),
            InjuryIllnessType::Respiratory => String::from_str("respiratory"),
            InjuryIllnessType::Poisoning => String::from_str("poisoning"),
            InjuryIllnessType::HearingLoss => String::from_str("hearing_loss"),
            InjuryIllnessType::OtherIllness => String::from_str("other_illness"),
        }
    }
}

/// An incident record as stored.
#[derive(Debug, Clone)]
pub struct Incident {
    pub id: i64,
    pub case_number: Option<i64>,
    pub establishment_id: i64,
    pub location_id: Option<i64>,
    pub employee_name: String,
    pub employee_job_title: Option<String>,
    pub employee_address: Option<String>,
    pub employee_city: Option<String>,
    pub employee_state: Option<String>,
    pub employee_zip: Option<String>,
    pub employee_dob: Option<String>,
    pub employee_hire_date: Option<String>,
    pub employee_gender: Option<String>,
    pub is_privacy_case: bool,
    pub incident_date: String,
    pub incident_time: Option<String>,
    pub work_start_time: Option<String>,
    pub where_occurred: Option<String>,
    pub description: String,
    pub activity_before_incident: Option<String>,
    pub how_injury_occurred: Option<String>,
    pub injury_description: Option<String>,
    pub object_substance: Option<String>,
    pub physician_name: Option<String>,
    pub treatment_facility: Option<String>,
    pub facility_address: Option<String>,
    pub facility_city_state_zip: Option<String>,
    pub treated_in_er: Option<bool>,
    pub hospitalized_overnight: Option<bool>,
    pub outcome_severity: OutcomeSeverity,
    pub days_away_count: i64,
    pub days_restricted_count: i64,
    pub date_of_death: Option<String>,
    pub injury_illness_type: InjuryIllnessType,
    pub is_recordable: bool,
    pub status: String,
    pub completed_by: Option<String>,
    pub completed_by_title: Option<String>,
    pub completed_by_phone: Option<String>,
    pub completed_date: Option<String>,
    pub created_at: String,
    pub updated_at: String,
}

impl Incident {
    /// What the store guarantees of every record it holds: a valid incident
    /// date and day counts within the regulatory bound.
    pub open spec fn wf(&self) -> bool {
        &&& is_valid_date(self.incident_date@)
        &&& 0 <= self.days_away_count <= MAX_OSHA_DAYS
        &&& 0 <= self.days_restricted_count <= MAX_OSHA_DAYS
    }
}

/// The fields of a new incident; absent optional fields take their defaults.
#[derive(Debug, Clone)]
pub struct CreateIncident {
    pub establishment_id: i64,
    pub location_id: Option<i64>,
    pub employee_name: String,
    pub employee_job_title: Option<String>,
    pub employee_address: Option<String>,
    pub employee_city: Option<String>,
    pub employee_state: Option<String>,
    pub employee_zip: Option<String>,
    pub employee_dob: Option<String>,
    pub employee_hire_date: Option<String>,
    pub employee_gender: Option<String>,
    pub is_privacy_case: Option<bool>,
    pub incident_date: String,
    pub incident_time: Option<String>,
    pub work_start_time: Option<String>,
    pub where_occurred: Option<String>,
    pub description: String,
    pub activity_before_incident: Option<String>,
    pub how_injury_occurred: Option<String>,
    pub injury_description: Option<String>,
    pub object_substance: Option<String>,
    pub physician_name: Option<String>,
    pub treatment_facility: Option<String>,
    pub facility_address: Option<String>,
    pub facility_city_state_zip: Option<String>,
    pub treated_in_er: Option<bool>,
    pub hospitalized_overnight: Option<bool>,
    pub outcome_severity: Option<String>,
    pub days_away_count: Option<i64>,
    pub days_restricted_count: Option<i64>,
    pub date_of_death: Option<String>,
    pub injury_illness_type: Option<String>,
    pub is_recordable: Option<bool>,
}

/// A sparse change to an incident: each present field replaces the stored one.
#[derive(Debug, Clone)]
pub struct UpdateIncident {
    pub location_id: Option<i64>,
    pub employee_name: Option<String>,
    pub employee_job_title: Option<String>,
    pub employee_address: Option<String>,
    pub employee_city: Option<String>,
    pub employee_state: Option<String>,
    pub employee_zip: Option<String>,
    pub employee_dob: Option<String>,
    pub employee_hire_date: Option<String>,
    pub employee_gender: Option<String>,
    pub is_privacy_case: Option<bool>,
    pub incident_date: Option<String>,
    pub incident_time: Option<String>,
    pub work_start_time: Option<String>,
    pub where_occurred: Option<String>,
    pub description: Option<String>,
    pub activity_before_incident: Option<String>,
    pub how_injury_occurred: Option<String>,
    pub injury_description: Option<String>,
    pub object_substance: Option<String>,
    pub physician_name: Option<String>,
    pub treatment_facility: Option<String>,
    pub facility_address: Option<String>,
    pub facility_city_state_zip: Option<String>,
    pub treated_in_er: Option<bool>,
    pub hospitalized_overnight: Option<bool>,
    pub outcome_severity: Option<String>,
    pub days_away_count: Option<i64>,
    pub days_restricted_count: Option<i64>,
    pub date_of_death: Option<String>,
    pub injury_illness_type: Option<String>,
    pub is_recordable: Option<bool>,
    pub status: Option<String>,
    pub completed_by: Option<String>,
    pub completed_by_title: Option<String>,
    pub completed_by_phone: Option<String>,
    pub completed_date: Option<String>,
}

/// A file attached to an incident; its bytes are stored elsewhere.
#[derive(Debug, Clone)]
pub struct Attachment {
    pub id: i64,
    pub incident_id: i64,
    pub file_name: String,
    pub file_path: String,
    pub file_type: String,
    pub file_size: Option<i64>,
    pub created_at: String,
}

/// Search criteria for incidents of one establishment; each present criterion
/// narrows the result.
#[derive(Debug, Clone)]
pub struct IncidentFilter {
    pub establishment_id: i64,
    pub location_id: Option<i64>,
    pub status: Option<String>,
    pub outcome_severity: Option<String>,
    pub date_from: Option<String>,
    pub date_to: Option<String>,
    pub search: Option<String>,
}

/// What case numbering needs to know of an existing incident.
#[derive(Debug, Clone)]
pub struct CaseEntry {
    pub establishment_id: i64,
    pub incident_date: String,
    pub case_number: Option<i64>,
}

/// An entry numbered within establishment `e` and year `y`.
pub open spec fn in_case_scope(x: CaseEntry, e: i64, y: Seq<char>) -> bool {
    x.establishment_id == e && has_prefix(x.incident_date@, y) && x.case_number is Some
}

/// The largest case number among the entries of establishment `e` whose date
/// starts with `y`.
pub open spec fn max_case(s: Seq<CaseEntry>, e: i64, y: Seq<char>) -> Option<int>
    decreases s.len(),
{
    if s.len() == 0 {
        None
    } else {
        let p = max_case(s.drop_last(), e, y);
        let x = s.last();
        if in_case_scope(x, e, y) {
            let c = x.case_number->0 as int;
            match p {
                None => Some(c),
                Some(m) => Some(
                    if c > m {
                        c
                    } else {
                        m
                    },
                ),
            }
        } else {
            p
        }
    }
}

/// The case number that the next incident of establishment `e` in year `y`
/// receives.
pub open spec fn next_case(s: Seq<CaseEntry>, e: i64, y: Seq<char>) -> int {
    match max_case(s, e, y) {
        None => 1,
        Some(m) => m + 1,
    }
}

/// Computes the next case number for establishment `establishment_id` in the
/// year whose four digits are `year`: one more than the largest existing
/// case number there, or 1 when there is none. Fails only when that number
/// would not fit.
pub fn next_case_number(existing: &Vec<CaseEntry>, establishment_id: i64, year: &str) -> (r:
    Result<i64, AppError>)
    ensures
        r matches Ok(v) ==> v == next_case(existing@, establishment_id, year@),
        r is Err <==> next_case(existing@, establishment_id, year@) > i64::MAX,
{
    let mut best: Option<i64> = None;
    let mut i: usize = 0;
    while i < existing.len()
        invariant
            i <= existing@.len(),
            match best {
                None => max_case(existing@.subrange(0, i as int), establishment_id, year@) is None,
                Some(b) => max_case(existing@.subrange(0, i as int), establishment_id, year@)
                    == Some(b as int),
            },
        decreases existing@.len() - i,
    {
        let x = &existing[i];
        assert(existing@.subrange(0, i + 1).drop_last() =~= existing@.subrange(0, i as int));
        if x.establishment_id == establishment_id && x.case_number.is_some() && starts_with(
            x.incident_date.as_str(),
            year,
        ) {
            let c = x.case_number.unwrap();
            best = match best {
                None => Some(c),
                Some(b) => Some(
                    if c > b {
                        c
                    } else {
                        b
                    },
                ),
            };
        }
        i = i + 1;
    }
    assert(existing@.subrange(0, existing@.len() as int) =~= existing@);
    match best {
        None => Ok(1),
        Some(b) => {
            if b == i64::MAX {
                Err(AppError::Internal(String::from_str("Case numbers exhausted for this year")))
            } else {
                Ok(b + 1)
            }
        },
    }
}

/// A creation request (establishment, incident date) falls in establishment
/// `e` and year `y`.
pub open spec fn request_in_scope(req: (i64, String), e: i64, y: Seq<char>) -> bool {
    req.0 == e && req.1@.subrange(0, 4) == y
}

/// The case entries after creating an incident for each request in turn, each
/// numbered by `next_case` within its own establishment and year.
pub open spec fn create_all(init: Seq<CaseEntry>, reqs: Seq<(i64, String)>) -> Seq<CaseEntry>
    decreases reqs.len(),
{
    if reqs.len() == 0 {
        init
    } else {
        let prev = create_all(init, reqs.drop_last());
        let req = reqs.last();
        prev.push(
            CaseEntry {
                establishment_id: req.0,
                incident_date: req.1,
                case_number: Some(next_case(prev, req.0, req.1@.subrange(0, 4)) as i64),
            },
        )
    }
}

/// How many requests fall in establishment `e` and year `y`.
pub open spec fn count_in_scope(reqs: Seq<(i64, String)>, e: i64, y: Seq<char>) -> nat
    decreases reqs.len(),
{
    if reqs.len() == 0 {
        0
    } else {
        count_in_scope(reqs.drop_last(), e, y) + if request_in_scope(reqs.last(), e, y) {
            1nat
        } else {
            0nat
        }
    }
}

proof fn lemma_count_bound(reqs: Seq<(i64, String)>, e: i64, y: Seq<char>)
    ensures
        count_in_scope(reqs, e, y) <= reqs.len(),
    decreases reqs.len(),
{
    if reqs.len() > 0 {
        lemma_count_bound(reqs.drop_last(), e, y);
    }
}

proof fn lemma_max_after_creates(
    init: Seq<CaseEntry>,
    reqs: Seq<(i64, String)>,
    e: i64,
    y: Seq<char>,
)
    requires
        y.len() == 4,
        forall|k: int| 0 <= k < reqs.len() ==> (#[trigger] reqs[k]).1@.len() >= 4,
        max_case(init, e, y) is None,
        reqs.len() <= i64::MAX,
    ensures
        max_case(create_all(init, reqs), e, y) == if count_in_scope(reqs, e, y) == 0 {
            None
        } else {
            Some(count_in_scope(reqs, e, y) as int)
        },
    decreases reqs.len(),
{
    if reqs.len() > 0 {
        let rest = reqs.drop_last();
        lemma_max_after_creates(init, rest, e, y);
        lemma_count_bound(rest, e, y);
        let req = reqs.last();
        assert(req == reqs[reqs.len() - 1]);
        let prev = create_all(init, rest);
        let all = create_all(init, reqs);
        assert(all.drop_last() =~= prev);
        let x = all.last();
        assert(has_prefix(x.incident_date@, y) == (req.1@.subrange(0, 4) == y));
    }
}

/// Creating incidents one after another numbers those of each establishment
/// and year 1, 2, 3, ... in order of creation, with no gap and no repeat,
/// whatever creations for other establishments or years come between: the
/// incident of the last request, when it falls in establishment `e` and year
/// `y`, receives the count of such requests so far.
pub proof fn lemma_case_numbers_sequential(
    init: Seq<CaseEntry>,
    reqs: Seq<(i64, String)>,
    e: i64,
    y: Seq<char>,
)
    requires
        y.len() == 4,
        forall|k: int| 0 <= k < reqs.len() ==> (#[trigger] reqs[k]).1@.len() >= 4,
        max_case(init, e, y) is None,
        0 < reqs.len() <= i64::MAX,
        request_in_scope(reqs.last(), e, y),
    ensures
        create_all(init, reqs).last().case_number == Some(count_in_scope(reqs, e, y) as i64),
        create_all(init, reqs).len() == init.len() + reqs.len(),
{
    lemma_create_len(init, reqs);
    let rest = reqs.drop_last();
    lemma_max_after_creates(init, rest, e, y);
    lemma_count_bound(rest, e, y);
}

proof fn lemma_create_len(init: Seq<CaseEntry>, reqs: Seq<(i64, String)>)
    ensures
        create_all(init, reqs).len() == init.len() + reqs.len(),
    decreases reqs.len(),
{
    if reqs.len() > 0 {
        lemma_create_len(init, reqs.drop_last());
    }
}

/// A required text: something besides white space, at most `max` bytes.
pub open spec fn required_text_ok(t: Seq<char>, max: usize) -> bool {
    trimmed(t).len() > 0 && encode_utf8(t).len() <= max
}

/// An optional day count is absent or within the regulatory bound.
pub open spec fn day_count_ok(d: Option<i64>) -> bool {
    d matches Some(v) ==> 0 <= v <= MAX_OSHA_DAYS
}

/// An optional outcome name is absent or names an outcome.
pub open spec fn severity_text_ok(t: Option<String>) -> bool {
    t matches Some(v) ==> severity_of_name(v@) is Some
}

/// An optional type name is absent or names an injury or illness type.
pub open spec fn type_text_ok(t: Option<String>) -> bool {
    t matches Some(v) ==> illness_type_of_name(v@) is Some
}

/// The new incident passes every field rule.
pub open spec fn create_is_valid(d: CreateIncident) -> bool {
    &&& required_text_ok(d.employee_name@, MAX_NAME_LENGTH)
    &&& required_text_ok(d.description@, MAX_DESCRIPTION_LENGTH)
    &&& is_valid_date(d.incident_date@)
    &&& day_count_ok(d.days_away_count)
    &&& day_count_ok(d.days_restricted_count)
    &&& severity_text_ok(d.outcome_severity)
    &&& type_text_ok(d.injury_illness_type)
}

fn check_required_text(t: &str, max: usize, field_name: &str) -> (r: Result<(), AppError>)
    ensures
        r is Ok <==> required_text_ok(t@, max),
        r is Err ==> r matches Err(AppError::Validation(_)),
{
    validate_not_empty(t, field_name)?;
    validate_string_length(t, max, field_name)
}

fn check_day_count(d: Option<i64>, field_name: &str) -> (r: Result<(), AppError>)
    ensures
        r is Ok <==> day_count_ok(d),
        r is Err ==> r matches Err(AppError::Validation(_)),
{
    match d {
        Some(v) => validate_days_count(v, field_name),
        None => Ok(()),
    }
}

fn check_severity_text(t: &Option<String>) -> (r: Result<(), AppError>)
    ensures
        r is Ok <==> severity_text_ok(*t),
        r is Err ==> r matches Err(AppError::Validation(_)),
{
    match t {
        Some(v) => match OutcomeSeverity::from_text(v.as_str()) {
            Some(_) => Ok(()),
            None => Err(AppError::Validation(cat("Unknown outcome severity: ", v.as_str()))),
        },
        None => Ok(()),
    }
}

fn check_type_text(t: &Option<String>) -> (r: Result<(), AppError>)
    ensures
        r is Ok <==> type_text_ok(*t),
        r is Err ==> r matches Err(AppError::Validation(_)),
{
    match t {
        Some(v) => match InjuryIllnessType::from_text(v.as_str()) {
            Some(_) => Ok(()),
            None => Err(AppError::Validation(cat("Unknown injury or illness type: ", v.as_str()))),
        },
        None => Ok(()),
    }
}

/// Checks a new incident against the field rules: employee name and
/// description present and within their lengths, a valid incident date, day
/// counts within the regulatory bound and known category names.
pub fn validate_new_incident(data: &CreateIncident) -> (r: Result<(), AppError>)
    ensures
        r is Ok <==> create_is_valid(*data),
        r is Err ==> r matches Err(AppError::Validation(_)),
{
    check_required_text(data.employee_name.as_str(), MAX_NAME_LENGTH, "Employee name")?;
    check_required_text(data.description.as_str(), MAX_DESCRIPTION_LENGTH, "Description")?;
    validate_date_format(data.incident_date.as_str(), "Incident date")?;
    check_day_count(data.days_away_count, "Days away from work")?;
    check_day_count(data.days_restricted_count, "Days of restricted work")?;
    check_severity_text(&data.outcome_severity)?;
    check_type_text(&data.injury_illness_type)
}

/// The four characters that scope an incident's case number: the year of its date.
pub open spec fn year_of(date: Seq<char>) -> Seq<char> {
    date.subrange(0, 4)
}

/// The record that creation stores: the given fields, with an absent
/// privacy flag false, an absent outcome "other recordable", absent day
/// counts 0, an absent type "injury", an absent recordable flag true, status
/// `status` and both timestamps `now`.
pub open spec fn created_incident(
    d: CreateIncident,
    id: i64,
    case_number: i64,
    now: String,
    status: String,
) -> Incident {
    Incident {
        id: id,
        case_number: Some(case_number),
        establishment_id: d.establishment_id,
        location_id: d.location_id,
        employee_name: d.employee_name,
        employee_job_title: d.employee_job_title,
        employee_address: d.employee_address,
        employee_city: d.employee_city,
        employee_state: d.employee_state,
        employee_zip: d.employee_zip,
        employee_dob: d.employee_dob,
        employee_hire_date: d.employee_hire_date,
        employee_gender: d.employee_gender,
        is_privacy_case: match d.is_privacy_case {
            Some(b) => b,
            None => false,
        },
        incident_date: d.incident_date,
        incident_time: d.incident_time,
        work_start_time: d.work_start_time,
        where_occurred: d.where_occurred,
        description: d.description,
        activity_before_incident: d.activity_before_incident,
        how_injury_occurred: d.how_injury_occurred,
        injury_description: d.injury_description,
        object_substance: d.object_substance,
        physician_name: d.physician_name,
        treatment_facility: d.treatment_facility,
        facility_address: d.facility_address,
        facility_city_state_zip: d.facility_city_state_zip,
        treated_in_er: d.treated_in_er,
        hospitalized_overnight: d.hospitalized_overnight,
        outcome_severity: match d.outcome_severity {
            Some(t) => severity_of_name(t@)->0,
            None => OutcomeSeverity::OtherRecordable,
        },
        days_away_count: match d.days_away_count {
            Some(v) => v,
            None => 0,
        },
        days_restricted_count: match d.days_restricted_count {
            Some(v) => v,
            None => 0,
        },
        date_of_death: d.date_of_death,
        injury_illness_type: match d.injury_illness_type {
            Some(t) => illness_type_of_name(t@)->0,
            None => InjuryIllnessType::Injury,
        },
        is_recordable: match d.is_recordable {
            Some(b) => b,
            None => true,
        },
        status: status,
        completed_by: None,
        completed_by_title: None,
        completed_by_phone: None,
        completed_date: None,
        created_at: now,
        updated_at: now,
    }
}

/// Creates the record for a new incident with store id `id`. It is validated
/// first; its case number is the next one within its establishment and the
/// year of its date (see `next_case_number`), so that the caller, holding the
/// store's lock from reading `existing` to writing the record, never hands
/// out one number twice.
pub fn create_incident(existing: &Vec<CaseEntry>, id: i64, data: CreateIncident, now: String) -> (r:
    Result<Incident, AppError>)
    ensures
        !create_is_valid(data) ==> r matches Err(AppError::Validation(_)),
        create_is_valid(data) ==> {
            let c = next_case(existing@, data.establishment_id, year_of(data.incident_date@));
            &&& r is Err <==> c > i64::MAX
            &&& r matches Ok(x) ==> x == created_incident(data, id, c as i64, now, x.status)
                && x.status@ == "open"@ && x.wf()
        },
{
    validate_new_incident(&data)?;
    let year = data.incident_date.as_str().substring_char(0, 4);
    let case_number = next_case_number(existing, data.establishment_id, year)?;
    let outcome = match &data.outcome_severity {
        Some(t) => match OutcomeSeverity::from_text(t.as_str()) {
            Some(v) => v,
            None => OutcomeSeverity::OtherRecordable,
        },
        None => OutcomeSeverity::OtherRecordable,
    };
    let kind = match &data.injury_illness_type {
        Some(t) => match InjuryIllnessType::from_text(t.as_str()) {
            Some(v) => v,
            None => InjuryIllnessType::Injury,
        },
        None => InjuryIllnessType::Injury,
    };
    let created = now.clone();
    proof {
        reveal_strlit("open");
    }
    Ok(
        Incident {
            id,
            case_number: Some(case_number),
            establishment_id: data.establishment_id,
            location_id: data.location_id,
            employee_name: data.employee_name,
            employee_job_title: data.employee_job_title,
            employee_address: data.employee_address,
            employee_city: data.employee_city,
            employee_state: data.employee_state,
            employee_zip: data.employee_zip,
            employee_dob: data.employee_dob,
            employee_hire_date: data.employee_hire_date,
            employee_gender: data.employee_gender,
            is_privacy_case: match data.is_privacy_case {
                Some(b) => b,
                None => false,
            },
            incident_date: data.incident_date,
            incident_time: data.incident_time,
            work_start_time: data.work_start_time,
            where_occurred: data.where_occurred,
            description: data.description,
            activity_before_incident: data.activity_before_incident,
            how_injury_occurred: data.how_injury_occurred,
            injury_description: data.injury_description,
            object_substance: data.object_substance,
            physician_name: data.physician_name,
            treatment_facility: data.treatment_facility,
            facility_address: data.facility_address,
            facility_city_state_zip: data.facility_city_state_zip,
            treated_in_er: data.treated_in_er,
            hospitalized_overnight: data.hospitalized_overnight,
            outcome_severity: outcome,
            days_away_count: match data.days_away_count {
                Some(v) => v,
                None => 0,
            },
            days_restricted_count: match data.days_restricted_count {
                Some(v) => v,
                None => 0,
            },
            date_of_death: data.date_of_death,
            injury_illness_type: kind,
            is_recordable: match data.is_recordable {
                Some(b) => b,
                None => true,
            },
            status: String::from_str("open"),
            completed_by: None,
            completed_by_title: None,
            completed_by_phone: None,
            completed_date: None,
            created_at: created,
            updated_at: now,
        },
    )
}

/// The patch supplies no field at all.
pub open spec fn patch_is_empty(p: UpdateIncident) -> bool {
    p.location_id is None && p.employee_name is None && p.employee_job_title is None && p.employee_address is None && p.employee_city is None && p.employee_state is None && p.employee_zip is None && p.employee_dob is None && p.employee_hire_date is None && p.employee_gender is None && p.is_privacy_case is None && p.incident_date is None && p.incident_time is None && p.work_start_time is None && p.where_occurred is None && p.description is None && p.activity_before_incident is None && p.how_injury_occurred is None && p.injury_description is None && p.object_substance is None && p.physician_name is None && p.treatment_facility is None && p.facility_address is None && p.facility_city_state_zip is None && p.treated_in_er is None && p.hospitalized_overnight is None && p.outcome_severity is None && p.days_away_count is None && p.days_restricted_count is None && p.date_of_death is None && p.injury_illness_type is None && p.is_recordable is None && p.status is None && p.completed_by is None && p.completed_by_title is None && p.completed_by_phone is None && p.completed_date is None
}

/// The patch passes the field rules that creation applies, for the fields it
/// supplies.
pub open spec fn patch_is_valid(p: UpdateIncident) -> bool {
    &&& (p.employee_name matches Some(n) ==> required_text_ok(n@, MAX_NAME_LENGTH))
    &&& (p.description matches Some(d) ==> required_text_ok(d@, MAX_DESCRIPTION_LENGTH))
    &&& (p.incident_date matches Some(d) ==> is_valid_date(d@))
    &&& day_count_ok(p.days_away_count)
    &&& day_count_ok(p.days_restricted_count)
    &&& severity_text_ok(p.outcome_severity)
    &&& type_text_ok(p.injury_illness_type)
}

/// The record after patch `p` at time `now`: each supplied field replaces the
/// stored one, every other field is kept, identity, case number and creation
/// time never change, and `updated_at` becomes `now` exactly when the patch
/// supplies a field.
pub open spec fn patched_incident(x: Incident, p: UpdateIncident, now: String) -> Incident {
    Incident {
        id: x.id,
        case_number: x.case_number,
        establishment_id: x.establishment_id,
        location_id: if p.location_id is Some {
            p.location_id
        } else {
            x.location_id
        },
        employee_name: match p.employee_name {
            Some(v) => v,
            None => x.employee_name,
        },
        employee_job_title: if p.employee_job_title is Some {
            p.employee_job_title
        } else {
            x.employee_job_title
        },
        employee_address: if p.employee_address is Some {
            p.employee_address
        } else {
            x.employee_address
        },
        employee_city: if p.employee_city is Some {
            p.employee_city
        } else {
            x.employee_city
        },
        employee_state: if p.employee_state is Some {
            p.employee_state
        } else {
            x.employee_state
        },
        employee_zip: if p.employee_zip is Some {
            p.employee_zip
        } else {
            x.employee_zip
        },
        employee_dob: if p.employee_dob is Some {
            p.employee_dob
        } else {
            x.employee_dob
        },
        employee_hire_date: if p.employee_hire_date is Some {
            p.employee_hire_date
        } else {
            x.employee_hire_date
        },
        employee_gender: if p.employee_gender is Some {
            p.employee_gender
        } else {
            x.employee_gender
        },
        is_privacy_case: match p.is_privacy_case {
            Some(v) => v,
            None => x.is_privacy_case,
        },
        incident_date: match p.incident_date {
            Some(v) => v,
            None => x.incident_date,
        },
        incident_time: if p.incident_time is Some {
            p.incident_time
        } else {
            x.incident_time
        },
        work_start_time: if p.work_start_time is Some {
            p.work_start_time
        } else {
            x.work_start_time
        },
        where_occurred: if p.where_occurred is Some {
            p.where_occurred
        } else {
            x.where_occurred
        },
        description: match p.description {
            Some(v) => v,
            None => x.description,
        },
        activity_before_incident: if p.activity_before_incident is Some {
            p.activity_before_incident
        } else {
            x.activity_before_incident
        },
        how_injury_occurred: if p.how_injury_occurred is Some {
            p.how_injury_occurred
        } else {
            x.how_injury_occurred
        },
        injury_description: if p.injury_description is Some {
            p.injury_description
        } else {
            x.injury_description
        },
        object_substance: if p.object_substance is Some {
            p.object_substance
        } else {
            x.object_substance
        },
        physician_name: if p.physician_name is Some {
            p.physician_name
        } else {
            x.physician_name
        },
        treatment_facility: if p.treatment_facility is Some {
            p.treatment_facility
        } else {
            x.treatment_facility
        },
        facility_address: if p.facility_address is Some {
            p.facility_address
        } else {
            x.facility_address
        },
        facility_city_state_zip: if p.facility_city_state_zip is Some {
            p.facility_city_state_zip
        } else {
            x.facility_city_state_zip
        },
        treated_in_er: if p.treated_in_er is Some {
            p.treated_in_er
        } else {
            x.treated_in_er
        },
        hospitalized_overnight: if p.hospitalized_overnight is Some {
            p.hospitalized_overnight
        } else {
            x.hospitalized_overnight
        },
        outcome_severity: match p.outcome_severity {
            Some(t) => severity_of_name(t@)->0,
            None => x.outcome_severity,
        },
        days_away_count: match p.days_away_count {
            Some(v) => v,
            None => x.days_away_count,
        },
        days_restricted_count: match p.days_restricted_count {
            Some(v) => v,
            None => x.days_restricted_count,
        },
        date_of_death: if p.date_of_death is Some {
            p.date_of_death
        } else {
            x.date_of_death
        },
        injury_illness_type: match p.injury_illness_type {
            Some(t) => illness_type_of_name(t@)->0,
            None => x.injury_illness_type,
        },
        is_recordable: match p.is_recordable {
            Some(v) => v,
            None => x.is_recordable,
        },
        status: match p.status {
            Some(v) => v,
            None => x.status,
        },
        completed_by: if p.completed_by is Some {
            p.completed_by
        } else {
            x.completed_by
        },
        completed_by_title: if p.completed_by_title is Some {
            p.completed_by_title
        } else {
            x.completed_by_title
        },
        completed_by_phone: if p.completed_by_phone is Some {
            p.completed_by_phone
        } else {
            x.completed_by_phone
        },
        completed_date: if p.completed_date is Some {
            p.completed_date
        } else {
            x.completed_date
        },
        created_at: x.created_at,
        updated_at: if patch_is_empty(p) {
            x.updated_at
        } else {
            now
        },
    }
}

/// Tells whether a patch supplies no field.
pub fn is_empty_patch(data: &UpdateIncident) -> (r: bool)
    ensures
        r == patch_is_empty(*data),
{
    data.location_id.is_none() && data.employee_name.is_none() && data.employee_job_title.is_none() && data.employee_address.is_none() && data.employee_city.is_none() && data.employee_state.is_none() && data.employee_zip.is_none() && data.employee_dob.is_none() && data.employee_hire_date.is_none() && data.employee_gender.is_none() && data.is_privacy_case.is_none() && data.incident_date.is_none() && data.incident_time.is_none() && data.work_start_time.is_none() && data.where_occurred.is_none() && data.description.is_none() && data.activity_before_incident.is_none() && data.how_injury_occurred.is_none() && data.injury_description.is_none() && data.object_substance.is_none() && data.physician_name.is_none() && data.treatment_facility.is_none() && data.facility_address.is_none() && data.facility_city_state_zip.is_none() && data.treated_in_er.is_none() && data.hospitalized_overnight.is_none() && data.outcome_severity.is_none() && data.days_away_count.is_none() && data.days_restricted_count.is_none() && data.date_of_death.is_none() && data.injury_illness_type.is_none() && data.is_recordable.is_none() && data.status.is_none() && data.completed_by.is_none() && data.completed_by_title.is_none() && data.completed_by_phone.is_none() && data.completed_date.is_none()
}

/// Checks the supplied fields of a patch against the field rules.
pub fn validate_incident_patch(data: &UpdateIncident) -> (r: Result<(), AppError>)
    ensures
        r is Ok <==> patch_is_valid(*data),
        r is Err ==> r matches Err(AppError::Validation(_)),
{
    match &data.employee_name {
        Some(n) => check_required_text(n.as_str(), MAX_NAME_LENGTH, "Employee name")?,
        None => {},
    }
    match &data.description {
        Some(d) => check_required_text(d.as_str(), MAX_DESCRIPTION_LENGTH, "Description")?,
        None => {},
    }
    match &data.incident_date {
        Some(d) => validate_date_format(d.as_str(), "Incident date")?,
        None => {},
    }
    check_day_count(data.days_away_count, "Days away from work")?;
    check_day_count(data.days_restricted_count, "Days of restricted work")?;
    check_severity_text(&data.outcome_severity)?;
    check_type_text(&data.injury_illness_type)
}

pub(crate) fn keep_or_replace<T>(p: Option<T>, cur: Option<T>) -> (r: Option<T>)
    ensures
        r == if p is Some {
            p
        } else {
            cur
        },
{
    match p {
        Some(v) => Some(v),
        None => cur,
    }
}

pub(crate) fn replace_or_keep<T>(p: Option<T>, cur: T) -> (r: T)
    ensures
        r == match p {
            Some(v) => v,
            None => cur,
        },
{
    match p {
        Some(v) => v,
        None => cur,
    }
}

pub(crate) fn if_supplied(empty: bool, kept: String, now: String) -> (r: String)
    ensures
        r == if empty {
            kept
        } else {
            now
        },
{
    if empty {
        kept
    } else {
        now
    }
}

/// Applies a sparse patch to the stored record `existing` at time `now`. An
/// invalid patch is rejected before anything changes; otherwise the result is
/// `patched_incident`: only supplied fields change, and `updated_at` is
/// refreshed exactly when some field is supplied.
pub fn update_incident(existing: Incident, data: UpdateIncident, now: String) -> (r: Result<
    Incident,
    AppError,
>)
    ensures
        r is Ok <==> patch_is_valid(data),
        r is Err ==> r matches Err(AppError::Validation(_)),
        r matches Ok(x) ==> x == patched_incident(existing, data, now),
        r matches Ok(x) ==> (existing.wf() ==> x.wf()),
{
    validate_incident_patch(&data)?;
    let empty = is_empty_patch(&data);
    let x = existing;
    let p = data;
    let outcome = match &p.outcome_severity {
        Some(t) => match OutcomeSeverity::from_text(t.as_str()) {
            Some(v) => v,
            None => x.outcome_severity,
        },
        None => x.outcome_severity,
    };
    let kind = match &p.injury_illness_type {
        Some(t) => match InjuryIllnessType::from_text(t.as_str()) {
            Some(v) => v,
            None => x.injury_illness_type,
        },
        None => x.injury_illness_type,
    };
    Ok(
        Incident {
            id: x.id,
            case_number: x.case_number,
            establishment_id: x.establishment_id,
            location_id: keep_or_replace(p.location_id, x.location_id),
            employee_name: replace_or_keep(p.employee_name, x.employee_name),
            employee_job_title: keep_or_replace(p.employee_job_title, x.employee_job_title),
            employee_address: keep_or_replace(p.employee_address, x.employee_address),
            employee_city: keep_or_replace(p.employee_city, x.employee_city),
            employee_state: keep_or_replace(p.employee_state, x.employee_state),
            employee_zip: keep_or_replace(p.employee_zip, x.employee_zip),
            employee_dob: keep_or_replace(p.employee_dob, x.employee_dob),
            employee_hire_date: keep_or_replace(p.employee_hire_date, x.employee_hire_date),
            employee_gender: keep_or_replace(p.employee_gender, x.employee_gender),
            is_privacy_case: replace_or_keep(p.is_privacy_case, x.is_privacy_case),
            incident_date: replace_or_keep(p.incident_date, x.incident_date),
            incident_time: keep_or_replace(p.incident_time, x.incident_time),
            work_start_time: keep_or_replace(p.work_start_time, x.work_start_time),
            where_occurred: keep_or_replace(p.where_occurred, x.where_occurred),
            description: replace_or_keep(p.description, x.description),
            activity_before_incident: keep_or_replace(p.activity_before_incident, x.activity_before_incident),
            how_injury_occurred: keep_or_replace(p.how_injury_occurred, x.how_injury_occurred),
            injury_description: keep_or_replace(p.injury_description, x.injury_description),
            object_substance: keep_or_replace(p.object_substance, x.object_substance),
            physician_name: keep_or_replace(p.physician_name, x.physician_name),
            treatment_facility: keep_or_replace(p.treatment_facility, x.treatment_facility),
            facility_address: keep_or_replace(p.facility_address, x.facility_address),
            facility_city_state_zip: keep_or_replace(p.facility_city_state_zip, x.facility_city_state_zip),
            treated_in_er: keep_or_replace(p.treated_in_er, x.treated_in_er),
            hospitalized_overnight: keep_or_replace(p.hospitalized_overnight, x.hospitalized_overnight),
            outcome_severity: outcome,
            days_away_count: replace_or_keep(p.days_away_count, x.days_away_count),
            days_restricted_count: replace_or_keep(p.days_restricted_count, x.days_restricted_count),
            date_of_death: keep_or_replace(p.date_of_death, x.date_of_death),
            injury_illness_type: kind,
            is_recordable: replace_or_keep(p.is_recordable, x.is_recordable),
            status: replace_or_keep(p.status, x.status),
            completed_by: keep_or_replace(p.completed_by, x.completed_by),
            completed_by_title: keep_or_replace(p.completed_by_title, x.completed_by_title),
            completed_by_phone: keep_or_replace(p.completed_by_phone, x.completed_by_phone),
            completed_date: keep_or_replace(p.completed_date, x.completed_date),
            created_at: x.created_at,
            updated_at: if_supplied(empty, x.updated_at, now),
        },
    )
}

/// A patch that supplies no field leaves the record exactly as it was,
/// `updated_at` included.
pub proof fn lemma_empty_patch_changes_nothing(x: Incident, p: UpdateIncident, now: String)
    requires
        patch_is_empty(p),
    ensures
        patched_incident(x, p, now) == x,
{
}

/// A patch that supplies only a new status changes the status alone and
/// refreshes `updated_at`.
pub proof fn lemma_status_patch_changes_status_only(
    x: Incident,
    p: UpdateIncident,
    now: String,
    status: String,
)
    requires
        p == (UpdateIncident { status: Some(status), ..p }),
        patch_is_empty(UpdateIncident { status: None, ..p }),
    ensures
        patched_incident(x, p, now) == (Incident { status: status, updated_at: now, ..x }),
{
}

/// Incident `x` meets every criterion that filter `f` supplies: its
/// establishment, and where given its location, status and outcome exactly,
/// its date within the inclusive range, and the search text within the
/// employee name or the description, ignoring ASCII case.
pub open spec fn incident_matches(x: Incident, f: IncidentFilter) -> bool {
    &&& x.establishment_id == f.establishment_id
    &&& (f.location_id matches Some(l) ==> x.location_id == Some(l))
    &&& (f.status matches Some(st) ==> x.status@ == st@)
    &&& (f.outcome_severity matches Some(sv) ==> severity_name(x.outcome_severity) == sv@)
    &&& (f.date_from matches Some(d) ==> !text_less(x.incident_date@, d@))
    &&& (f.date_to matches Some(d) ==> !text_less(d@, x.incident_date@))
    &&& (f.search matches Some(q) ==> contains_folded(x.employee_name@, q@) || contains_folded(
        x.description@,
        q@,
    ))
}

/// Tells whether incident `x` meets filter `f`.
pub fn matches_filter(x: &Incident, f: &IncidentFilter) -> (r: bool)
    ensures
        r == incident_matches(*x, *f),
{
    if x.establishment_id != f.establishment_id {
        return false;
    }
    match f.location_id {
        Some(l) => {
            if x.location_id != Some(l) {
                return false;
            }
        },
        None => {},
    }
    match &f.status {
        Some(st) => {
            if !same_text(x.status.as_str(), st.as_str()) {
                return false;
            }
        },
        None => {},
    }
    match &f.outcome_severity {
        Some(sv) => {
            let name = x.outcome_severity.as_text();
            if !same_text(name.as_str(), sv.as_str()) {
                return false;
            }
        },
        None => {},
    }
    match &f.date_from {
        Some(d) => {
            if is_text_less(x.incident_date.as_str(), d.as_str()) {
                return false;
            }
        },
        None => {},
    }
    match &f.date_to {
        Some(d) => {
            if is_text_less(d.as_str(), x.incident_date.as_str()) {
                return false;
            }
        },
        None => {},
    }
    match &f.search {
        Some(q) => contains_ignoring_case(x.employee_name.as_str(), q.as_str())
            || contains_ignoring_case(x.description.as_str(), q.as_str()),
        None => true,
    }
}

/// The incidents of `s` that meet `f`, in their order in `s`.
pub open spec fn matching(s: Seq<Incident>, f: IncidentFilter) -> Seq<Incident>
    decreases s.len(),
{
    if s.len() == 0 {
        s
    } else if incident_matches(s.last(), f) {
        matching(s.drop_last(), f).push(s.last())
    } else {
        matching(s.drop_last(), f)
    }
}

/// `a` is listed before `b`: a later incident date first, and among equal
/// dates the larger id (the more recently created record) first.
pub open spec fn listed_before(a: Incident, b: Incident) -> bool {
    text_less(b.incident_date@, a.incident_date@) || (a.incident_date@ == b.incident_date@
        && a.id > b.id)
}

/// No incident of `s` is listed before one that precedes it.
pub open spec fn in_listing_order(s: Seq<Incident>) -> bool {
    forall|i: int, j: int| 0 <= i < j < s.len() ==> !listed_before(#[trigger] s[j], #[trigger] s[i])
}

proof fn lemma_listed_before_transitive(a: Incident, b: Incident, c: Incident)
    requires
        listed_before(a, b),
        listed_before(b, c),
    ensures
        listed_before(a, c),
{
    if text_less(b.incident_date@, a.incident_date@) && text_less(c.incident_date@, b.incident_date@) {
        lemma_text_less_transitive(c.incident_date@, b.incident_date@, a.incident_date@);
    }
}

proof fn lemma_listed_before_asymmetric(a: Incident, b: Incident)
    ensures
        !(listed_before(a, b) && listed_before(b, a)),
{
    lemma_text_less_asymmetric(a.incident_date@, b.incident_date@);
    lemma_text_less_asymmetric(a.incident_date@, a.incident_date@);
}

fn is_listed_before(a: &Incident, b: &Incident) -> (r: bool)
    ensures
        r == listed_before(*a, *b),
{
    if is_text_less(b.incident_date.as_str(), a.incident_date.as_str()) {
        true
    } else {
        same_text(a.incident_date.as_str(), b.incident_date.as_str()) && a.id > b.id
    }
}

/// Puts `x` into the listing `out` at its place.
fn insert_listed(out: &mut Vec<Incident>, x: Incident)
    requires
        in_listing_order(old(out)@),
    ensures
        in_listing_order(final(out)@),
        final(out)@.to_multiset() == old(out)@.to_multiset().insert(x),
{
    let mut pos: usize = 0;
    while pos < out.len() && !is_listed_before(&x, &out[pos])
        invariant
            pos <= out@.len(),
            forall|k: int| 0 <= k < pos ==> !listed_before(x, #[trigger] out@[k]),
        decreases out@.len() - pos,
    {
        pos = pos + 1;
    }
    let ghost before = out@;
    proof {
        broadcast use vstd::seq_lib::group_to_multiset_ensures;

        vstd::seq_lib::to_multiset_insert(before, pos as int, x);
    }
    out.insert(pos, x);
    proof {
        let s = out@;
        assert(s == before.insert(pos as int, x));
        assert forall|i: int, j: int| 0 <= i < j < s.len() implies !listed_before(
            #[trigger] s[j],
            #[trigger] s[i],
        ) by {
            if j < pos {
                assert(s[i] == before[i] && s[j] == before[j]);
            } else if j == pos {
                assert(s[i] == before[i]);
            } else if i == pos {
                assert(s[j] == before[j - 1]);
                assert(listed_before(x, before[pos as int]));
                if listed_before(before[j - 1], x) {
                    lemma_listed_before_transitive(before[j - 1], x, before[pos as int]);
                    if j - 1 > pos {
                        assert(!listed_before(before[j - 1], before[pos as int]));
                    } else {
                        lemma_listed_before_asymmetric(x, before[pos as int]);
                    }
                }
            } else if i < pos {
                assert(s[i] == before[i] && s[j] == before[j - 1]);
            } else {
                assert(s[i] == before[i - 1] && s[j] == before[j - 1]);
            }
        }
    }
}

/// The incidents of `incidents` that meet `filter`, most recent incident
/// date first and, among equal dates, the most recently created first.
pub fn list_incidents(incidents: Vec<Incident>, filter: &IncidentFilter) -> (r: Vec<Incident>)
    ensures
        in_listing_order(r@),
        r@.to_multiset() == matching(incidents@, *filter).to_multiset(),
{
    let ghost all = incidents@;
    let mut rest = incidents;
    let mut out: Vec<Incident> = Vec::new();
    proof {
        broadcast use vstd::seq_lib::group_to_multiset_ensures;

    }
    while rest.len() > 0
        invariant
            rest@ == all.subrange(0, rest@.len() as int),
            rest@.len() <= all.len(),
            in_listing_order(out@),
            out@.to_multiset().add(matching(rest@, *filter).to_multiset()) == matching(
                all,
                *filter,
            ).to_multiset(),
        decreases rest@.len(),
    {
        let ghost prev = rest@;
        let x = rest.pop().unwrap();
        proof {
            broadcast use vstd::seq_lib::group_to_multiset_ensures;

            assert(prev.drop_last() == rest@);
            assert(all.subrange(0, rest@.len() as int) =~= prev.drop_last());
        }
        if matches_filter(&x, filter) {
            let ghost before = out@;
            insert_listed(&mut out, x);
            proof {
                broadcast use vstd::seq_lib::group_to_multiset_ensures;

                assert(matching(prev, *filter) == matching(rest@, *filter).push(x));
                assert(out@.to_multiset().add(matching(rest@, *filter).to_multiset()) =~= before.to_multiset().add(
                    matching(prev, *filter).to_multiset(),
                ));
            }
        }
    }
    proof {
        assert(matching(rest@, *filter) =~= Seq::<Incident>::empty());
        assert(out@.to_multiset().add(Seq::<Incident>::empty().to_multiset()) =~= out@.to_multiset());
    }
    out
}

} // verus!
