//! The statutory reports: the annual log, the annual summary and the
//! per-case report, plus the annual statistics that the summary joins.
use vstd::prelude::*;
use vstd::string::*;

use crate::error::AppError;
use crate::incidents::{Incident, InjuryIllnessType, OutcomeSeverity};
use crate::locations::Establishment;
use crate::text::{has_prefix, int_text, int_to_text, starts_with};
use crate::validation::{validate_employee_count, validate_hours_worked, validate_year, MAX_EMPLOYEE_COUNT, MAX_HOURS_WORKED, MAX_OSHA_DAYS, MAX_YEAR, MIN_YEAR};

verus! {

/// An upper bound on the number of incident records handed to one report;
/// far beyond what any store holds, it keeps every total within `i64`.
pub const MAX_REPORT_RECORDS: usize = 1000000000;

/// One line of the annual log.
#[derive(Debug, Clone)]
pub struct Osha300Row {
    pub case_number: i64,
    pub employee_name: String,
    pub job_title: String,
    pub incident_date: String,
    pub where_occurred: String,
    pub description: String,
    pub outcome_death: bool,
    pub outcome_days_away: bool,
    pub outcome_job_transfer: bool,
    pub outcome_other_recordable: bool,
    pub days_away_count: i64,
    pub days_restricted_count: i64,
    pub type_injury: bool,
    pub type_skin_disorder: bool,
    pub type_respiratory: bool,
    pub type_poisoning: bool,
    pub type_hearing_loss: bool,
    pub type_other_illness: bool,
}

/// The content of a log line, with its texts as character sequences.
pub struct Osha300RowView {
    pub case_number: i64,
    pub employee_name: Seq<char>,
    pub job_title: Seq<char>,
    pub incident_date: Seq<char>,
    pub where_occurred: Seq<char>,
    pub description: Seq<char>,
    pub outcome_death: bool,
    pub outcome_days_away: bool,
    pub outcome_job_transfer: bool,
    pub outcome_other_recordable: bool,
    pub days_away_count: i64,
    pub days_restricted_count: i64,
    pub type_injury: bool,
    pub type_skin_disorder: bool,
    pub type_respiratory: bool,
    pub type_poisoning: bool,
    pub type_hearing_loss: bool,
    pub type_other_illness: bool,
}

impl View for Osha300Row {
    type V = Osha300RowView;

    open spec fn view(&self) -> Osha300RowView {
        Osha300RowView {
            case_number: self.case_number,
            employee_name: self.employee_name@,
            job_title: self.job_title@,
            incident_date: self.incident_date@,
            where_occurred: self.where_occurred@,
            description: self.description@,
            outcome_death: self.outcome_death,
            outcome_days_away: self.outcome_days_away,
            outcome_job_transfer: self.outcome_job_transfer,
            outcome_other_recordable: self.outcome_other_recordable,
            days_away_count: self.days_away_count,
            days_restricted_count: self.days_restricted_count,
            type_injury: self.type_injury,
            type_skin_disorder: self.type_skin_disorder,
            type_respiratory: self.type_respiratory,
            type_poisoning: self.type_poisoning,
            type_hearing_loss: self.type_hearing_loss,
            type_other_illness: self.type_other_illness,
        }
    }
}

/// The name that stands for the employee in every report of a privacy case.
pub open spec fn privacy_label() -> Seq<char> {
    "Privacy Case"@
}

/// The employee name as a report shows it: masked for a privacy case.
pub open spec fn reported_name(x: Incident) -> Seq<char> {
    if x.is_privacy_case {
        privacy_label()
    } else {
        x.employee_name@
    }
}

/// An optional text, empty when absent.
pub open spec fn text_or_empty(t: Option<String>) -> Seq<char> {
    match t {
        Some(s) => s@,
        None => Seq::empty(),
    }
}

/// The log line of incident `x`.
pub open spec fn log_row(x: Incident) -> Osha300RowView {
    Osha300RowView {
        case_number: match x.case_number {
            Some(c) => c,
            None => 0,
        },
        employee_name: reported_name(x),
        job_title: text_or_empty(x.employee_job_title),
        incident_date: x.incident_date@,
        where_occurred: text_or_empty(x.where_occurred),
        description: x.description@,
        outcome_death: x.outcome_severity == OutcomeSeverity::Death,
        outcome_days_away: x.outcome_severity == OutcomeSeverity::DaysAway,
        outcome_job_transfer: x.outcome_severity == OutcomeSeverity::JobTransferRestriction,
        outcome_other_recordable: x.outcome_severity == OutcomeSeverity::OtherRecordable,
        days_away_count: x.days_away_count,
        days_restricted_count: x.days_restricted_count,
        type_injury: x.injury_illness_type == InjuryIllnessType::Injury,
        type_skin_disorder: x.injury_illness_type == InjuryIllnessType::SkinDisorder,
        type_respiratory: x.injury_illness_type == InjuryIllnessType::Respiratory,
        type_poisoning: x.injury_illness_type == InjuryIllnessType::Poisoning,
        type_hearing_loss: x.injury_illness_type == InjuryIllnessType::HearingLoss,
        type_other_illness: x.injury_illness_type == InjuryIllnessType::OtherIllness,
    }
}

/// Incident `x` belongs in the reports of establishment `e` for the year
/// spelled `y`: it is that establishment's, its date starts with `y`, and it
/// is recordable.
pub open spec fn in_report(x: Incident, e: i64, y: Seq<char>) -> bool {
    x.establishment_id == e && has_prefix(x.incident_date@, y) && x.is_recordable
}

/// The incidents of `s` that the reports of establishment `e` for year `y`
/// cover, in their order in `s`.
pub open spec fn report_source(s: Seq<Incident>, e: i64, y: Seq<char>) -> Seq<Incident>
    decreases s.len(),
{
    if s.len() == 0 {
        s
    } else if in_report(s.last(), e, y) {
        report_source(s.drop_last(), e, y).push(s.last())
    } else {
        report_source(s.drop_last(), e, y)
    }
}

/// The log lines of the incidents in `s`, in order.
pub open spec fn log_rows(s: Seq<Incident>) -> Seq<Osha300RowView> {
    s.map_values(|x: Incident| log_row(x))
}

/// The views of the lines in `r`.
pub open spec fn row_views(r: Seq<Osha300Row>) -> Seq<Osha300RowView> {
    r.map_values(|x: Osha300Row| x@)
}

/// No line of `r` has a smaller case number than one before it.
pub open spec fn by_case_number(r: Seq<Osha300Row>) -> bool {
    forall|i: int, j: int| 0 <= i < j < r.len() ==> (#[trigger] r[i]).case_number <= (#[trigger] r[j]).case_number
}

fn opt_text(t: &Option<String>) -> (r: String)
    ensures
        r@ == text_or_empty(*t),
{
    match t {
        Some(s) => s.clone(),
        None => String::new(),
    }
}

fn name_in_report(x: &Incident) -> (r: String)
    ensures
        r@ == reported_name(*x),
{
    if x.is_privacy_case {
        String::from_str("Privacy Case")
    } else {
        x.employee_name.clone()
    }
}

/// Builds the log line of one incident.
pub fn log_row_of(x: &Incident) -> (r: Osha300Row)
    ensures
        r@ == log_row(*x),
{
    proof {
        reveal_strlit("Privacy Case");
    }
    Osha300Row {
        case_number: match x.case_number {
            Some(c) => c,
            None => 0,
        },
        employee_name: name_in_report(x),
        job_title: opt_text(&x.employee_job_title),
        incident_date: x.incident_date.clone(),
        where_occurred: opt_text(&x.where_occurred),
        description: x.description.clone(),
        outcome_death: x.outcome_severity == OutcomeSeverity::Death,
        outcome_days_away: x.outcome_severity == OutcomeSeverity::DaysAway,
        outcome_job_transfer: x.outcome_severity == OutcomeSeverity::JobTransferRestriction,
        outcome_other_recordable: x.outcome_severity == OutcomeSeverity::OtherRecordable,
        days_away_count: x.days_away_count,
        days_restricted_count: x.days_restricted_count,
        type_injury: x.injury_illness_type == InjuryIllnessType::Injury,
        type_skin_disorder: x.injury_illness_type == InjuryIllnessType::SkinDisorder,
        type_respiratory: x.injury_illness_type == InjuryIllnessType::Respiratory,
        type_poisoning: x.injury_illness_type == InjuryIllnessType::Poisoning,
        type_hearing_loss: x.injury_illness_type == InjuryIllnessType::HearingLoss,
        type_other_illness: x.injury_illness_type == InjuryIllnessType::OtherIllness,
    }
}

fn insert_by_case(out: &mut Vec<Osha300Row>, x: Osha300Row)
    requires
        by_case_number(old(out)@),
    ensures
        by_case_number(final(out)@),
        row_views(final(out)@).to_multiset() == row_views(old(out)@).to_multiset().insert(x@),
{
    let mut pos: usize = 0;
    while pos < out.len() && out[pos].case_number <= x.case_number
        invariant
            pos <= out@.len(),
            forall|k: int| 0 <= k < pos ==> (#[trigger] out@[k]).case_number <= x.case_number,
        decreases out@.len() - pos,
    {
        pos = pos + 1;
    }
    let ghost before = out@;
    out.insert(pos, x);
    proof {
        broadcast use vstd::seq_lib::group_to_multiset_ensures;

        assert(row_views(out@) =~= row_views(before).insert(pos as int, x@));
        vstd::seq_lib::to_multiset_insert(row_views(before), pos as int, x@);
        let s = out@;
        assert forall|i: int, j: int| 0 <= i < j < s.len() implies (#[trigger] s[i]).case_number
            <= (#[trigger] s[j]).case_number by {
            if j < pos {
                assert(s[i] == before[i] && s[j] == before[j]);
            } else if j == pos {
                assert(s[i] == before[i]);
            } else if i == pos {
                assert(s[j] == before[j - 1]);
                assert(before[pos as int].case_number <= before[j - 1].case_number);
            } else if i < pos {
                assert(s[i] == before[i] && s[j] == before[j - 1]);
            } else {
                assert(s[i] == before[i - 1] && s[j] == before[j - 1]);
            }
        }
    }
}

/// The annual log of establishment `establishment_id` for `year`: a line for
/// each recordable incident of that establishment whose date starts with the
/// year, ordered by case number, the employee name masked for privacy cases.
pub fn get_osha_300_log(incidents: &Vec<Incident>, establishment_id: i64, year: i64) -> (r: Vec<
    Osha300Row,
>)
    ensures
        by_case_number(r@),
        row_views(r@).to_multiset() == log_rows(
            report_source(incidents@, establishment_id, int_text(year as int)),
        ).to_multiset(),
        r@.len() == report_source(incidents@, establishment_id, int_text(year as int)).len(),
{
    let year_text = int_to_text(year);
    let ghost y = int_text(year as int);
    let mut out: Vec<Osha300Row> = Vec::new();
    let mut i: usize = 0;
    proof {
        assert(row_views(out@) =~= Seq::<Osha300RowView>::empty());
        assert(incidents@.subrange(0, 0) =~= Seq::<Incident>::empty());
        assert(log_rows(report_source(incidents@.subrange(0, 0), establishment_id, y))
            =~= Seq::<Osha300RowView>::empty());
    }
    while i < incidents.len()
        invariant
            i <= incidents@.len(),
            year_text@ == y,
            by_case_number(out@),
            row_views(out@).to_multiset() == log_rows(
                report_source(incidents@.subrange(0, i as int), establishment_id, y),
            ).to_multiset(),
        decreases incidents@.len() - i,
    {
        let x = &incidents[i];
        let ghost prefix = incidents@.subrange(0, i as int);
        let ghost next = incidents@.subrange(0, i + 1);
        assert(next.drop_last() =~= prefix);
        if x.establishment_id == establishment_id && x.is_recordable && starts_with(
            x.incident_date.as_str(),
            year_text.as_str(),
        ) {
            let row = log_row_of(x);
            insert_by_case(&mut out, row);
            proof {
                broadcast use vstd::seq_lib::group_to_multiset_ensures;

                assert(log_rows(report_source(next, establishment_id, y)) =~= log_rows(
                    report_source(prefix, establishment_id, y),
                ).push(log_row(*x)));
            }
        }
        i = i + 1;
    }
    assert(incidents@.subrange(0, i as int) =~= incidents@);
    proof {
        broadcast use vstd::seq_lib::group_to_multiset_ensures;

        let src = report_source(incidents@, establishment_id, y);
        assert(row_views(out@).len() == out@.len());
        assert(log_rows(src).len() == src.len());
        vstd::seq_lib::to_multiset_len(row_views(out@));
        vstd::seq_lib::to_multiset_len(log_rows(src));
    }
    out
}

/// The certified yearly statistics of an establishment.
#[derive(Debug, Clone)]
pub struct AnnualStats {
    pub id: i64,
    pub establishment_id: i64,
    pub year: i64,
    pub avg_employees: i64,
    pub total_hours_worked: i64,
    pub certifier_name: Option<String>,
    pub certifier_title: Option<String>,
    pub certifier_phone: Option<String>,
    pub certification_date: Option<String>,
}

/// The yearly statistics to store for an establishment, replacing any
/// earlier ones for that year.
#[derive(Debug, Clone)]
pub struct UpsertAnnualStats {
    pub establishment_id: i64,
    pub year: i64,
    pub avg_employees: i64,
    pub total_hours_worked: i64,
    pub certifier_name: Option<String>,
    pub certifier_title: Option<String>,
    pub certifier_phone: Option<String>,
    pub certification_date: Option<String>,
}

/// Checks yearly statistics before they are stored: a year within range, and
/// an employee count and hours worked that are neither negative nor
/// implausibly large.
pub fn validate_annual_stats(data: &UpsertAnnualStats) -> (r: Result<(), AppError>)
    ensures
        r is Ok <==> (MIN_YEAR <= data.year <= MAX_YEAR && 0 <= data.avg_employees
            <= MAX_EMPLOYEE_COUNT && 0 <= data.total_hours_worked <= MAX_HOURS_WORKED),
        r is Err ==> r matches Err(AppError::Validation(_)),
{
    validate_year(data.year)?;
    validate_employee_count(data.avg_employees)?;
    validate_hours_worked(data.total_hours_worked)
}

/// The annual summary of one establishment and year.
#[derive(Debug, Clone)]
pub struct Osha300ASummary {
    pub year: i64,
    pub establishment_name: String,
    pub street_address: String,
    pub city: String,
    pub state: String,
    pub zip_code: String,
    pub industry_description: String,
    pub naics_code: String,
    pub total_deaths: i64,
    pub total_days_away_cases: i64,
    pub total_transfer_restriction_cases: i64,
    pub total_other_recordable_cases: i64,
    pub total_days_away: i64,
    pub total_days_restricted: i64,
    pub total_injuries: i64,
    pub total_skin_disorders: i64,
    pub total_respiratory: i64,
    pub total_poisonings: i64,
    pub total_hearing_loss: i64,
    pub total_other_illnesses: i64,
    pub avg_employees: Option<i64>,
    pub total_hours_worked: Option<i64>,
    pub certifier_name: Option<String>,
    pub certifier_title: Option<String>,
    pub certifier_phone: Option<String>,
    pub certification_date: Option<String>,
}

/// How many incidents of `s` have outcome `k`.
pub open spec fn count_outcome(s: Seq<Incident>, k: OutcomeSeverity) -> nat
    decreases s.len(),
{
    if s.len() == 0 {
        0
    } else {
        count_outcome(s.drop_last(), k) + if s.last().outcome_severity == k {
            1nat
        } else {
            0nat
        }
    }
}

/// How many incidents of `s` are of type `t`.
pub open spec fn count_kind(s: Seq<Incident>, t: InjuryIllnessType) -> nat
    decreases s.len(),
{
    if s.len() == 0 {
        0
    } else {
        count_kind(s.drop_last(), t) + if s.last().injury_illness_type == t {
            1nat
        } else {
            0nat
        }
    }
}

/// The days away from work summed over `s`.
pub open spec fn sum_days_away(s: Seq<Incident>) -> int
    decreases s.len(),
{
    if s.len() == 0 {
        0
    } else {
        sum_days_away(s.drop_last()) + s.last().days_away_count
    }
}

/// The days of restricted work summed over `s`.
pub open spec fn sum_days_restricted(s: Seq<Incident>) -> int
    decreases s.len(),
{
    if s.len() == 0 {
        0
    } else {
        sum_days_restricted(s.drop_last()) + s.last().days_restricted_count
    }
}

/// Every record of `s` is well formed.
pub open spec fn all_wf(s: Seq<Incident>) -> bool {
    forall|i: int| 0 <= i < s.len() ==> (#[trigger] s[i]).wf()
}

/// The summary's totals: over the incidents that the log of establishment `e`
/// for year `y` covers, the count of each outcome and of each type, and the
/// day counts summed.
pub open spec fn summary_totals_match(r: Osha300ASummary, s: Seq<Incident>) -> bool {
    &&& r.total_deaths == count_outcome(s, OutcomeSeverity::Death)
    &&& r.total_days_away_cases == count_outcome(s, OutcomeSeverity::DaysAway)
    &&& r.total_transfer_restriction_cases == count_outcome(
        s,
        OutcomeSeverity::JobTransferRestriction,
    )
    &&& r.total_other_recordable_cases == count_outcome(s, OutcomeSeverity::OtherRecordable)
    &&& r.total_days_away == sum_days_away(s)
    &&& r.total_days_restricted == sum_days_restricted(s)
    &&& r.total_injuries == count_kind(s, InjuryIllnessType::Injury)
    &&& r.total_skin_disorders == count_kind(s, InjuryIllnessType::SkinDisorder)
    &&& r.total_respiratory == count_kind(s, InjuryIllnessType::Respiratory)
    &&& r.total_poisonings == count_kind(s, InjuryIllnessType::Poisoning)
    &&& r.total_hearing_loss == count_kind(s, InjuryIllnessType::HearingLoss)
    &&& r.total_other_illnesses == count_kind(s, InjuryIllnessType::OtherIllness)
}

/// The summary's establishment and certification fields: the establishment's
/// identity with absent address fields empty, and the statistics' figures
/// and certifier when statistics exist for the year, absent otherwise.
pub open spec fn summary_header_match(
    r: Osha300ASummary,
    est: Establishment,
    year: i64,
    stats: Option<AnnualStats>,
) -> bool {
    &&& r.year == year
    &&& r.establishment_name@ == est.name@
    &&& r.street_address@ == text_or_empty(est.street_address)
    &&& r.city@ == text_or_empty(est.city)
    &&& r.state@ == text_or_empty(est.state)
    &&& r.zip_code@ == text_or_empty(est.zip_code)
    &&& r.industry_description@ == text_or_empty(est.industry_description)
    &&& r.naics_code@ == text_or_empty(est.naics_code)
    &&& match stats {
        Some(st) => {
            &&& r.avg_employees == Some(st.avg_employees)
            &&& r.total_hours_worked == Some(st.total_hours_worked)
            &&& r.certifier_name == st.certifier_name
            &&& r.certifier_title == st.certifier_title
            &&& r.certifier_phone == st.certifier_phone
            &&& r.certification_date == st.certification_date
        },
        None => {
            &&& r.avg_employees is None
            &&& r.total_hours_worked is None
            &&& r.certifier_name is None
            &&& r.certifier_title is None
            &&& r.certifier_phone is None
            &&& r.certification_date is None
        },
    }
}

proof fn lemma_counts_bounded(s: Seq<Incident>)
    requires
        all_wf(s),
    ensures
        forall|k: OutcomeSeverity| #[trigger] count_outcome(s, k) <= s.len(),
        forall|t: InjuryIllnessType| #[trigger] count_kind(s, t) <= s.len(),
        0 <= sum_days_away(s) <= MAX_OSHA_DAYS * s.len(),
        0 <= sum_days_restricted(s) <= MAX_OSHA_DAYS * s.len(),
    decreases s.len(),
{
    if s.len() > 0 {
        let p = s.drop_last();
        assert(all_wf(p)) by {
            assert forall|i: int| 0 <= i < p.len() implies (#[trigger] p[i]).wf() by {
                assert(p[i] == s[i]);
            }
        }
        lemma_counts_bounded(p);
        assert forall|k: OutcomeSeverity| #[trigger] count_outcome(s, k) <= s.len() by {
            assert(count_outcome(p, k) <= p.len());
        }
        assert forall|t: InjuryIllnessType| #[trigger] count_kind(s, t) <= s.len() by {
            assert(count_kind(p, t) <= p.len());
        }
        assert(s.last().wf()) by {
            assert(s[s.len() - 1].wf());
        }
        assert(MAX_OSHA_DAYS * s.len() == MAX_OSHA_DAYS * p.len() + MAX_OSHA_DAYS) by (nonlinear_arith)
            requires
                s.len() == p.len() + 1,
        ;
    }
}

proof fn lemma_report_source_len(s: Seq<Incident>, e: i64, y: Seq<char>)
    ensures
        report_source(s, e, y).len() <= s.len(),
        all_wf(s) ==> all_wf(report_source(s, e, y)),
    decreases s.len(),
{
    if s.len() > 0 {
        let p = s.drop_last();
        lemma_report_source_len(p, e, y);
        if all_wf(s) {
            assert(all_wf(p)) by {
                assert forall|i: int| 0 <= i < p.len() implies (#[trigger] p[i]).wf() by {
                    assert(p[i] == s[i]);
                }
            }
            assert(s[s.len() - 1].wf());
            let r = report_source(s, e, y);
            assert forall|i: int| 0 <= i < r.len() implies (#[trigger] r[i]).wf() by {
                if i < report_source(p, e, y).len() {
                    assert(r[i] == report_source(p, e, y)[i]);
                }
            }
        }
    }
}

fn opt_copy(t: &Option<String>) -> (r: Option<String>)
    ensures
        r == *t,
{
    match t {
        Some(s) => Some(s.clone()),
        None => None,
    }
}

/// The annual summary of establishment `est` for `year`: its identity, the
/// totals over the same incidents as the annual log (see
/// `summary_totals_match`), and the year's statistics when there are any.
pub fn get_osha_300a_summary(
    est: &Establishment,
    incidents: &Vec<Incident>,
    year: i64,
    stats: Option<AnnualStats>,
) -> (r: Osha300ASummary)
    requires
        incidents@.len() <= MAX_REPORT_RECORDS,
        all_wf(incidents@),
    ensures
        summary_totals_match(r, report_source(incidents@, est.id, int_text(year as int))),
        summary_header_match(r, *est, year, stats),
{
    let year_text = int_to_text(year);
    let ghost y = int_text(year as int);
    let ghost e = est.id;
    let mut deaths: i64 = 0;
    let mut days_away_cases: i64 = 0;
    let mut transfer_cases: i64 = 0;
    let mut other_cases: i64 = 0;
    let mut days_away: i64 = 0;
    let mut days_restricted: i64 = 0;
    let mut injuries: i64 = 0;
    let mut skin: i64 = 0;
    let mut respiratory: i64 = 0;
    let mut poisonings: i64 = 0;
    let mut hearing: i64 = 0;
    let mut other_illnesses: i64 = 0;
    let mut i: usize = 0;
    assert(incidents@.subrange(0, 0) =~= Seq::<Incident>::empty());
    while i < incidents.len()
        invariant
            i <= incidents@.len(),
            incidents@.len() <= MAX_REPORT_RECORDS,
            all_wf(incidents@),
            year_text@ == y,
            e == est.id,
            ({
                let src = report_source(incidents@.subrange(0, i as int), e, y);
                &&& deaths == count_outcome(src, OutcomeSeverity::Death)
                &&& days_away_cases == count_outcome(src, OutcomeSeverity::DaysAway)
                &&& transfer_cases == count_outcome(src, OutcomeSeverity::JobTransferRestriction)
                &&& other_cases == count_outcome(src, OutcomeSeverity::OtherRecordable)
                &&& days_away == sum_days_away(src)
                &&& days_restricted == sum_days_restricted(src)
                &&& injuries == count_kind(src, InjuryIllnessType::Injury)
                &&& skin == count_kind(src, InjuryIllnessType::SkinDisorder)
                &&& respiratory == count_kind(src, InjuryIllnessType::Respiratory)
                &&& poisonings == count_kind(src, InjuryIllnessType::Poisoning)
                &&& hearing == count_kind(src, InjuryIllnessType::HearingLoss)
                &&& other_illnesses == count_kind(src, InjuryIllnessType::OtherIllness)
            }),
        decreases incidents@.len() - i,
    {
        let x = &incidents[i];
        let ghost prefix = incidents@.subrange(0, i as int);
        let ghost next = incidents@.subrange(0, i + 1);
        assert(next.drop_last() =~= prefix);
        if x.establishment_id == est.id && x.is_recordable && starts_with(
            x.incident_date.as_str(),
            year_text.as_str(),
        ) {
            proof {
                assert(next.last() == incidents@[i as int]);
                assert(all_wf(next)) by {
                    assert forall|k: int| 0 <= k < next.len() implies (#[trigger] next[k]).wf() by {
                        assert(next[k] == incidents@[k]);
                    }
                }
                assert(all_wf(prefix)) by {
                    assert forall|k: int| 0 <= k < prefix.len() implies (#[trigger] prefix[k]).wf() by {
                        assert(prefix[k] == incidents@[k]);
                    }
                }
                lemma_report_source_len(prefix, e, y);
                lemma_counts_bounded(report_source(prefix, e, y));
                assert(count_outcome(report_source(prefix, e, y), x.outcome_severity) <= i);
                assert(count_kind(report_source(prefix, e, y), x.injury_illness_type) <= i);
                assert(MAX_OSHA_DAYS * report_source(prefix, e, y).len() <= MAX_OSHA_DAYS * MAX_REPORT_RECORDS) by (nonlinear_arith)
                    requires
                        report_source(prefix, e, y).len() <= MAX_REPORT_RECORDS,
                ;
                assert(report_source(next, e, y) == report_source(prefix, e, y).push(*x));
                assert(report_source(next, e, y).drop_last() =~= report_source(prefix, e, y));
            }
            match x.outcome_severity {
                OutcomeSeverity::Death => deaths = deaths + 1,
                OutcomeSeverity::DaysAway => days_away_cases = days_away_cases + 1,
                OutcomeSeverity::JobTransferRestriction => transfer_cases = transfer_cases + 1,
                OutcomeSeverity::OtherRecordable => other_cases = other_cases + 1,
            }
            match x.injury_illness_type {
                InjuryIllnessType::Injury => injuries = injuries + 1,
                InjuryIllnessType::SkinDisorder => skin = skin + 1,
                InjuryIllnessType::Respiratory => respiratory = respiratory + 1,
                InjuryIllnessType::Poisoning => poisonings = poisonings + 1,
                InjuryIllnessType::HearingLoss => hearing = hearing + 1,
                InjuryIllnessType::OtherIllness => other_illnesses = other_illnesses + 1,
            }
            days_away = days_away + x.days_away_count;
            days_restricted = days_restricted + x.days_restricted_count;
        }
        i = i + 1;
    }
    assert(incidents@.subrange(0, i as int) =~= incidents@);
    Osha300ASummary {
        year,
        establishment_name: est.name.clone(),
        street_address: opt_text(&est.street_address),
        city: opt_text(&est.city),
        state: opt_text(&est.state),
        zip_code: opt_text(&est.zip_code),
        industry_description: opt_text(&est.industry_description),
        naics_code: opt_text(&est.naics_code),
        total_deaths: deaths,
        total_days_away_cases: days_away_cases,
        total_transfer_restriction_cases: transfer_cases,
        total_other_recordable_cases: other_cases,
        total_days_away: days_away,
        total_days_restricted: days_restricted,
        total_injuries: injuries,
        total_skin_disorders: skin,
        total_respiratory: respiratory,
        total_poisonings: poisonings,
        total_hearing_loss: hearing,
        total_other_illnesses: other_illnesses,
        avg_employees: match &stats {
            Some(st) => Some(st.avg_employees),
            None => None,
        },
        total_hours_worked: match &stats {
            Some(st) => Some(st.total_hours_worked),
            None => None,
        },
        certifier_name: match &stats {
            Some(st) => opt_copy(&st.certifier_name),
            None => None,
        },
        certifier_title: match &stats {
            Some(st) => opt_copy(&st.certifier_title),
            None => None,
        },
        certifier_phone: match &stats {
            Some(st) => opt_copy(&st.certifier_phone),
            None => None,
        },
        certification_date: match &stats {
            Some(st) => opt_copy(&st.certification_date),
            None => None,
        },
    }
}

proof fn lemma_outcome_counts_total(s: Seq<Incident>)
    ensures
        count_outcome(s, OutcomeSeverity::Death) + count_outcome(s, OutcomeSeverity::DaysAway)
            + count_outcome(s, OutcomeSeverity::JobTransferRestriction) + count_outcome(
            s,
            OutcomeSeverity::OtherRecordable,
        ) == s.len(),
        count_kind(s, InjuryIllnessType::Injury) + count_kind(s, InjuryIllnessType::SkinDisorder)
            + count_kind(s, InjuryIllnessType::Respiratory) + count_kind(
            s,
            InjuryIllnessType::Poisoning,
        ) + count_kind(s, InjuryIllnessType::HearingLoss) + count_kind(
            s,
            InjuryIllnessType::OtherIllness,
        ) == s.len(),
    decreases s.len(),
{
    if s.len() > 0 {
        lemma_outcome_counts_total(s.drop_last());
    }
}

/// The annual summary agrees with the annual log: for the same incidents,
/// establishment and year, its four outcome totals add up to the number of
/// log lines, and so do its six type totals.
pub proof fn lemma_summary_totals_equal_log_rows(
    incidents: Seq<Incident>,
    e: i64,
    year: i64,
    summary: Osha300ASummary,
    log: Seq<Osha300Row>,
)
    requires
        summary_totals_match(summary, report_source(incidents, e, int_text(year as int))),
        log.len() == report_source(incidents, e, int_text(year as int)).len(),
    ensures
        summary.total_deaths + summary.total_days_away_cases
            + summary.total_transfer_restriction_cases + summary.total_other_recordable_cases
            == log.len(),
        summary.total_injuries + summary.total_skin_disorders + summary.total_respiratory
            + summary.total_poisonings + summary.total_hearing_loss + summary.total_other_illnesses
            == log.len(),
{
    lemma_outcome_counts_total(report_source(incidents, e, int_text(year as int)));
}

/// The detailed report of a single case.
#[derive(Debug, Clone)]
pub struct Osha301Report {
    pub case_number: i64,
    pub employee_name: String,
    pub employee_address: String,
    pub employee_city: String,
    pub employee_state: String,
    pub employee_zip: String,
    pub employee_dob: String,
    pub employee_hire_date: String,
    pub employee_gender: String,
    pub physician_name: String,
    pub treatment_facility: String,
    pub facility_address: String,
    pub facility_city_state_zip: String,
    pub treated_in_er: bool,
    pub hospitalized_overnight: bool,
    pub incident_date: String,
    pub incident_time: String,
    pub work_start_time: String,
    pub where_occurred: String,
    pub activity_before_incident: String,
    pub how_injury_occurred: String,
    pub injury_description: String,
    pub object_substance: String,
    pub date_of_death: String,
    pub completed_by: String,
    pub completed_by_title: String,
    pub completed_by_phone: String,
    pub completed_date: String,
}

/// Report `r` is the per-case report of incident `x`: its case number (0
/// when it has none), the employee name masked for a privacy case, each
/// optional text empty when absent and each optional flag false when absent.
pub open spec fn case_report_of(r: Osha301Report, x: Incident) -> bool {
    &&& r.case_number == match x.case_number {
        Some(c) => c,
        None => 0,
    }
    &&& r.employee_name@ == reported_name(x)
    &&& r.employee_address@ == text_or_empty(x.employee_address)
    &&& r.employee_city@ == text_or_empty(x.employee_city)
    &&& r.employee_state@ == text_or_empty(x.employee_state)
    &&& r.employee_zip@ == text_or_empty(x.employee_zip)
    &&& r.employee_dob@ == text_or_empty(x.employee_dob)
    &&& r.employee_hire_date@ == text_or_empty(x.employee_hire_date)
    &&& r.employee_gender@ == text_or_empty(x.employee_gender)
    &&& r.physician_name@ == text_or_empty(x.physician_name)
    &&& r.treatment_facility@ == text_or_empty(x.treatment_facility)
    &&& r.facility_address@ == text_or_empty(x.facility_address)
    &&& r.facility_city_state_zip@ == text_or_empty(x.facility_city_state_zip)
    &&& r.treated_in_er == (x.treated_in_er == Some(true))
    &&& r.hospitalized_overnight == (x.hospitalized_overnight == Some(true))
    &&& r.incident_date@ == x.incident_date@
    &&& r.incident_time@ == text_or_empty(x.incident_time)
    &&& r.work_start_time@ == text_or_empty(x.work_start_time)
    &&& r.where_occurred@ == text_or_empty(x.where_occurred)
    &&& r.activity_before_incident@ == text_or_empty(x.activity_before_incident)
    &&& r.how_injury_occurred@ == text_or_empty(x.how_injury_occurred)
    &&& r.injury_description@ == text_or_empty(x.injury_description)
    &&& r.object_substance@ == text_or_empty(x.object_substance)
    &&& r.date_of_death@ == text_or_empty(x.date_of_death)
    &&& r.completed_by@ == text_or_empty(x.completed_by)
    &&& r.completed_by_title@ == text_or_empty(x.completed_by_title)
    &&& r.completed_by_phone@ == text_or_empty(x.completed_by_phone)
    &&& r.completed_date@ == text_or_empty(x.completed_date)
}

/// The per-case report of an incident, whether recordable or not.
pub fn get_osha_301_report(x: &Incident) -> (r: Osha301Report)
    ensures
        case_report_of(r, *x),
{
    Osha301Report {
        case_number: match x.case_number {
            Some(c) => c,
            None => 0,
        },
        employee_name: name_in_report(x),
        employee_address: opt_text(&x.employee_address),
        employee_city: opt_text(&x.employee_city),
        employee_state: opt_text(&x.employee_state),
        employee_zip: opt_text(&x.employee_zip),
        employee_dob: opt_text(&x.employee_dob),
        employee_hire_date: opt_text(&x.employee_hire_date),
        employee_gender: opt_text(&x.employee_gender),
        physician_name: opt_text(&x.physician_name),
        treatment_facility: opt_text(&x.treatment_facility),
        facility_address: opt_text(&x.facility_address),
        facility_city_state_zip: opt_text(&x.facility_city_state_zip),
        treated_in_er: x.treated_in_er == Some(true),
        hospitalized_overnight: x.hospitalized_overnight == Some(true),
        incident_date: x.incident_date.clone(),
        incident_time: opt_text(&x.incident_time),
        work_start_time: opt_text(&x.work_start_time),
        where_occurred: opt_text(&x.where_occurred),
        activity_before_incident: opt_text(&x.activity_before_incident),
        how_injury_occurred: opt_text(&x.how_injury_occurred),
        injury_description: opt_text(&x.injury_description),
        object_substance: opt_text(&x.object_substance),
        date_of_death: opt_text(&x.date_of_death),
        completed_by: opt_text(&x.completed_by),
        completed_by_title: opt_text(&x.completed_by_title),
        completed_by_phone: opt_text(&x.completed_by_phone),
        completed_date: opt_text(&x.completed_date),
    }
}

/// Every report shows a privacy case under the name "Privacy Case", while
/// the record itself keeps the employee's name.
pub proof fn lemma_privacy_case_masked(x: Incident, row: Osha300Row, report: Osha301Report)
    requires
        x.is_privacy_case,
        row@ == log_row(x),
        case_report_of(report, x),
    ensures
        row.employee_name@ == "Privacy Case"@,
        report.employee_name@ == "Privacy Case"@,
{
}

/// Renders a flag of the exported log: `"X"` when set, empty otherwise.
pub fn bool_to_x(v: bool) -> (r: String)
    ensures
        r@ == flag_text(v),
{
    proof {
        reveal_strlit("X");
    }
    if v {
        String::from_str("X")
    } else {
        String::new()
    }
}

/// The text of a flag in the exported log.
pub open spec fn flag_text(v: bool) -> Seq<char> {
    if v {
        seq!['X']
    } else {
        Seq::empty()
    }
}

/// The header of the exported log.
pub open spec fn export_header() -> Seq<Seq<char>> {
    seq![
        "Case No."@,
        "Employee Name"@,
        "Job Title"@,
        "Date of Injury/Illness"@,
        "Where Event Occurred"@,
        "Description of Injury/Illness"@,
        "Death"@,
        "Days Away From Work"@,
        "Job Transfer or Restriction"@,
        "Other Recordable Cases"@,
        "Days Away From Work (Count)"@,
        "Days of Restricted Work (Count)"@,
        "Injury"@,
        "Skin Disorder"@,
        "Respiratory Condition"@,
        "Poisoning"@,
        "Hearing Loss"@,
        "All Other Illnesses"@,
    ]
}

/// The exported fields of a log line, in header order.
pub open spec fn export_fields(r: Osha300RowView) -> Seq<Seq<char>> {
    seq![
        int_text(r.case_number as int),
        r.employee_name,
        r.job_title,
        r.incident_date,
        r.where_occurred,
        r.description,
        flag_text(r.outcome_death),
        flag_text(r.outcome_days_away),
        flag_text(r.outcome_job_transfer),
        flag_text(r.outcome_other_recordable),
        int_text(r.days_away_count as int),
        int_text(r.days_restricted_count as int),
        flag_text(r.type_injury),
        flag_text(r.type_skin_disorder),
        flag_text(r.type_respiratory),
        flag_text(r.type_poisoning),
        flag_text(r.type_hearing_loss),
        flag_text(r.type_other_illness),
    ]
}

/// The texts of a record.
pub open spec fn record_texts(r: Seq<String>) -> Seq<Seq<char>> {
    r.map_values(|t: String| t@)
}

fn push_text(v: &mut Vec<String>, t: &str)
    ensures
        record_texts(final(v)@) == record_texts(old(v)@).push(t@),
{
    let ghost before = v@;
    v.push(String::from_str(t));
    assert(record_texts(v@) =~= record_texts(before).push(t@));
}

fn push_string(v: &mut Vec<String>, t: String)
    ensures
        record_texts(final(v)@) == record_texts(old(v)@).push(t@),
{
    let ghost before = v@;
    let ghost tv = t@;
    v.push(t);
    assert(record_texts(v@) =~= record_texts(before).push(tv));
}

/// The header record of the exported log: eighteen fixed column names.
pub fn export_header_record() -> (r: Vec<String>)
    ensures
        record_texts(r@) == export_header(),
{
    let mut v: Vec<String> = Vec::new();
    assert(record_texts(v@) =~= Seq::<Seq<char>>::empty());
    push_text(&mut v, "Case No.");
    push_text(&mut v, "Employee Name");
    push_text(&mut v, "Job Title");
    push_text(&mut v, "Date of Injury/Illness");
    push_text(&mut v, "Where Event Occurred");
    push_text(&mut v, "Description of Injury/Illness");
    push_text(&mut v, "Death");
    push_text(&mut v, "Days Away From Work");
    push_text(&mut v, "Job Transfer or Restriction");
    push_text(&mut v, "Other Recordable Cases");
    push_text(&mut v, "Days Away From Work (Count)");
    push_text(&mut v, "Days of Restricted Work (Count)");
    push_text(&mut v, "Injury");
    push_text(&mut v, "Skin Disorder");
    push_text(&mut v, "Respiratory Condition");
    push_text(&mut v, "Poisoning");
    push_text(&mut v, "Hearing Loss");
    push_text(&mut v, "All Other Illnesses");
    assert(record_texts(v@) =~= export_header());
    v
}

/// The exported record of one log line: numbers in decimal and flags as
/// `"X"` or empty.
pub fn export_record(row: &Osha300Row) -> (r: Vec<String>)
    ensures
        record_texts(r@) == export_fields(row@),
{
    let c0 = int_to_text(row.case_number);
    let c1 = row.employee_name.clone();
    let c2 = row.job_title.clone();
    let c3 = row.incident_date.clone();
    let c4 = row.where_occurred.clone();
    let c5 = row.description.clone();
    let c6 = bool_to_x(row.outcome_death);
    let c7 = bool_to_x(row.outcome_days_away);
    let c8 = bool_to_x(row.outcome_job_transfer);
    let c9 = bool_to_x(row.outcome_other_recordable);
    let c10 = int_to_text(row.days_away_count);
    let c11 = int_to_text(row.days_restricted_count);
    let c12 = bool_to_x(row.type_injury);
    let c13 = bool_to_x(row.type_skin_disorder);
    let c14 = bool_to_x(row.type_respiratory);
    let c15 = bool_to_x(row.type_poisoning);
    let c16 = bool_to_x(row.type_hearing_loss);
    let c17 = bool_to_x(row.type_other_illness);
    let ghost texts = seq![
        c0@, c1@, c2@, c3@, c4@, c5@, c6@, c7@, c8@, c9@, c10@, c11@, c12@, c13@, c14@, c15@,
        c16@, c17@,
    ];
    assert(texts =~= export_fields(row@));
    let v = vec![c0, c1, c2, c3, c4, c5, c6, c7, c8, c9, c10, c11, c12, c13, c14, c15, c16, c17];
    assert(record_texts(v@) =~= texts);
    v
}

/// The records of the exported annual log: the header, then one record per
/// log line in order.
pub fn export_osha_300_records(rows: &Vec<Osha300Row>) -> (r: Vec<Vec<String>>)
    ensures
        r@.len() == rows@.len() + 1,
        record_texts(r@[0]@) == export_header(),
        forall|k: int| 0 <= k < rows@.len() ==> record_texts(#[trigger] r@[k + 1]@) == export_fields(rows@[k]@),
{
    let mut out: Vec<Vec<String>> = Vec::new();
    out.push(export_header_record());
    let mut i: usize = 0;
    while i < rows.len()
        invariant
            i <= rows@.len(),
            out@.len() == i + 1,
            record_texts(out@[0]@) == export_header(),
            forall|k: int| 0 <= k < i ==> record_texts(#[trigger] out@[k + 1]@) == export_fields(rows@[k]@),
        decreases rows@.len() - i,
    {
        out.push(export_record(&rows[i]));
        i = i + 1;
    }
    out
}

} // verus!
