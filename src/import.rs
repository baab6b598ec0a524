//! CSV intake: previewing a document and turning its rows, through a
//! column mapping, into incident creations, one row at a time.
use vstd::prelude::*;
use vstd::string::*;

use crate::error::AppError;
use crate::incidents::CreateIncident;
use crate::osha::MAX_REPORT_RECORDS;
use crate::text::{cat, nat_text, nat_to_text, parse_i64, parsed_i64};

verus! {

/// What the CSV reader makes of a document: its header fields and, for each
/// following record, its fields or the text of its parse error; or the text
/// of the error that stopped it at the header.
pub uninterp spec fn csv_table_of(data: Seq<u8>) -> Result<
    (Seq<Seq<char>>, Seq<Result<Seq<Seq<char>>, Seq<char>>>),
    Seq<char>,
>;

/// One record of a CSV document.
#[derive(Debug, Clone)]
pub enum CsvRecord {
    /// The record's fields, in column order.
    Fields(Vec<String>),
    /// The record could not be parsed; the reader's explanation.
    Malformed(String),
}

/// A parsed CSV document.
#[derive(Debug, Clone)]
pub struct CsvTable {
    pub headers: Vec<String>,
    pub records: Vec<CsvRecord>,
}

/// The texts of a list of strings.
pub open spec fn texts(v: Seq<String>) -> Seq<Seq<char>> {
    v.map_values(|t: String| t@)
}

impl CsvRecord {
    pub open spec fn view(&self) -> Result<Seq<Seq<char>>, Seq<char>> {
        match self {
            CsvRecord::Fields(f) => Ok(texts(f@)),
            CsvRecord::Malformed(m) => Err(m@),
        }
    }
}

impl CsvTable {
    pub open spec fn view(&self) -> (Seq<Seq<char>>, Seq<Result<Seq<Seq<char>>, Seq<char>>>) {
        (texts(self.headers@), self.records@.map_values(|r: CsvRecord| r.view()))
    }
}

/// Relies on `csv::Reader::from_reader` with the reader's default settings
/// (comma-separated, first row a header, records as wide as the header),
/// then `Reader::headers` and `Reader::records`: the document split into its
/// header and records. What comes out depends on the bytes alone.
#[verifier::external_body]
fn read_csv(data: &[u8]) -> (r: Result<CsvTable, String>)
    ensures
        match r {
            Ok(t) => csv_table_of(data@) matches Ok(v) && v == t.view(),
            Err(e) => csv_table_of(data@) matches Err(m) && m == e@,
        },
{
    let mut rdr = csv::Reader::from_reader(data);
    let headers = match rdr.headers() {
        Ok(h) => h.iter().map(|s| s.to_string()).collect(),
        Err(e) => return Err(e.to_string()),
    };
    let records = rdr.records().map(|rec| match rec {
        Ok(f) => CsvRecord::Fields(f.iter().map(|s| s.to_string()).collect()),
        Err(e) => CsvRecord::Malformed(e.to_string()),
    }).collect();
    Ok(CsvTable { headers, records })
}

/// The shape of a CSV document: its header, how many records follow, and
/// the first few of them.
#[derive(Debug, Clone)]
pub struct CsvPreview {
    pub headers: Vec<String>,
    pub sample_rows: Vec<Vec<String>>,
    pub total_rows: usize,
}

/// At most this many records are sampled by a preview.
pub const PREVIEW_SAMPLES: usize = 5;

/// No record of `recs` failed to parse.
pub open spec fn all_parsed(recs: Seq<Result<Seq<Seq<char>>, Seq<char>>>) -> bool {
    forall|i: int| 0 <= i < recs.len() ==> (#[trigger] recs[i]) is Ok
}

/// The preview of a parsed document: fails on the first malformed record;
/// otherwise gives the header, the number of records and the fields of the
/// first `PREVIEW_SAMPLES` of them.
pub fn preview_table(table: &CsvTable) -> (r: Result<CsvPreview, AppError>)
    ensures
        r is Ok <==> all_parsed(table.view().1),
        r is Err ==> r matches Err(AppError::Internal(_)),
        r matches Ok(p) ==> {
            &&& texts(p.headers@) == table.view().0
            &&& p.total_rows == table.records@.len()
            &&& p.sample_rows@.len() == if table.records@.len() < PREVIEW_SAMPLES {
                table.records@.len() as int
            } else {
                PREVIEW_SAMPLES as int
            }
            &&& forall|i: int| 0 <= i < p.sample_rows@.len() ==> table.view().1[i] == Ok::<
                Seq<Seq<char>>,
                Seq<char>,
            >(texts(#[trigger] p.sample_rows@[i]@))
        },
{
    let mut samples: Vec<Vec<String>> = Vec::new();
    let mut i: usize = 0;
    let ghost recs = table.view().1;
    while i < table.records.len()
        invariant
            i <= table.records@.len(),
            recs == table.view().1,
            forall|j: int| 0 <= j < i ==> (#[trigger] recs[j]) is Ok,
            samples@.len() == if i < PREVIEW_SAMPLES {
                i as int
            } else {
                PREVIEW_SAMPLES as int
            },
            forall|j: int| 0 <= j < samples@.len() ==> recs[j] == Ok::<Seq<Seq<char>>, Seq<char>>(
                texts(#[trigger] samples@[j]@),
            ),
        decreases table.records@.len() - i,
    {
        assert(recs[i as int] == table.records@[i as int].view());
        match &table.records[i] {
            CsvRecord::Malformed(e) => {
                return Err(AppError::Internal(cat("CSV parse error: ", e.as_str())));
            },
            CsvRecord::Fields(f) => {
                if samples.len() < PREVIEW_SAMPLES {
                    let copy = copy_texts(f);
                    samples.push(copy);
                }
            },
        }
        i = i + 1;
    }
    let headers = copy_texts(&table.headers);
    Ok(CsvPreview { headers, sample_rows: samples, total_rows: table.records.len() })
}

fn copy_texts(v: &Vec<String>) -> (r: Vec<String>)
    ensures
        texts(r@) == texts(v@),
{
    let mut out: Vec<String> = Vec::new();
    let mut i: usize = 0;
    assert(texts(out@) =~= texts(v@.subrange(0, 0)));
    while i < v.len()
        invariant
            i <= v@.len(),
            texts(out@) == texts(v@.subrange(0, i as int)),
        decreases v@.len() - i,
    {
        let ghost before = out@;
        out.push(v[i].clone());
        assert(texts(out@) =~= texts(before).push(v@[i as int]@));
        assert(texts(v@.subrange(0, i + 1)) =~= texts(v@.subrange(0, i as int)).push(v@[i as int]@));
        i = i + 1;
    }
    assert(v@.subrange(0, i as int) =~= v@);
    out
}

/// Previews a CSV document: see `preview_table`; a document whose header
/// cannot be read is rejected.
pub fn preview_csv(data: &[u8]) -> (r: Result<CsvPreview, AppError>)
    ensures
        match csv_table_of(data@) {
            Err(_) => r matches Err(AppError::Internal(_)),
            Ok(t) => {
                &&& r is Ok <==> all_parsed(t.1)
                &&& r matches Ok(p) ==> {
                    &&& texts(p.headers@) == t.0
                    &&& p.total_rows == t.1.len()
                    &&& p.sample_rows@.len() == if t.1.len() < PREVIEW_SAMPLES {
                        t.1.len() as int
                    } else {
                        PREVIEW_SAMPLES as int
                    }
                    &&& forall|i: int| 0 <= i < p.sample_rows@.len() ==> t.1[i] == Ok::<
                        Seq<Seq<char>>,
                        Seq<char>,
                    >(texts(#[trigger] p.sample_rows@[i]@))
                }
            },
        },
{
    match read_csv(data) {
        Err(e) => Err(AppError::Internal(cat("Failed to read CSV headers: ", e.as_str()))),
        Ok(table) => preview_table(&table),
    }
}

/// Which source column, by header name, feeds each incident field.
#[derive(Debug, Clone)]
pub struct ColumnMapping {
    pub employee_name: Option<String>,
    pub employee_job_title: Option<String>,
    pub incident_date: Option<String>,
    pub description: Option<String>,
    pub where_occurred: Option<String>,
    pub outcome_severity: Option<String>,
    pub days_away_count: Option<String>,
    pub days_restricted_count: Option<String>,
    pub injury_illness_type: Option<String>,
    pub employee_gender: Option<String>,
}

/// What to do with one data row of an import.
#[derive(Debug, Clone)]
pub enum ImportStep {
    /// Create this incident; `row` is the row's line number in the document.
    Create { row: usize, data: CreateIncident },
    /// The row cannot be imported; the message says why.
    Rejected(String),
}

/// The outcome of an import: how many rows became incidents, and a message
/// for each row that did not, in row order.
#[derive(Debug, Clone)]
pub struct ImportResult {
    pub imported: usize,
    pub errors: Vec<String>,
}

/// The position of the last header equal to `name`.
pub open spec fn header_index(h: Seq<Seq<char>>, name: Seq<char>) -> Option<int>
    decreases h.len(),
{
    if h.len() == 0 {
        None
    } else if h.last() == name {
        Some(h.len() - 1)
    } else {
        header_index(h.drop_last(), name)
    }
}

/// The value that mapping column `col` gives in a record with fields `f`:
/// absent when the column is unmapped or unknown, the record is too short, or
/// the field is empty.
pub open spec fn field_value(h: Seq<Seq<char>>, f: Seq<Seq<char>>, col: Option<String>) -> Option<Seq<char>> {
    match col {
        None => None,
        Some(c) => match header_index(h, c@) {
            None => None,
            Some(i) => if i < f.len() && f[i].len() > 0 {
                Some(f[i])
            } else {
                None
            },
        },
    }
}

/// The text of an optional string.
pub open spec fn opt_view(o: Option<String>) -> Option<Seq<char>> {
    match o {
        Some(s) => Some(s@),
        None => None,
    }
}

/// A day count read from an optional field: absent when the field is absent
/// or is not a number.
pub open spec fn day_value(v: Option<Seq<char>>) -> Option<i64> {
    match v {
        Some(t) => match parsed_i64(t) {
            Some(n) => Some(n as i64),
            None => None,
        },
        None => None,
    }
}

/// The text that prefixes every message about data row `i` (counted from 0):
/// its line in the document, the header being line 1.
pub open spec fn row_label(i: int) -> Seq<char> {
    "Row "@ + nat_text((i + 2) as nat) + ": "@
}

/// Step `st` is what an import owes data row `i` with contents `rec`, given
/// the header `h`, the target establishment and location and the mapping.
pub open spec fn step_for_row(
    st: ImportStep,
    h: Seq<Seq<char>>,
    rec: Result<Seq<Seq<char>>, Seq<char>>,
    i: int,
    establishment_id: i64,
    location_id: Option<i64>,
    m: ColumnMapping,
) -> bool {
    match rec {
        Err(e) => st matches ImportStep::Rejected(t) && t@ == row_label(i) + e,
        Ok(f) => {
            let name = field_value(h, f, m.employee_name);
            let date = field_value(h, f, m.incident_date);
            if name is None {
                st matches ImportStep::Rejected(t) && t@ == row_label(i) + "Missing employee name"@
            } else if date is None {
                st matches ImportStep::Rejected(t) && t@ == row_label(i) + "Missing incident date"@
            } else {
                st matches ImportStep::Create { row, data } && {
                    &&& row == i + 2
                    &&& data.establishment_id == establishment_id
                    &&& data.location_id == location_id
                    &&& Some(data.employee_name@) == name
                    &&& Some(data.incident_date@) == date
                    &&& data.description@ == match field_value(h, f, m.description) {
                        Some(d) => d,
                        None => "Imported incident"@,
                    }
                    &&& opt_view(data.employee_job_title) == field_value(h, f, m.employee_job_title)
                    &&& opt_view(data.where_occurred) == field_value(h, f, m.where_occurred)
                    &&& opt_view(data.outcome_severity) == field_value(h, f, m.outcome_severity)
                    &&& opt_view(data.injury_illness_type) == field_value(h, f, m.injury_illness_type)
                    &&& opt_view(data.employee_gender) == field_value(h, f, m.employee_gender)
                    &&& data.days_away_count == day_value(field_value(h, f, m.days_away_count))
                    &&& data.days_restricted_count == day_value(field_value(h, f, m.days_restricted_count))
                    &&& data.employee_address is None && data.employee_city is None
                    &&& data.employee_state is None && data.employee_zip is None
                    &&& data.employee_dob is None && data.employee_hire_date is None
                    &&& data.is_privacy_case is None && data.incident_time is None
                    &&& data.work_start_time is None && data.activity_before_incident is None
                    &&& data.how_injury_occurred is None && data.injury_description is None
                    &&& data.object_substance is None && data.physician_name is None
                    &&& data.treatment_facility is None && data.facility_address is None
                    &&& data.facility_city_state_zip is None && data.treated_in_er is None
                    &&& data.hospitalized_overnight is None && data.date_of_death is None
                    &&& data.is_recordable is None
                }
            }
        },
    }
}

/// Finds the column that mapping entry `col` names.
fn column_of(headers: &Vec<String>, col: &Option<String>) -> (r: Option<usize>)
    ensures
        match col {
            None => r is None,
            Some(c) => match header_index(texts(headers@), c@) {
                None => r is None,
                Some(i) => r == Some(i as usize),
            },
        },
{
    match col {
        None => None,
        Some(c) => {
            let mut found: Option<usize> = None;
            let mut j: usize = 0;
            assert(texts(headers@).subrange(0, 0) =~= Seq::<Seq<char>>::empty());
            while j < headers.len()
                invariant
                    j <= headers@.len(),
                    match header_index(texts(headers@).subrange(0, j as int), c@) {
                        None => found is None,
                        Some(i) => found == Some(i as usize),
                    },
                decreases headers@.len() - j,
            {
                let ghost pre = texts(headers@).subrange(0, j as int);
                let ghost nxt = texts(headers@).subrange(0, j + 1);
                assert(nxt.drop_last() =~= pre);
                assert(nxt.last() == headers@[j as int]@);
                if headers[j] == *c {
                    found = Some(j);
                }
                j = j + 1;
            }
            assert(texts(headers@).subrange(0, j as int) =~= texts(headers@));
            found
        },
    }
}

/// The value of one mapped field in a record.
fn field_at(f: &Vec<String>, idx: Option<usize>) -> (r: Option<String>)
    ensures
        opt_view(r) == match idx {
            None => None,
            Some(i) => if i < f@.len() && f@[i as int]@.len() > 0 {
                Some(f@[i as int]@)
            } else {
                None
            },
        },
{
    match idx {
        None => None,
        Some(i) => {
            if i < f.len() && !f[i].as_str().is_empty() {
                Some(f[i].clone())
            } else {
                None
            }
        },
    }
}

fn day_of(v: &Option<String>) -> (r: Option<i64>)
    ensures
        r == day_value(opt_view(*v)),
{
    match v {
        Some(t) => parse_i64(t.as_str()),
        None => None,
    }
}

fn label_row(i: usize, msg: &str) -> (r: String)
    requires
        i + 2 <= usize::MAX,
    ensures
        r@ == row_label(i as int) + msg@,
{
    let n = nat_to_text((i + 2) as u64);
    let t = cat("Row ", n.as_str());
    let t = cat(t.as_str(), ": ");
    cat(t.as_str(), msg)
}

/// The mapped column positions of a header.
struct Columns {
    name: Option<usize>,
    job_title: Option<usize>,
    date: Option<usize>,
    description: Option<usize>,
    where_occurred: Option<usize>,
    severity: Option<usize>,
    days_away: Option<usize>,
    days_restricted: Option<usize>,
    kind: Option<usize>,
    gender: Option<usize>,
}

/// The column position a mapping entry names, in header `h`.
spec fn column_matches(idx: Option<usize>, h: Seq<Seq<char>>, col: Option<String>) -> bool {
    match col {
        None => idx is None,
        Some(c) => match header_index(h, c@) {
            None => idx is None,
            Some(i) => idx == Some(i as usize),
        },
    }
}

spec fn columns_match(c: Columns, h: Seq<Seq<char>>, m: ColumnMapping) -> bool {
    &&& column_matches(c.name, h, m.employee_name)
    &&& column_matches(c.job_title, h, m.employee_job_title)
    &&& column_matches(c.date, h, m.incident_date)
    &&& column_matches(c.description, h, m.description)
    &&& column_matches(c.where_occurred, h, m.where_occurred)
    &&& column_matches(c.severity, h, m.outcome_severity)
    &&& column_matches(c.days_away, h, m.days_away_count)
    &&& column_matches(c.days_restricted, h, m.days_restricted_count)
    &&& column_matches(c.kind, h, m.injury_illness_type)
    &&& column_matches(c.gender, h, m.employee_gender)
}

proof fn lemma_header_index_bound(h: Seq<Seq<char>>, name: Seq<char>)
    ensures
        header_index(h, name) matches Some(i) ==> 0 <= i < h.len(),
    decreases h.len(),
{
    if h.len() > 0 {
        lemma_header_index_bound(h.drop_last(), name);
    }
}

fn value_of(f: &Vec<String>, idx: Option<usize>, Ghost(h): Ghost<Seq<Seq<char>>>, Ghost(col): Ghost<Option<String>>) -> (r: Option<String>)
    requires
        column_matches(idx, h, col),
        h.len() <= usize::MAX,
    ensures
        opt_view(r) == field_value(h, texts(f@), col),
{
    proof {
        if let Some(c) = col {
            lemma_header_index_bound(h, c@);
        }
    }
    let r = field_at(f, idx);
    proof {
        assert(texts(f@).len() == f@.len());
        if let Some(i) = idx {
            if i < f@.len() {
                assert(texts(f@)[i as int] == f@[i as int]@);
            }
        }
    }
    r
}

fn plan_row(
    f: &Vec<String>,
    cols: &Columns,
    i: usize,
    establishment_id: i64,
    location_id: Option<i64>,
    Ghost(h): Ghost<Seq<Seq<char>>>,
    Ghost(m): Ghost<ColumnMapping>,
) -> (r: ImportStep)
    requires
        i + 2 <= usize::MAX,
        columns_match(*cols, h, m),
        h.len() <= usize::MAX,
    ensures
        step_for_row(r, h, Ok(texts(f@)), i as int, establishment_id, location_id, m),
{
    let ghost ft = texts(f@);
    assert forall|k: int| 0 <= k < f@.len() implies ft[k] == (#[trigger] f@[k])@ by {}
    let name = value_of(f, cols.name, Ghost(h), Ghost(m.employee_name));
    let date = value_of(f, cols.date, Ghost(h), Ghost(m.incident_date));
    proof {
        reveal_strlit("Missing employee name");
        reveal_strlit("Missing incident date");
        reveal_strlit("Imported incident");
    }
    let employee_name = match name {
        Some(n) => n,
        None => return ImportStep::Rejected(label_row(i, "Missing employee name")),
    };
    let incident_date = match date {
        Some(d) => d,
        None => return ImportStep::Rejected(label_row(i, "Missing incident date")),
    };
    let description = match value_of(f, cols.description, Ghost(h), Ghost(m.description)) {
        Some(d) => d,
        None => String::from_str("Imported incident"),
    };
    let days_away = value_of(f, cols.days_away, Ghost(h), Ghost(m.days_away_count));
    let days_restricted = value_of(f, cols.days_restricted, Ghost(h), Ghost(m.days_restricted_count));
    let data = CreateIncident {
        establishment_id,
        location_id,
        employee_name,
        employee_job_title: value_of(f, cols.job_title, Ghost(h), Ghost(m.employee_job_title)),
        employee_address: None,
        employee_city: None,
        employee_state: None,
        employee_zip: None,
        employee_dob: None,
        employee_hire_date: None,
        employee_gender: value_of(f, cols.gender, Ghost(h), Ghost(m.employee_gender)),
        is_privacy_case: None,
        incident_date,
        incident_time: None,
        work_start_time: None,
        where_occurred: value_of(f, cols.where_occurred, Ghost(h), Ghost(m.where_occurred)),
        description,
        activity_before_incident: None,
        how_injury_occurred: None,
        injury_description: None,
        object_substance: None,
        physician_name: None,
        treatment_facility: None,
        facility_address: None,
        facility_city_state_zip: None,
        treated_in_er: None,
        hospitalized_overnight: None,
        outcome_severity: value_of(f, cols.severity, Ghost(h), Ghost(m.outcome_severity)),
        days_away_count: day_of(&days_away),
        days_restricted_count: day_of(&days_restricted),
        date_of_death: None,
        injury_illness_type: value_of(f, cols.kind, Ghost(h), Ghost(m.injury_illness_type)),
        is_recordable: None,
    };
    ImportStep::Create { row: i + 2, data }
}

/// Plans the import of a parsed document: one step per record, in order
/// (see `step_for_row`). A malformed record, or one whose mapped employee
/// name or incident date is empty or missing, is rejected with a message
/// naming its line; the others become incident creations, with the
/// description defaulting to "Imported incident" and unreadable day counts
/// left absent.
pub fn plan_import(
    table: &CsvTable,
    establishment_id: i64,
    location_id: Option<i64>,
    mapping: &ColumnMapping,
) -> (r: Vec<ImportStep>)
    requires
        table.records@.len() <= MAX_REPORT_RECORDS,
    ensures
        r@.len() == table.records@.len(),
        forall|i: int| 0 <= i < r@.len() ==> step_for_row(
            #[trigger] r@[i],
            table.view().0,
            table.view().1[i],
            i,
            establishment_id,
            location_id,
            *mapping,
        ),
{
    let cols = Columns {
        name: column_of(&table.headers, &mapping.employee_name),
        job_title: column_of(&table.headers, &mapping.employee_job_title),
        date: column_of(&table.headers, &mapping.incident_date),
        description: column_of(&table.headers, &mapping.description),
        where_occurred: column_of(&table.headers, &mapping.where_occurred),
        severity: column_of(&table.headers, &mapping.outcome_severity),
        days_away: column_of(&table.headers, &mapping.days_away_count),
        days_restricted: column_of(&table.headers, &mapping.days_restricted_count),
        kind: column_of(&table.headers, &mapping.injury_illness_type),
        gender: column_of(&table.headers, &mapping.employee_gender),
    };
    let ghost h = table.view().0;
    let header_count = table.headers.len();
    assert(h.len() == header_count);
    let mut out: Vec<ImportStep> = Vec::new();
    let mut i: usize = 0;
    while i < table.records.len()
        invariant
            i <= table.records@.len() <= MAX_REPORT_RECORDS,
            h == table.view().0,
            h.len() <= usize::MAX,
            columns_match(cols, h, *mapping),
            out@.len() == i,
            forall|j: int| 0 <= j < i ==> step_for_row(
                #[trigger] out@[j],
                h,
                table.view().1[j],
                j,
                establishment_id,
                location_id,
                *mapping,
            ),
        decreases table.records@.len() - i,
    {
        assert(table.view().1[i as int] == table.records@[i as int].view());
        let step = match &table.records[i] {
            CsvRecord::Malformed(e) => ImportStep::Rejected(label_row(i, e.as_str())),
            CsvRecord::Fields(f) => plan_row(f, &cols, i, establishment_id, location_id, Ghost(h), Ghost(*mapping)),
        };
        out.push(step);
        i = i + 1;
    }
    out
}

/// Plans the import of a CSV document: see `plan_import`. A document whose
/// header cannot be read, or that holds more than `MAX_REPORT_RECORDS`
/// records, is rejected as a whole.
pub fn plan_csv_import(
    data: &[u8],
    establishment_id: i64,
    location_id: Option<i64>,
    mapping: &ColumnMapping,
) -> (r: Result<Vec<ImportStep>, AppError>)
    ensures
        match csv_table_of(data@) {
            Err(_) => r matches Err(AppError::Internal(_)),
            Ok(t) => {
                &&& r is Ok <==> t.1.len() <= MAX_REPORT_RECORDS
                &&& r matches Ok(steps) ==> steps@.len() == t.1.len() && forall|i: int|
                    0 <= i < steps@.len() ==> step_for_row(
                        #[trigger] steps@[i],
                        t.0,
                        t.1[i],
                        i,
                        establishment_id,
                        location_id,
                        *mapping,
                    )
            },
        },
{
    match read_csv(data) {
        Err(e) => Err(AppError::Internal(cat("Failed to read CSV headers: ", e.as_str()))),
        Ok(table) => {
            if table.records.len() > MAX_REPORT_RECORDS {
                return Err(AppError::Internal(String::from_str("CSV document has too many rows")));
            }
            Ok(plan_import(&table, establishment_id, location_id, mapping))
        },
    }
}

impl ImportResult {
    /// An import that has processed nothing yet.
    pub fn new() -> (r: ImportResult)
        ensures
            r.imported == 0,
            r.errors@.len() == 0,
    {
        ImportResult { imported: 0, errors: Vec::new() }
    }

    /// Records a row that the plan rejected.
    pub fn record_rejection(&mut self, message: String)
        ensures
            final(self).imported == old(self).imported,
            texts(final(self).errors@) == texts(old(self).errors@).push(message@),
    {
        let ghost before = self.errors@;
        let ghost mv = message@;
        self.errors.push(message);
        assert(texts(self.errors@) =~= texts(before).push(mv));
    }

    /// Records what the store made of the creation planned for document line
    /// `row`: one more import, or a message naming the line and the store's
    /// error.
    pub fn record_creation(&mut self, row: usize, outcome: Result<(), AppError>)
        requires
            old(self).imported < usize::MAX,
        ensures
            outcome is Ok ==> final(self).imported == old(self).imported + 1 && final(self).errors@
                == old(self).errors@,
            outcome matches Err(e) ==> final(self).imported == old(self).imported && texts(
                final(self).errors@,
            ) == texts(old(self).errors@).push("Row "@ + nat_text(row as nat) + ": "@ + e.text()),
    {
        match outcome {
            Ok(()) => {
                self.imported = self.imported + 1;
            },
            Err(e) => {
                let n = nat_to_text(row as u64);
                let t = cat("Row ", n.as_str());
                let t = cat(t.as_str(), ": ");
                let t = cat(t.as_str(), e.message().as_str());
                let ghost before = self.errors@;
                let ghost tv = t@;
                self.errors.push(t);
                assert(texts(self.errors@) =~= texts(before).push(tv));
            },
        }
    }
}

} // verus!
