//! Rollup figures for one establishment and year: counts, days since the
//! latest incident, the injury rate, and breakdowns by month, outcome,
//! location and type.
use vstd::prelude::*;
use vstd::string::*;

use crate::incidents::{illness_type_name, severity_name, Incident};
use crate::locations::Location;
use crate::osha::MAX_REPORT_RECORDS;
use crate::tally::{add_key, counts_within, keys_ascending, tally_of};
use crate::text::{has_prefix, int_text, int_to_text, is_text_less, starts_with, text_less};
use crate::validation::{date_fields, day_number, day_number_of, is_valid_date, parse_date};

verus! {

/// Hours worked are scaled to this many hours (100 full-time employees for a
/// year) in the injury rate.
pub const RATE_BASE_HOURS: i64 = 200000;

/// The injury rate `scaled_recordable / hours_worked`, kept as an exact
/// fraction: recordable incidents times `RATE_BASE_HOURS`, over the hours
/// worked.
#[derive(Debug, Clone, Copy, PartialEq, Eq, Structural)]
pub struct InjuryRate {
    pub scaled_recordable: i64,
    pub hours_worked: i64,
}

/// The headline figures of the dashboard.
#[derive(Debug, Clone, Copy)]
pub struct DashboardSummary {
    pub total_incidents: i64,
    pub open_incidents: i64,
    pub total_recordable: i64,
    pub days_since_last_incident: Option<i64>,
    pub trir: Option<InjuryRate>,
}

/// Incident `x` is one of establishment `e` whose date starts with year `y`.
pub open spec fn in_year(x: Incident, e: i64, y: Seq<char>) -> bool {
    x.establishment_id == e && has_prefix(x.incident_date@, y)
}

/// Over the incidents of `s` in establishment `e` and year `y`: how many there
/// are, how many have status "open", and how many are recordable.
pub open spec fn year_counts(s: Seq<Incident>, e: i64, y: Seq<char>) -> (nat, nat, nat)
    decreases s.len(),
{
    if s.len() == 0 {
        (0, 0, 0)
    } else {
        let c = year_counts(s.drop_last(), e, y);
        let x = s.last();
        if in_year(x, e, y) {
            (
                c.0 + 1,
                c.1 + if x.status@ == "open"@ {
                    1nat
                } else {
                    0nat
                },
                c.2 + if x.is_recordable {
                    1nat
                } else {
                    0nat
                },
            )
        } else {
            c
        }
    }
}

/// The latest incident date of establishment `e` in `s`, in any year.
pub open spec fn latest_date(s: Seq<Incident>, e: i64) -> Option<Seq<char>>
    decreases s.len(),
{
    if s.len() == 0 {
        None
    } else {
        let p = latest_date(s.drop_last(), e);
        let x = s.last();
        if x.establishment_id == e {
            match p {
                Some(d) => if text_less(d, x.incident_date@) {
                    Some(x.incident_date@)
                } else {
                    Some(d)
                },
                None => Some(x.incident_date@),
            }
        } else {
            p
        }
    }
}

/// Whole days from date `from` to date `to`, both valid.
pub open spec fn days_between(from: Seq<char>, to: Seq<char>) -> int {
    let a = date_fields(from);
    let b = date_fields(to);
    day_number(b.0, b.1, b.2) - day_number(a.0, a.1, a.2)
}

/// The headline figures for establishment `establishment_id` and `year`:
/// counts of its incidents that year, open ones and recordable ones; whole
/// days from its latest incident date in any year to `today` (absent when it
/// has no incident or a date is not valid); and the injury rate, present
/// exactly when the year's statistics give a positive number of hours.
pub fn get_dashboard_summary(
    incidents: &Vec<Incident>,
    establishment_id: i64,
    year: i64,
    hours_worked: Option<i64>,
    today: &str,
) -> (r: DashboardSummary)
    requires
        incidents@.len() <= MAX_REPORT_RECORDS,
    ensures
        ({
            let c = year_counts(incidents@, establishment_id, int_text(year as int));
            &&& r.total_incidents == c.0
            &&& r.open_incidents == c.1
            &&& r.total_recordable == c.2
            &&& r.trir == match hours_worked {
                Some(h) => if h > 0 {
                    Some(InjuryRate { scaled_recordable: (c.2 * RATE_BASE_HOURS) as i64, hours_worked: h })
                } else {
                    None
                },
                None => None,
            }
        }),
        r.days_since_last_incident == match latest_date(incidents@, establishment_id) {
            Some(d) => if is_valid_date(d) && is_valid_date(today@) {
                Some(days_between(d, today@) as i64)
            } else {
                None
            },
            None => None,
        },
{
    let year_text = int_to_text(year);
    let ghost y = int_text(year as int);
    let ghost e = establishment_id;
    let mut total: i64 = 0;
    let mut open: i64 = 0;
    let mut recordable: i64 = 0;
    let mut latest: Option<String> = None;
    let mut i: usize = 0;
    proof {
        reveal_strlit("open");
    }
    assert(incidents@.subrange(0, 0) =~= Seq::<Incident>::empty());
    while i < incidents.len()
        invariant
            i <= incidents@.len(),
            incidents@.len() <= MAX_REPORT_RECORDS,
            year_text@ == y,
            e == establishment_id,
            ({
                let c = year_counts(incidents@.subrange(0, i as int), e, y);
                &&& total == c.0 && open == c.1 && recordable == c.2
                &&& c.1 <= c.0 && c.2 <= c.0 && c.0 <= i
            }),
            match latest {
                Some(d) => latest_date(incidents@.subrange(0, i as int), e) == Some(d@),
                None => latest_date(incidents@.subrange(0, i as int), e) is None,
            },
        decreases incidents@.len() - i,
    {
        let x = &incidents[i];
        let ghost prefix = incidents@.subrange(0, i as int);
        let ghost next = incidents@.subrange(0, i + 1);
        assert(next.drop_last() =~= prefix);
        assert(next.last() == incidents@[i as int]);
        if x.establishment_id == establishment_id {
            if starts_with(x.incident_date.as_str(), year_text.as_str()) {
                total = total + 1;
                if x.status == String::from_str("open") {
                    open = open + 1;
                }
                if x.is_recordable {
                    recordable = recordable + 1;
                }
            }
            let newer = match &latest {
                Some(d) => is_text_less(d.as_str(), x.incident_date.as_str()),
                None => true,
            };
            if newer {
                latest = Some(x.incident_date.clone());
            }
        }
        i = i + 1;
    }
    assert(incidents@.subrange(0, i as int) =~= incidents@);
    let days_since = match &latest {
        Some(d) => match (parse_date(d.as_str()), parse_date(today)) {
            (Some(a), Some(b)) => Some(day_number_of(b.0, b.1, b.2) - day_number_of(a.0, a.1, a.2)),
            _ => None,
        },
        None => None,
    };
    let trir = match hours_worked {
        Some(h) => if h > 0 {
            Some(InjuryRate { scaled_recordable: recordable * RATE_BASE_HOURS, hours_worked: h })
        } else {
            None
        },
        None => None,
    };
    DashboardSummary {
        total_incidents: total,
        open_incidents: open,
        total_recordable: recordable,
        days_since_last_incident: days_since,
        trir,
    }
}

/// How many incidents of `s` have key `k` under `f` (no key: not counted).
pub open spec fn count_keyed(s: Seq<Incident>, f: spec_fn(Incident) -> Option<Seq<char>>, k: Seq<char>) -> nat
    decreases s.len(),
{
    if s.len() == 0 {
        0
    } else {
        count_keyed(s.drop_last(), f, k) + if f(s.last()) == Some(k) {
            1nat
        } else {
            0nat
        }
    }
}

/// The year and month of a date: its first seven characters.
pub open spec fn month_key(d: Seq<char>) -> Seq<char> {
    if d.len() >= 7 {
        d.subrange(0, 7)
    } else {
        d
    }
}

/// Keys incidents of establishment `e` in year `y` by their month.
pub open spec fn by_month_key(e: i64, y: Seq<char>) -> spec_fn(Incident) -> Option<Seq<char>> {
    |x: Incident|
        if in_year(x, e, y) {
            Some(month_key(x.incident_date@))
        } else {
            None
        }
}

/// Keys recordable incidents of establishment `e` in year `y` by outcome name.
pub open spec fn by_severity_key(e: i64, y: Seq<char>) -> spec_fn(Incident) -> Option<Seq<char>> {
    |x: Incident|
        if in_year(x, e, y) && x.is_recordable {
            Some(severity_name(x.outcome_severity))
        } else {
            None
        }
}

/// Keys recordable incidents of establishment `e` in year `y` by type name.
pub open spec fn by_type_key(e: i64, y: Seq<char>) -> spec_fn(Incident) -> Option<Seq<char>> {
    |x: Incident|
        if in_year(x, e, y) && x.is_recordable {
            Some(illness_type_name(x.injury_illness_type))
        } else {
            None
        }
}

/// The first location of `locs` with id `id`.
pub open spec fn find_location(locs: Seq<Location>, id: i64) -> Option<Location>
    decreases locs.len(),
{
    if locs.len() == 0 {
        None
    } else if locs[0].id == id {
        Some(locs[0])
    } else {
        find_location(locs.drop_first(), id)
    }
}

/// The name under which an incident is grouped by location: its location's
/// name, or "Unassigned" when it has none or its location is unknown.
pub open spec fn location_label(x: Incident, locs: Seq<Location>) -> Seq<char> {
    match x.location_id {
        Some(id) => match find_location(locs, id) {
            Some(l) => l.name@,
            None => "Unassigned"@,
        },
        None => "Unassigned"@,
    }
}

/// Keys incidents of establishment `e` in year `y` by location name.
pub open spec fn by_location_key(e: i64, y: Seq<char>, locs: Seq<Location>) -> spec_fn(Incident) -> Option<Seq<char>> {
    |x: Incident|
        if in_year(x, e, y) {
            Some(location_label(x, locs))
        } else {
            None
        }
}

/// Groups `g` count, for every key, the incidents of `s` with that key under
/// `f`; keys ascend and every count is positive.
pub open spec fn groups_count(g: Seq<(String, i64)>, s: Seq<Incident>, f: spec_fn(Incident) -> Option<Seq<char>>) -> bool {
    &&& keys_ascending(g)
    &&& forall|i: int| 0 <= i < g.len() ==> 0 < (#[trigger] g[i]).1
    &&& forall|k: Seq<char>| #[trigger] tally_of(g, k) == count_keyed(s, f, k)
}

proof fn lemma_count_keyed_step(s: Seq<Incident>, f: spec_fn(Incident) -> Option<Seq<char>>, i: int, k: Seq<char>)
    requires
        0 <= i < s.len(),
    ensures
        count_keyed(s.subrange(0, i + 1), f, k) == count_keyed(s.subrange(0, i), f, k) + if f(s[i]) == Some(k) {
            1nat
        } else {
            0nat
        },
{
    assert(s.subrange(0, i + 1).drop_last() =~= s.subrange(0, i));
}

/// Counts one incident into the groups under its key, if it has one.
fn count_incident(
    g: &mut Vec<(String, i64)>,
    key: Option<String>,
    Ghost(s): Ghost<Seq<Incident>>,
    Ghost(f): Ghost<spec_fn(Incident) -> Option<Seq<char>>>,
    Ghost(i): Ghost<int>,
)
    requires
        0 <= i < s.len() <= MAX_REPORT_RECORDS,
        keys_ascending(old(g)@),
        counts_within(old(g)@, i),
        forall|k: Seq<char>| #[trigger] tally_of(old(g)@, k) == count_keyed(s.subrange(0, i), f, k),
        match key {
            Some(t) => f(s[i]) == Some(t@),
            None => f(s[i]) is None,
        },
    ensures
        keys_ascending(final(g)@),
        counts_within(final(g)@, i + 1),
        forall|k: Seq<char>| #[trigger] tally_of(final(g)@, k) == count_keyed(s.subrange(0, i + 1), f, k),
{
    match key {
        Some(t) => {
            let ghost tv = t@;
            add_key(g, t, Ghost(i));
            assert forall|k: Seq<char>| #[trigger] tally_of(g@, k) == count_keyed(s.subrange(0, i + 1), f, k) by {
                lemma_count_keyed_step(s, f, i, k);
            }
        },
        None => {
            assert forall|k: Seq<char>| #[trigger] tally_of(g@, k) == count_keyed(s.subrange(0, i + 1), f, k) by {
                lemma_count_keyed_step(s, f, i, k);
            }
            assert forall|j: int| 0 <= j < g@.len() implies 0 < (#[trigger] g@[j]).1 <= i + 1 by {}
        },
    }
}

fn month_of_date(d: &String) -> (r: String)
    ensures
        r@ == month_key(d@),
{
    if d.as_str().unicode_len() >= 7 {
        String::from_str(d.as_str().substring_char(0, 7))
    } else {
        d.clone()
    }
}

fn location_name_of(x: &Incident, locations: &Vec<Location>) -> (r: String)
    ensures
        r@ == location_label(*x, locations@),
{
    proof {
        reveal_strlit("Unassigned");
    }
    match x.location_id {
        Some(id) => {
            let mut j: usize = 0;
            assert(locations@.subrange(0, locations@.len() as int) =~= locations@);
            while j < locations.len()
                invariant
                    j <= locations@.len(),
                    x.location_id == Some(id),
                    find_location(locations@, id) == find_location(locations@.subrange(j as int, locations@.len() as int), id),
                decreases locations@.len() - j,
            {
                let ghost rest = locations@.subrange(j as int, locations@.len() as int);
                assert(rest[0] == locations@[j as int]);
                if locations[j].id == id {
                    assert(find_location(rest, id) == Some(rest[0]));
                    let name = locations[j].name.clone();
                    return name;
                }
                assert(rest.drop_first() =~= locations@.subrange(j + 1, locations@.len() as int));
                j = j + 1;
            }
            String::from_str("Unassigned")
        },
        None => String::from_str("Unassigned"),
    }
}

/// Groups the incidents of `s` by key: `keys` holds, at each index, the key
/// that `f` gives the incident there.
fn group_by_keys(keys: Vec<Option<String>>, Ghost(s): Ghost<Seq<Incident>>, Ghost(f): Ghost<spec_fn(Incident) -> Option<Seq<char>>>) -> (r: Vec<(String, i64)>)
    requires
        keys@.len() == s.len() <= MAX_REPORT_RECORDS,
        forall|i: int| 0 <= i < s.len() ==> match #[trigger] keys@[i] {
            Some(t) => f(s[i]) == Some(t@),
            None => f(s[i]) is None,
        },
    ensures
        groups_count(r@, s, f),
{
    let mut g: Vec<(String, i64)> = Vec::new();
    let n = keys.len();
    let mut i: usize = 0;
    proof {
        assert(s.subrange(0, 0) =~= Seq::<Incident>::empty());
    }
    while i < n
        invariant
            n == s.len() <= MAX_REPORT_RECORDS,
            n == keys@.len(),
            i <= n,
            forall|j: int| 0 <= j < s.len() ==> match #[trigger] keys@[j] {
                Some(t) => f(s[j]) == Some(t@),
                None => f(s[j]) is None,
            },
            keys_ascending(g@),
            counts_within(g@, i as int),
            forall|k: Seq<char>| #[trigger] tally_of(g@, k) == count_keyed(s.subrange(0, i as int), f, k),
        decreases n - i,
    {
        let key = match &keys[i] {
            Some(t) => Some(t.clone()),
            None => None,
        };
        assert(key == keys@[i as int]);
        count_incident(&mut g, key, Ghost(s), Ghost(f), Ghost(i as int));
        i = i + 1;
    }
    assert(s.subrange(0, n as int) =~= s);
    g
}

/// One group of the breakdown by month.
#[derive(Debug, Clone)]
pub struct IncidentsByMonth {
    pub month: String,
    pub count: i64,
}

/// The (key, count) pairs of a breakdown.
pub open spec fn month_pairs(r: Seq<IncidentsByMonth>) -> Seq<(String, i64)> {
    r.map_values(|g: IncidentsByMonth| (g.month, g.count))
}

/// Incidents per month of establishment `establishment_id` in `year`, by the year and month of their date, in ascending order.
pub fn get_incidents_by_month(incidents: &Vec<Incident>, establishment_id: i64, year: i64) -> (r: Vec<IncidentsByMonth>)
    requires
        incidents@.len() <= MAX_REPORT_RECORDS,
    ensures
        groups_count(month_pairs(r@), incidents@, by_month_key(establishment_id, int_text(year as int))),
{
    let year_text = int_to_text(year);
    let ghost f = by_month_key(establishment_id, int_text(year as int));
    let mut keys: Vec<Option<String>> = Vec::new();
    let mut i: usize = 0;
    while i < incidents.len()
        invariant
            i <= incidents@.len(),
            keys@.len() == i,
            year_text@ == int_text(year as int),
            f == by_month_key(establishment_id, int_text(year as int)),
            forall|j: int| 0 <= j < i ==> match #[trigger] keys@[j] {
                Some(t) => f(incidents@[j]) == Some(t@),
                None => f(incidents@[j]) is None,
            },
        decreases incidents@.len() - i,
    {
        let x = &incidents[i];
        if x.establishment_id == establishment_id && starts_with(x.incident_date.as_str(), year_text.as_str()) {
            keys.push(Some(month_of_date(&x.incident_date)));
        } else {
            keys.push(None);
        }
        i = i + 1;
    }
    let g = group_by_keys(keys, Ghost(incidents@), Ghost(f));
    let mut out: Vec<IncidentsByMonth> = Vec::new();
    let mut k: usize = 0;
    while k < g.len()
        invariant
            k <= g@.len(),
            month_pairs(out@) =~= g@.subrange(0, k as int),
        decreases g@.len() - k,
    {
        let ghost before = out@;
        out.push(IncidentsByMonth { month: g[k].0.clone(), count: g[k].1 });
        assert(month_pairs(out@) =~= month_pairs(before).push(g@[k as int]));
        assert(g@.subrange(0, k + 1) =~= g@.subrange(0, k as int).push(g@[k as int]));
        k = k + 1;
    }
    assert(g@.subrange(0, k as int) =~= g@);
    out
}

/// One group of the breakdown by severity.
#[derive(Debug, Clone)]
pub struct IncidentsBySeverity {
    pub severity: String,
    pub count: i64,
}

/// The (key, count) pairs of a breakdown.
pub open spec fn severity_pairs(r: Seq<IncidentsBySeverity>) -> Seq<(String, i64)> {
    r.map_values(|g: IncidentsBySeverity| (g.severity, g.count))
}

/// Recordable incidents of establishment `establishment_id` in `year` per outcome, by outcome name in ascending order.
pub fn get_incidents_by_severity(incidents: &Vec<Incident>, establishment_id: i64, year: i64) -> (r: Vec<IncidentsBySeverity>)
    requires
        incidents@.len() <= MAX_REPORT_RECORDS,
    ensures
        groups_count(severity_pairs(r@), incidents@, by_severity_key(establishment_id, int_text(year as int))),
{
    let year_text = int_to_text(year);
    let ghost f = by_severity_key(establishment_id, int_text(year as int));
    let mut keys: Vec<Option<String>> = Vec::new();
    let mut i: usize = 0;
    while i < incidents.len()
        invariant
            i <= incidents@.len(),
            keys@.len() == i,
            year_text@ == int_text(year as int),
            f == by_severity_key(establishment_id, int_text(year as int)),
            forall|j: int| 0 <= j < i ==> match #[trigger] keys@[j] {
                Some(t) => f(incidents@[j]) == Some(t@),
                None => f(incidents@[j]) is None,
            },
        decreases incidents@.len() - i,
    {
        let x = &incidents[i];
        if x.establishment_id == establishment_id && starts_with(x.incident_date.as_str(), year_text.as_str()) && x.is_recordable {
            keys.push(Some(x.outcome_severity.as_text()));
        } else {
            keys.push(None);
        }
        i = i + 1;
    }
    let g = group_by_keys(keys, Ghost(incidents@), Ghost(f));
    let mut out: Vec<IncidentsBySeverity> = Vec::new();
    let mut k: usize = 0;
    while k < g.len()
        invariant
            k <= g@.len(),
            severity_pairs(out@) =~= g@.subrange(0, k as int),
        decreases g@.len() - k,
    {
        let ghost before = out@;
        out.push(IncidentsBySeverity { severity: g[k].0.clone(), count: g[k].1 });
        assert(severity_pairs(out@) =~= severity_pairs(before).push(g@[k as int]));
        assert(g@.subrange(0, k + 1) =~= g@.subrange(0, k as int).push(g@[k as int]));
        k = k + 1;
    }
    assert(g@.subrange(0, k as int) =~= g@);
    out
}

/// One group of the breakdown by location name.
#[derive(Debug, Clone)]
pub struct IncidentsByLocation {
    pub location_name: String,
    pub count: i64,
}

/// The (key, count) pairs of a breakdown.
pub open spec fn location_pairs(r: Seq<IncidentsByLocation>) -> Seq<(String, i64)> {
    r.map_values(|g: IncidentsByLocation| (g.location_name, g.count))
}

/// Incidents of establishment `establishment_id` in `year` per location name ("Unassigned" for those without a known location), in ascending order of name.
pub fn get_incidents_by_location(incidents: &Vec<Incident>, establishment_id: i64, year: i64, locations: &Vec<Location>) -> (r: Vec<IncidentsByLocation>)
    requires
        incidents@.len() <= MAX_REPORT_RECORDS,
    ensures
        groups_count(location_pairs(r@), incidents@, by_location_key(establishment_id, int_text(year as int), locations@)),
{
    let year_text = int_to_text(year);
    let ghost f = by_location_key(establishment_id, int_text(year as int), locations@);
    let mut keys: Vec<Option<String>> = Vec::new();
    let mut i: usize = 0;
    while i < incidents.len()
        invariant
            i <= incidents@.len(),
            keys@.len() == i,
            year_text@ == int_text(year as int),
            f == by_location_key(establishment_id, int_text(year as int), locations@),
            forall|j: int| 0 <= j < i ==> match #[trigger] keys@[j] {
                Some(t) => f(incidents@[j]) == Some(t@),
                None => f(incidents@[j]) is None,
            },
        decreases incidents@.len() - i,
    {
        let x = &incidents[i];
        if x.establishment_id == establishment_id && starts_with(x.incident_date.as_str(), year_text.as_str()) {
            keys.push(Some(location_name_of(x, locations)));
        } else {
            keys.push(None);
        }
        i = i + 1;
    }
    let g = group_by_keys(keys, Ghost(incidents@), Ghost(f));
    let mut out: Vec<IncidentsByLocation> = Vec::new();
    let mut k: usize = 0;
    while k < g.len()
        invariant
            k <= g@.len(),
            location_pairs(out@) =~= g@.subrange(0, k as int),
        decreases g@.len() - k,
    {
        let ghost before = out@;
        out.push(IncidentsByLocation { location_name: g[k].0.clone(), count: g[k].1 });
        assert(location_pairs(out@) =~= location_pairs(before).push(g@[k as int]));
        assert(g@.subrange(0, k + 1) =~= g@.subrange(0, k as int).push(g@[k as int]));
        k = k + 1;
    }
    assert(g@.subrange(0, k as int) =~= g@);
    out
}

/// One group of the breakdown by injury type.
#[derive(Debug, Clone)]
pub struct IncidentsByType {
    pub injury_type: String,
    pub count: i64,
}

/// The (key, count) pairs of a breakdown.
pub open spec fn type_pairs(r: Seq<IncidentsByType>) -> Seq<(String, i64)> {
    r.map_values(|g: IncidentsByType| (g.injury_type, g.count))
}

/// Recordable incidents of establishment `establishment_id` in `year` per injury or illness type, by type name in ascending order.
pub fn get_incidents_by_type(incidents: &Vec<Incident>, establishment_id: i64, year: i64) -> (r: Vec<IncidentsByType>)
    requires
        incidents@.len() <= MAX_REPORT_RECORDS,
    ensures
        groups_count(type_pairs(r@), incidents@, by_type_key(establishment_id, int_text(year as int))),
{
    let year_text = int_to_text(year);
    let ghost f = by_type_key(establishment_id, int_text(year as int));
    let mut keys: Vec<Option<String>> = Vec::new();
    let mut i: usize = 0;
    while i < incidents.len()
        invariant
            i <= incidents@.len(),
            keys@.len() == i,
            year_text@ == int_text(year as int),
            f == by_type_key(establishment_id, int_text(year as int)),
            forall|j: int| 0 <= j < i ==> match #[trigger] keys@[j] {
                Some(t) => f(incidents@[j]) == Some(t@),
                None => f(incidents@[j]) is None,
            },
        decreases incidents@.len() - i,
    {
        let x = &incidents[i];
        if x.establishment_id == establishment_id && starts_with(x.incident_date.as_str(), year_text.as_str()) && x.is_recordable {
            keys.push(Some(x.injury_illness_type.as_text()));
        } else {
            keys.push(None);
        }
        i = i + 1;
    }
    let g = group_by_keys(keys, Ghost(incidents@), Ghost(f));
    let mut out: Vec<IncidentsByType> = Vec::new();
    let mut k: usize = 0;
    while k < g.len()
        invariant
            k <= g@.len(),
            type_pairs(out@) =~= g@.subrange(0, k as int),
        decreases g@.len() - k,
    {
        let ghost before = out@;
        out.push(IncidentsByType { injury_type: g[k].0.clone(), count: g[k].1 });
        assert(type_pairs(out@) =~= type_pairs(before).push(g@[k as int]));
        assert(g@.subrange(0, k + 1) =~= g@.subrange(0, k as int).push(g@[k as int]));
        k = k + 1;
    }
    assert(g@.subrange(0, k as int) =~= g@);
    out
}

} // verus!
