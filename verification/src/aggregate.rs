//! The aggregation facade: per-service summaries, fleet-wide status
//! and averages, and the render-ready contexts for the index and the
//! per-service detail page.

use crate::graph::{build_graph, graph_matches, TrendGraph};
use crate::rounding::{div_round_half_even, lemma_div_round_le_bound, lemma_div_round_le_self};
use crate::samples::{calculate_uptime, clamp_samples, clamped, lemma_uptime_in_range, spec_uptime};
use crate::segments::{segment_days, segment_desc_at, segment_kind_at, DaySegment};
use crate::text::{format_hundredths, hundredths_str};
use crate::timefmt::{format_timestamp, timestamp_str, Timestamp};
use vstd::arithmetic::mul::lemma_mul_is_commutative;
use vstd::prelude::*;

verus! {

/// Samples per day, at one sample per minute.
pub const DAY_WINDOW: usize = 1440;

/// Samples per seven days.
pub const WEEK_WINDOW: usize = 10080;

/// Samples per thirty days.
pub const MONTH_WINDOW: usize = 43200;

/// Samples per ninety days.
pub const NINETY_DAY_WINDOW: usize = 129600;

/// Days shown on the daily status strip.
pub const MAX_DAYS: usize = 90;

/// Largest number of points plotted on the trend graph.
pub const POINT_BUDGET: usize = 30;

/// A monitored service as the store hands it over: identity, raw
/// response-time readings (newest window first), and the probe's
/// online flag.
#[derive(Clone, Debug)]
pub struct Service {
    pub id: String,
    pub name: String,
    pub server_url: String,
    pub response_times: Vec<i32>,
    pub is_online: bool,
}

/// An incident row from the store, its timestamps already split into
/// calendar fields.
#[derive(Clone, Debug)]
pub struct Incident {
    pub id: i32,
    pub service_id: String,
    pub service_name: String,
    pub start_time: Timestamp,
    pub end_time: Option<Timestamp>,
    pub description: String,
}

/// The error carried out of the storage layer.
#[derive(Clone, Debug)]
pub struct MonitoringError(pub String);

impl From<String> for MonitoringError {
    fn from(err: String) -> (r: MonitoringError) {
        MonitoringError(err)
    }
}

impl vstd::std_specs::convert::FromSpecImpl<String> for MonitoringError {
    open spec fn obeys_from_spec() -> bool {
        true
    }

    open spec fn from_spec(err: String) -> Self {
        MonitoringError(err)
    }
}

/// Process configuration, resolved by the surrounding layer.
#[derive(Clone, Debug)]
pub struct Config {
    pub host: String,
    pub port: u16,
    pub workers: u16,
    pub database_host: String,
    pub database_port: u16,
    pub database_name: String,
    pub database_user: String,
    pub database_password: String,
}

/// Fleet-wide health shown at the top of the index page.
#[derive(Clone, Copy, Debug, PartialEq, Eq, Structural)]
pub enum StatusKind {
    Up,
    Partial,
    Down,
}

/// One service's row on the index page.
#[derive(Clone, Debug)]
pub struct ServiceEntry {
    pub id: String,
    pub name: String,
    pub uptime: String,
    pub status: Vec<DaySegment>,
}

/// One open incident's row on the index page.
#[derive(Clone, Debug)]
pub struct IncidentEntry {
    pub service_name: String,
    pub start_time: String,
    pub description: String,
}

/// The render context of the index page.
#[derive(Clone, Debug)]
pub struct IndexContext {
    pub status: StatusKind,
    pub services: Vec<ServiceEntry>,
    pub situations: Vec<IncidentEntry>,
    pub uptime_24h: String,
    pub uptime_7d: String,
    pub uptime_30d: String,
    pub uptime_90d: String,
    pub load_time: String,
}

/// The render context of the per-service detail page.
#[derive(Clone, Debug)]
pub struct DetailContext {
    pub service: Service,
    pub status: Vec<DaySegment>,
    pub uptime_24h: String,
    pub uptime_7d: String,
    pub uptime_30d: String,
    pub uptime_90d: String,
    pub graph: TrendGraph,
    pub load_time: String,
}

/// The sample window of a service: its stored readings clamped.
pub open spec fn service_samples(s: Service) -> Seq<u32> {
    clamped(s.response_times@)
}

/// A service's uptime over a window, in hundredths of a percent.
pub open spec fn spec_service_uptime(s: Service, window: int) -> int {
    spec_uptime(service_samples(s), window)
}

/// How many services report offline.
pub open spec fn count_offline(s: Seq<Service>) -> int
    decreases s.len(),
{
    if s.len() == 0 {
        0
    } else {
        count_offline(s.drop_last()) + if s.last().is_online {
            0int
        } else {
            1int
        }
    }
}

/// Fleet status: `Up` with no service offline, `Down` with every
/// service offline (so also with no services at all, where `Up` wins),
/// `Partial` otherwise.
pub open spec fn spec_overall(s: Seq<Service>) -> StatusKind {
    if count_offline(s) == 0 {
        StatusKind::Up
    } else if count_offline(s) == s.len() {
        StatusKind::Down
    } else {
        StatusKind::Partial
    }
}

/// The sum of the services' uptimes over one window, in hundredths.
pub open spec fn sum_uptimes(s: Seq<Service>, window: int) -> int
    decreases s.len(),
{
    if s.len() == 0 {
        0
    } else {
        sum_uptimes(s.drop_last(), window) + spec_service_uptime(s.last(), window)
    }
}

/// The fleet-average uptime over one window, in hundredths of a
/// percent; a fleet of zero services defaults to full health.
pub open spec fn spec_avg_uptime(s: Seq<Service>, window: int) -> int
    recommends
        1 <= window,
{
    if s.len() == 0 {
        10000
    } else {
        div_round_half_even(sum_uptimes(s, window), s.len() as int)
    }
}

/// What one index row states about its service: identity, the one-day
/// uptime rendered with two decimals, and the 90-day status strip.
pub open spec fn is_entry_for(e: ServiceEntry, s: Service) -> bool {
    &&& e.id@ == s.id@
    &&& e.name@ == s.name@
    &&& e.uptime@ == hundredths_str(spec_service_uptime(s, DAY_WINDOW as int))
    &&& e.status@.len() == MAX_DAYS as int
    &&& forall|i: int|
        0 <= i < MAX_DAYS ==> #[trigger] e.status@[i].kind == segment_kind_at(
            service_samples(s),
            DAY_WINDOW as int,
            MAX_DAYS as int,
            i,
        )
    &&& forall|i: int|
        0 <= i < MAX_DAYS ==> #[trigger] e.status@[i].description@ == segment_desc_at(
            service_samples(s),
            DAY_WINDOW as int,
            MAX_DAYS as int,
            i,
        )
}

/// What one incident row states about its incident.
pub open spec fn is_incident_entry_for(e: IncidentEntry, inc: Incident) -> bool {
    &&& e.service_name@ == inc.service_name@
    &&& e.start_time@ == timestamp_str(inc.start_time)
    &&& e.description@ == inc.description@
}

/// The full statement of the index context: fleet status, one row per
/// service, one row per incident, the four fleet-average uptimes, and
/// the render time.
pub open spec fn index_context_matches(
    c: IndexContext,
    services: Seq<Service>,
    incidents: Seq<Incident>,
    now: Timestamp,
) -> bool {
    &&& c.status == spec_overall(services)
    &&& c.services@.len() == services.len()
    &&& forall|i: int|
        0 <= i < services.len() ==> is_entry_for(#[trigger] c.services@[i], services[i])
    &&& c.situations@.len() == incidents.len()
    &&& forall|i: int|
        0 <= i < incidents.len() ==> is_incident_entry_for(#[trigger] c.situations@[i], incidents[i])
    &&& c.uptime_24h@ == hundredths_str(spec_avg_uptime(services, DAY_WINDOW as int))
    &&& c.uptime_7d@ == hundredths_str(spec_avg_uptime(services, WEEK_WINDOW as int))
    &&& c.uptime_30d@ == hundredths_str(spec_avg_uptime(services, MONTH_WINDOW as int))
    &&& c.uptime_90d@ == hundredths_str(spec_avg_uptime(services, NINETY_DAY_WINDOW as int))
    &&& c.load_time@ == timestamp_str(now)
}

/// Index of the first service carrying `id`, searching from position
/// `i`; negative when none does.
pub open spec fn spec_find(s: Seq<Service>, id: Seq<char>, i: int) -> int
    recommends
        0 <= i <= s.len(),
    decreases s.len() - i,
{
    if i < 0 || i >= s.len() {
        -1
    } else if s[i].id@ == id {
        i
    } else {
        spec_find(s, id, i + 1)
    }
}

/// Two services carrying the same observable data.
pub open spec fn service_views_equal(a: Service, b: Service) -> bool {
    &&& a.id@ == b.id@
    &&& a.name@ == b.name@
    &&& a.server_url@ == b.server_url@
    &&& a.response_times@ == b.response_times@
    &&& a.is_online == b.is_online
}

/// The full statement of the detail context for the service found
/// under the requested id.
pub open spec fn detail_context_matches(
    c: DetailContext,
    services: Seq<Service>,
    id: Seq<char>,
    now: Timestamp,
) -> bool {
    let k = spec_find(services, id, 0);
    &&& 0 <= k < services.len()
    &&& service_views_equal(c.service, services[k])
    &&& c.status@.len() == MAX_DAYS as int
    &&& forall|i: int|
        0 <= i < MAX_DAYS ==> #[trigger] c.status@[i].kind == segment_kind_at(
            service_samples(services[k]),
            DAY_WINDOW as int,
            MAX_DAYS as int,
            i,
        )
    &&& forall|i: int|
        0 <= i < MAX_DAYS ==> #[trigger] c.status@[i].description@ == segment_desc_at(
            service_samples(services[k]),
            DAY_WINDOW as int,
            MAX_DAYS as int,
            i,
        )
    &&& c.uptime_24h@ == hundredths_str(spec_service_uptime(services[k], DAY_WINDOW as int))
    &&& c.uptime_7d@ == hundredths_str(spec_service_uptime(services[k], WEEK_WINDOW as int))
    &&& c.uptime_30d@ == hundredths_str(spec_service_uptime(services[k], MONTH_WINDOW as int))
    &&& c.uptime_90d@ == hundredths_str(spec_service_uptime(services[k], NINETY_DAY_WINDOW as int))
    &&& graph_matches(
        c.graph,
        service_samples(services[k]),
        MONTH_WINDOW as int,
        DAY_WINDOW as int,
        POINT_BUDGET as int,
    )
    &&& c.load_time@ == timestamp_str(now)
}

/// Two index rows carrying the same rendered data.
pub open spec fn entries_agree(a: ServiceEntry, b: ServiceEntry) -> bool {
    &&& a.id@ == b.id@
    &&& a.name@ == b.name@
    &&& a.uptime@ == b.uptime@
    &&& a.status@.len() == b.status@.len()
    &&& forall|j: int|
        0 <= j < a.status@.len() ==> #[trigger] a.status@[j].kind == b.status@[j].kind
    &&& forall|j: int|
        0 <= j < a.status@.len() ==> #[trigger] a.status@[j].description@
            == b.status@[j].description@
}

/// Two incident rows carrying the same rendered data.
pub open spec fn incident_entries_agree(a: IncidentEntry, b: IncidentEntry) -> bool {
    &&& a.service_name@ == b.service_name@
    &&& a.start_time@ == b.start_time@
    &&& a.description@ == b.description@
}

/// Two index contexts indistinguishable to the renderer.
pub open spec fn index_contexts_agree(a: IndexContext, b: IndexContext) -> bool {
    &&& a.status == b.status
    &&& a.services@.len() == b.services@.len()
    &&& forall|i: int|
        0 <= i < a.services@.len() ==> entries_agree(
            #[trigger] a.services@[i],
            b.services@[i],
        )
    &&& a.situations@.len() == b.situations@.len()
    &&& forall|i: int|
        0 <= i < a.situations@.len() ==> incident_entries_agree(
            #[trigger] a.situations@[i],
            b.situations@[i],
        )
    &&& a.uptime_24h@ == b.uptime_24h@
    &&& a.uptime_7d@ == b.uptime_7d@
    &&& a.uptime_30d@ == b.uptime_30d@
    &&& a.uptime_90d@ == b.uptime_90d@
    &&& a.load_time@ == b.load_time@
}

/// Two graphs carrying the same rendered data.
pub open spec fn graphs_agree(a: TrendGraph, b: TrendGraph) -> bool {
    &&& a.points@ == b.points@
    &&& a.y_axis_steps@ == b.y_axis_steps@
    &&& a.max_response == b.max_response
    &&& a.min_response == b.min_response
    &&& a.avg_response == b.avg_response
}

/// Two detail contexts indistinguishable to the renderer.
pub open spec fn detail_contexts_agree(a: DetailContext, b: DetailContext) -> bool {
    &&& service_views_equal(a.service, b.service)
    &&& a.status@.len() == b.status@.len()
    &&& forall|j: int|
        0 <= j < a.status@.len() ==> #[trigger] a.status@[j].kind == b.status@[j].kind
    &&& forall|j: int|
        0 <= j < a.status@.len() ==> #[trigger] a.status@[j].description@
            == b.status@[j].description@
    &&& a.uptime_24h@ == b.uptime_24h@
    &&& a.uptime_7d@ == b.uptime_7d@
    &&& a.uptime_30d@ == b.uptime_30d@
    &&& a.uptime_90d@ == b.uptime_90d@
    &&& graphs_agree(a.graph, b.graph)
    &&& a.load_time@ == b.load_time@
}

/// Building the index context twice from identical input data yields
/// contexts the renderer cannot tell apart: the aggregation is a
/// function of the store's data and the render time alone.
pub proof fn lemma_index_context_deterministic(
    c1: IndexContext,
    c2: IndexContext,
    services: Seq<Service>,
    incidents: Seq<Incident>,
    now: Timestamp,
)
    requires
        index_context_matches(c1, services, incidents, now),
        index_context_matches(c2, services, incidents, now),
    ensures
        index_contexts_agree(c1, c2),
{
    assert forall|i: int| 0 <= i < c1.services@.len() implies entries_agree(
        #[trigger] c1.services@[i],
        c2.services@[i],
    ) by {
        assert(is_entry_for(c1.services@[i], services[i]));
        assert(is_entry_for(c2.services@[i], services[i]));
    }
    assert forall|i: int| 0 <= i < c1.situations@.len() implies incident_entries_agree(
        #[trigger] c1.situations@[i],
        c2.situations@[i],
    ) by {
        assert(is_incident_entry_for(c1.situations@[i], incidents[i]));
        assert(is_incident_entry_for(c2.situations@[i], incidents[i]));
    }
}

/// Building the detail context twice from identical input data yields
/// contexts the renderer cannot tell apart.
pub proof fn lemma_detail_context_deterministic(
    c1: DetailContext,
    c2: DetailContext,
    services: Seq<Service>,
    id: Seq<char>,
    now: Timestamp,
)
    requires
        detail_context_matches(c1, services, id, now),
        detail_context_matches(c2, services, id, now),
    ensures
        detail_contexts_agree(c1, c2),
{
}

proof fn lemma_count_offline_take_step(s: Seq<Service>, i: int)
    requires
        0 <= i < s.len(),
    ensures
        count_offline(s.take(i + 1)) == count_offline(s.take(i)) + if s[i].is_online {
            0int
        } else {
            1int
        },
{
    assert(s.take(i + 1).drop_last() =~= s.take(i));
    assert(s.take(i + 1).last() == s[i]);
}

proof fn lemma_count_offline_bounds(s: Seq<Service>)
    ensures
        0 <= count_offline(s) <= s.len(),
    decreases s.len(),
{
    if s.len() > 0 {
        lemma_count_offline_bounds(s.drop_last());
    }
}

proof fn lemma_sum_uptimes_take_step(s: Seq<Service>, i: int, window: int)
    requires
        0 <= i < s.len(),
    ensures
        sum_uptimes(s.take(i + 1), window) == sum_uptimes(s.take(i), window)
            + spec_service_uptime(s[i], window),
{
    assert(s.take(i + 1).drop_last() =~= s.take(i));
    assert(s.take(i + 1).last() == s[i]);
}

proof fn lemma_sum_uptimes_bounds(s: Seq<Service>, window: int)
    requires
        1 <= window,
    ensures
        0 <= sum_uptimes(s, window) <= s.len() * 10000,
    decreases s.len(),
{
    if s.len() == 0 {
    } else {
        lemma_sum_uptimes_bounds(s.drop_last(), window);
        lemma_uptime_in_range(service_samples(s.last()), window);
        assert((s.len() - 1) * 10000 + 10000 == s.len() * 10000) by (nonlinear_arith)
            requires s.len() >= 1;
    }
}

/// Classifies the fleet: `Up` with nothing offline, `Down` with
/// everything offline, `Partial` in between.
pub fn overall_status(services: &Vec<Service>) -> (r: StatusKind)
    ensures
        r == spec_overall(services@),
{
    let n = services.len();
    let mut offline: usize = 0;
    for i in 0..n
        invariant
            n == services@.len(),
            offline == count_offline(services@.take(i as int)),
            offline <= i,
    {
        proof {
            lemma_count_offline_take_step(services@, i as int);
        }
        if !services[i].is_online {
            offline = offline + 1;
        }
    }
    proof {
        assert(services@.take(n as int) =~= services@);
    }
    if offline == 0 {
        StatusKind::Up
    } else if offline == n {
        StatusKind::Down
    } else {
        StatusKind::Partial
    }
}

/// The fleet-average uptime over one window, in hundredths of a
/// percent; with no services it reports full health.
pub fn average_uptime(services: &Vec<Service>, window: usize) -> (r: u32)
    requires
        1 <= window,
    ensures
        r == spec_avg_uptime(services@, window as int),
        r <= 10000,
{
    let n = services.len();
    if n == 0 {
        return 10000;
    }
    let mut total: u128 = 0;
    for i in 0..n
        invariant
            1 <= window,
            n == services@.len(),
            total == sum_uptimes(services@.take(i as int), window as int),
            total <= (i as int) * 10000,
    {
        proof {
            lemma_sum_uptimes_take_step(services@, i as int, window as int);
            lemma_uptime_in_range(service_samples(services@[i as int]), window as int);
            assert((i as int) * 10000 + 10000 == (i as int + 1) * 10000) by (nonlinear_arith);
            assert((i as int + 1) * 10000 <= u128::MAX) by (nonlinear_arith)
                requires 0 <= i as int + 1 < 0x1_0000_0000_0000_0000;
        }
        let samples = clamp_samples(&services[i].response_times);
        let u = calculate_uptime(&samples, window);
        total = total + (u as u128);
    }
    proof {
        assert(services@.take(n as int) =~= services@);
        lemma_mul_is_commutative(n as int, 10000);
        lemma_div_round_le_bound(sum_uptimes(services@, window as int), n as int, 10000);
        lemma_div_round_le_self(sum_uptimes(services@, window as int), n as int);
    }
    let q = crate::rounding::rounded_div_u128(total, n as u128);
    q as u32
}

/// Builds one service's index row: identity, the one-day uptime with
/// two decimals, and the 90-day status strip.
pub fn service_entry(service: &Service) -> (e: ServiceEntry)
    requires
        service.response_times@.len() + DAY_WINDOW <= usize::MAX,
    ensures
        is_entry_for(e, *service),
{
    let samples = clamp_samples(&service.response_times);
    let uptime = calculate_uptime(&samples, DAY_WINDOW);
    let status = segment_days(&samples, DAY_WINDOW, MAX_DAYS);
    ServiceEntry {
        id: clone_string(&service.id),
        name: clone_string(&service.name),
        uptime: format_hundredths(uptime),
        status,
    }
}

/// Builds one incident's index row, its start time rendered in the
/// fixed UTC format.
pub fn incident_entry(incident: &Incident) -> (e: IncidentEntry)
    requires
        incident.start_time.wf(),
    ensures
        is_incident_entry_for(e, *incident),
{
    IncidentEntry {
        service_name: clone_string(&incident.service_name),
        start_time: format_timestamp(&incident.start_time),
        description: clone_string(&incident.description),
    }
}

fn clone_string(s: &String) -> (r: String)
    ensures
        r@ == s@,
{
    s.clone()
}

/// A copy of a service carrying the same observable data.
pub fn clone_service(s: &Service) -> (r: Service)
    ensures
        service_views_equal(r, *s),
{
    let mut rt: Vec<i32> = Vec::new();
    let n = s.response_times.len();
    for i in 0..n
        invariant
            n == s.response_times@.len(),
            rt@.len() == i,
            forall|j: int| 0 <= j < i ==> rt@[j] == s.response_times@[j],
    {
        rt.push(s.response_times[i]);
    }
    proof {
        assert(rt@ =~= s.response_times@);
    }
    Service {
        id: clone_string(&s.id),
        name: clone_string(&s.name),
        server_url: clone_string(&s.server_url),
        response_times: rt,
        is_online: s.is_online,
    }
}

/// Builds the index page context: fleet status, a row per service, a
/// row per incident, the four fleet-average uptimes, and the render
/// time.
pub fn build_index_context(
    services: &Vec<Service>,
    incidents: &Vec<Incident>,
    now: Timestamp,
) -> (c: IndexContext)
    requires
        now.wf(),
        forall|i: int|
            0 <= i < services@.len() ==> (#[trigger] services@[i]).response_times@.len()
                + DAY_WINDOW <= usize::MAX,
        forall|i: int| 0 <= i < incidents@.len() ==> (#[trigger] incidents@[i]).start_time.wf(),
    ensures
        index_context_matches(c, services@, incidents@, now),
{
    let status = overall_status(services);
    let n = services.len();
    let mut entries: Vec<ServiceEntry> = Vec::new();
    for i in 0..n
        invariant
            n == services@.len(),
            forall|j: int|
                0 <= j < services@.len() ==> (#[trigger] services@[j]).response_times@.len()
                    + DAY_WINDOW <= usize::MAX,
            entries@.len() == i,
            forall|j: int|
                0 <= j < i ==> is_entry_for(#[trigger] entries@[j], services@[j]),
    {
        entries.push(service_entry(&services[i]));
    }
    let m = incidents.len();
    let mut situations: Vec<IncidentEntry> = Vec::new();
    for i in 0..m
        invariant
            m == incidents@.len(),
            forall|j: int| 0 <= j < incidents@.len() ==> (#[trigger] incidents@[j]).start_time.wf(),
            situations@.len() == i,
            forall|j: int|
                0 <= j < i ==> is_incident_entry_for(#[trigger] situations@[j], incidents@[j]),
    {
        situations.push(incident_entry(&incidents[i]));
    }
    let uptime_24h = format_hundredths(average_uptime(services, DAY_WINDOW));
    let uptime_7d = format_hundredths(average_uptime(services, WEEK_WINDOW));
    let uptime_30d = format_hundredths(average_uptime(services, MONTH_WINDOW));
    let uptime_90d = format_hundredths(average_uptime(services, NINETY_DAY_WINDOW));
    let load_time = format_timestamp(&now);
    IndexContext {
        status,
        services: entries,
        situations,
        uptime_24h,
        uptime_7d,
        uptime_30d,
        uptime_90d,
        load_time,
    }
}

/// Builds the detail page context for the first service carrying the
/// requested id; a unknown id is a defined not-found outcome, not an
/// error.
pub fn build_detail_context(
    services: &Vec<Service>,
    service_id: &String,
    now: Timestamp,
) -> (r: Option<DetailContext>)
    requires
        now.wf(),
        forall|i: int|
            0 <= i < services@.len() ==> (#[trigger] services@[i]).response_times@.len()
                + DAY_WINDOW <= usize::MAX,
    ensures
        r.is_some() == (spec_find(services@, service_id@, 0) >= 0),
        r matches Some(c) ==> detail_context_matches(c, services@, service_id@, now),
{
    let n = services.len();
    let mut found: Option<usize> = None;
    for i in 0..n
        invariant
            n == services@.len(),
            match found {
                Some(fi) => fi < n && spec_find(services@, service_id@, 0) == fi,
                None => spec_find(services@, service_id@, 0) == spec_find(
                    services@,
                    service_id@,
                    i as int,
                ),
            },
    {
        if found.is_none() && services[i].id == *service_id {
            found = Some(i);
        }
    }
    let k = match found {
        Some(k) => k,
        None => {
            return None;
        },
    };
    let service = &services[k];
    let samples = clamp_samples(&service.response_times);
    let status = segment_days(&samples, DAY_WINDOW, MAX_DAYS);
    let uptime_24h = format_hundredths(calculate_uptime(&samples, DAY_WINDOW));
    let uptime_7d = format_hundredths(calculate_uptime(&samples, WEEK_WINDOW));
    let uptime_30d = format_hundredths(calculate_uptime(&samples, MONTH_WINDOW));
    let uptime_90d = format_hundredths(calculate_uptime(&samples, NINETY_DAY_WINDOW));
    let graph = build_graph(&samples, MONTH_WINDOW, DAY_WINDOW, POINT_BUDGET);
    let load_time = format_timestamp(&now);
    Some(
        DetailContext {
            service: clone_service(service),
            status,
            uptime_24h,
            uptime_7d,
            uptime_30d,
            uptime_90d,
            graph,
            load_time,
        },
    )
}

} // verus!
