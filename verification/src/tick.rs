//! The periodic check: detection, the busiest sources, the packet rate, and
//! forgetting who has fallen silent.

use vstd::prelude::*;

use crate::alert::DDoSAlert;
use crate::attack::{raise_alerts, RateReading, Thresholds};
use crate::metrics::{alert_update, source_update, window_update, MetricUpdate};
use crate::report::{top_sources, IpReport, SOURCES_GAUGED};
use crate::state::{AppState, RateWindow};

verus! {

/// What one periodic check found.
pub struct TickReport {
    /// The alerts that were raised.
    pub alerts: Vec<DDoSAlert>,
    /// The busiest sources, busiest first.
    pub top: Vec<IpReport>,
    /// The rate window that has ended, if it had any length.
    pub window: Option<RateWindow>,
}

/// The state after a periodic check that raised the given alerts.
pub open spec fn model_after_check(
    m: crate::state::TrafficModel,
    raised: Seq<crate::alert::AlertRecord>,
    now: nat,
) -> crate::state::TrafficModel {
    let windowed = crate::state::model_after_window(m, now);
    crate::state::TrafficModel {
        ips: crate::state::recent_ips(m.ips, now),
        alerts: crate::alert::logged_all(m.alerts, raised),
        ..windowed
    }
}

/// What a check adds to the metrics: each alert in its order, then each of the
/// busiest sources, then the packet rate, if the rate window had any length.
pub open spec fn check_facts(report: TickReport) -> Seq<crate::metrics::UpdateFacts> {
    report.alerts@.map_values(|alert: DDoSAlert| crate::metrics::alert_facts(alert@))
        + report.top@.map_values(|source: IpReport| crate::metrics::source_facts(source@)) + (
    match report.window {
        Some(window) => seq![crate::metrics::window_facts(window)],
        None => Seq::empty(),
    })
}

/// What a check adds to the metrics.
pub fn check_updates(report: &TickReport) -> (r: Vec<MetricUpdate>)
    ensures
        crate::metrics::update_facts(r@) == check_facts(*report),
{
    let ghost alerts = report.alerts@.map_values(
        |alert: DDoSAlert| crate::metrics::alert_facts(alert@),
    );
    let ghost top = report.top@.map_values(
        |source: IpReport| crate::metrics::source_facts(source@),
    );
    let mut out: Vec<MetricUpdate> = Vec::new();
    let mut i: usize = 0;
    while i < report.alerts.len()
        invariant
            alerts == report.alerts@.map_values(
                |alert: DDoSAlert| crate::metrics::alert_facts(alert@),
            ),
            i <= report.alerts@.len(),
            crate::metrics::update_facts(out@) == alerts.take(i as int),
        decreases report.alerts@.len() - i,
    {
        let ghost before = out@;
        let update = alert_update(&report.alerts[i]);
        assert(update@ == alerts[i as int]);
        out.push(update);
        assert(crate::metrics::update_facts(out@) =~= crate::metrics::update_facts(before).push(
            alerts[i as int],
        ));
        assert(alerts.take(i + 1) =~= alerts.take(i as int).push(alerts[i as int]));
        i = i + 1;
    }
    assert(alerts.take(i as int) =~= alerts);
    assert(alerts + top.take(0) =~= alerts);
    let mut k: usize = 0;
    while k < report.top.len()
        invariant
            top == report.top@.map_values(
                |source: IpReport| crate::metrics::source_facts(source@),
            ),
            k <= report.top@.len(),
            crate::metrics::update_facts(out@) == alerts + top.take(k as int),
        decreases report.top@.len() - k,
    {
        let ghost before = out@;
        let update = source_update(&report.top[k]);
        assert(update@ == top[k as int]);
        out.push(update);
        assert(crate::metrics::update_facts(out@) =~= crate::metrics::update_facts(before).push(
            top[k as int],
        ));
        assert(alerts + top.take(k + 1) =~= (alerts + top.take(k as int)).push(top[k as int]));
        k = k + 1;
    }
    assert(top.take(k as int) =~= top);
    if let Some(window) = &report.window {
        let ghost before = out@;
        let update = window_update(window);
        out.push(update);
        assert(crate::metrics::update_facts(out@) =~= crate::metrics::update_facts(before).push(
            update@,
        ));
    }
    assert(crate::metrics::update_facts(out@) =~= check_facts(*report));
    out
}

/// Runs one periodic check on the readings of the sources.
pub fn ddos_check(
    state: &mut AppState,
    readings: &Vec<RateReading>,
    thresholds: &Thresholds,
    now: u64,
    timestamp: u64,
) -> (r: TickReport)
    requires
        old(state).wf(),
    ensures
        final(state).wf(),
        crate::alert::alert_records(r.alerts@) == crate::attack::alerts_for(
            old(state)@,
            readings@,
            *thresholds,
            now as nat,
            timestamp,
        ),
        crate::report::names_busiest(
            r.top@,
            old(state)@.ips,
            SOURCES_GAUGED as nat,
            now as nat,
        ),
        crate::state::window_figures(r.window) == crate::state::window_ended(
            old(state)@,
            now as nat,
        ),
        final(state)@ == model_after_check(
            old(state)@,
            crate::alert::alert_records(r.alerts@),
            now as nat,
        ),
{
    let alerts = raise_alerts(state, readings, thresholds, now, timestamp);
    let top = top_sources(state, SOURCES_GAUGED, now);
    let window = state.close_rate_window(now);
    state.evict_stale(now);
    TickReport { alerts, top, window }
}

} // verus!
