//! Attack alerts and the rolling log that keeps the latest of them.

use vstd::prelude::*;
use vstd::string::*;

verus! {

/// How many alerts the log keeps.
pub const ALERT_LOG_SIZE: usize = 500;

/// One detected attack.
pub struct DDoSAlert {
    /// When it was detected, in seconds of the Unix era.
    pub timestamp: u64,
    /// The source address.
    pub src_ip: String,
    /// `SYN_FLOOD`, `HIGH_PPS`, `PORT_SCAN` or `BANDWIDTH_FLOOD`.
    pub attack_type: String,
    /// The packets per second, as the bits of a 64-bit floating-point number.
    pub pps_bits: u64,
    /// The country of the source address.
    pub country: String,
    /// What was seen.
    pub description: String,
}

/// One detected attack, as mathematical values.
pub struct AlertRecord {
    /// When it was detected, in seconds of the Unix era.
    pub timestamp: u64,
    /// The source address.
    pub src_ip: Seq<char>,
    /// The kind of attack.
    pub attack_type: Seq<char>,
    /// The bits of the packets per second.
    pub pps_bits: u64,
    /// The country of the source address.
    pub country: Seq<char>,
    /// What was seen.
    pub description: Seq<char>,
}

impl View for DDoSAlert {
    type V = AlertRecord;

    open spec fn view(&self) -> AlertRecord {
        AlertRecord {
            timestamp: self.timestamp,
            src_ip: self.src_ip@,
            attack_type: self.attack_type@,
            pps_bits: self.pps_bits,
            country: self.country@,
            description: self.description@,
        }
    }
}

/// The alerts of a list, as mathematical values.
pub open spec fn alert_records(alerts: Seq<DDoSAlert>) -> Seq<AlertRecord> {
    alerts.map_values(|a: DDoSAlert| a@)
}

/// The last `n` items of `s`, or all of them where there are no more.
pub open spec fn last_of<T>(s: Seq<T>, n: nat) -> Seq<T> {
    if s.len() <= n {
        s
    } else {
        s.skip(s.len() - n)
    }
}

/// The log `log` after one more alert.
pub open spec fn logged(log: Seq<AlertRecord>, alert: AlertRecord) -> Seq<AlertRecord> {
    last_of(log.push(alert), ALERT_LOG_SIZE as nat)
}

/// The log `log` after each alert of `alerts`, one by one.
pub open spec fn logged_all(log: Seq<AlertRecord>, alerts: Seq<AlertRecord>) -> Seq<AlertRecord>
    decreases alerts.len(),
{
    if alerts.len() == 0 {
        log
    } else {
        logged(logged_all(log, alerts.drop_last()), alerts.last())
    }
}

/// A copy of an alert.
pub fn copy_alert(alert: &DDoSAlert) -> (r: DDoSAlert)
    ensures
        r@ == alert@,
{
    DDoSAlert {
        timestamp: alert.timestamp,
        src_ip: alert.src_ip.clone(),
        attack_type: alert.attack_type.clone(),
        pps_bits: alert.pps_bits,
        country: alert.country.clone(),
        description: alert.description.clone(),
    }
}

/// Adds an alert to the log; where the log is full, the oldest alert leaves.
pub fn log_alert(log: &mut Vec<DDoSAlert>, alert: DDoSAlert)
    requires
        old(log)@.len() <= ALERT_LOG_SIZE,
    ensures
        final(log)@.len() <= ALERT_LOG_SIZE,
        alert_records(final(log)@) == logged(alert_records(old(log)@), alert@),
{
    if log.len() >= ALERT_LOG_SIZE {
        log.remove(0);
    }
    log.push(alert);
    assert(alert_records(log@) =~= logged(alert_records(old(log)@), alert@));
}

/// The log is a rolling window: whatever comes one by one, it holds the latest
/// alerts, up to its size, in the order in which they came.
pub proof fn law_log_keeps_latest(log: Seq<AlertRecord>, alerts: Seq<AlertRecord>)
    requires
        log.len() <= ALERT_LOG_SIZE,
    ensures
        logged_all(log, alerts) == last_of(log + alerts, ALERT_LOG_SIZE as nat),
    decreases alerts.len(),
{
    if alerts.len() == 0 {
        assert(log + alerts =~= log);
    } else {
        law_log_keeps_latest(log, alerts.drop_last());
        assert((log + alerts.drop_last()).push(alerts.last()) =~= log + alerts);
        assert(logged_all(log, alerts) =~= last_of(log + alerts, ALERT_LOG_SIZE as nat));
    }
}

} // verus!
