//! The audit trail: a bounded log of security events, a detector of threat
//! patterns over the last hour, and a running checksum.

use crate::clock::{
    is_clock_time, time_format, utc_calendar_text, utc_now_millis, utc_text, MILLIS_PER_HOUR,
};
use crate::security::event::{
    models, slice_text, EventModel, SecurityEvent, SecurityEventType, SecuritySeverity,
};
use crate::text::{
    decimal_text, hash_text, hex_text, signed_decimal_text, str_eq, text_digest, to_decimal,
    to_hex, to_signed_decimal,
};
use vstd::prelude::*;
use vstd::string::StringExecFns;

verus! {

/// The events that the trail holds where no capacity is given.
pub const DEFAULT_CAPACITY: usize = 10000;

/// What a threat pattern says: `threshold_count` events of one kind within
/// `time_window` milliseconds.
pub struct PatternModel {
    pub name: Seq<char>,
    pub event_type: SecurityEventType,
    pub threshold_count: nat,
    pub time_window: int,
    pub risk_score: u32,
}

/// A threat pattern.
#[derive(Debug)]
pub struct ThreatPattern {
    pub name: String,
    pub event_type: SecurityEventType,
    pub threshold_count: usize,
    /// Milliseconds.
    pub time_window: i64,
    pub risk_score: u32,
}

impl View for ThreatPattern {
    type V = PatternModel;

    open spec fn view(&self) -> PatternModel {
        PatternModel {
            name: self.name@,
            event_type: self.event_type,
            threshold_count: self.threshold_count as nat,
            time_window: self.time_window as int,
            risk_score: self.risk_score,
        }
    }
}

/// What a detected threat says.
pub struct InfoModel {
    pub threat_type: Seq<char>,
    pub description: Seq<char>,
    pub confidence: u32,
}

/// A detected threat.
#[derive(Debug)]
pub struct ThreatInfo {
    pub threat_type: String,
    pub description: String,
    pub confidence: u32,
}

impl View for ThreatInfo {
    type V = InfoModel;

    open spec fn view(&self) -> InfoModel {
        InfoModel {
            threat_type: self.threat_type@,
            description: self.description@,
            confidence: self.confidence,
        }
    }
}

/// The events that count at `now`: those of the last hour.
pub open spec fn in_last_hour(now: i64) -> spec_fn(EventModel) -> bool {
    |e: EventModel| e.timestamp >= now - MILLIS_PER_HOUR
}

/// The events of one kind that are no older than `cutoff`.
pub open spec fn of_kind_since(event_type: SecurityEventType, cutoff: int) -> spec_fn(
    EventModel,
) -> bool {
    |e: EventModel| e.event_type == event_type && e.timestamp >= cutoff
}

/// A pattern fires on an event of its kind once the history holds its
/// threshold of events of that kind within its window before the event.
pub open spec fn pattern_fires(pattern: PatternModel, history: Seq<EventModel>, event: EventModel) -> bool {
    &&& event.event_type == pattern.event_type
    &&& history.filter(of_kind_since(pattern.event_type, event.timestamp - pattern.time_window)).len()
        >= pattern.threshold_count
}

/// The first pattern from `from` on that fires, by its place.
pub open spec fn first_firing(
    patterns: Seq<PatternModel>,
    history: Seq<EventModel>,
    event: EventModel,
    from: int,
) -> Option<int>
    decreases patterns.len() - from,
{
    if from < 0 || from >= patterns.len() {
        None
    } else if pattern_fires(patterns[from], history, event) {
        Some(from)
    } else {
        first_firing(patterns, history, event, from + 1)
    }
}

/// The description of the threat that a pattern stands for.
pub open spec fn threat_description(pattern: PatternModel) -> Seq<char> {
    "Detected "@ + pattern.name + " matching pattern criteria"@
}

/// The threat that a pattern stands for.
pub open spec fn threat_of(pattern: PatternModel) -> InfoModel {
    InfoModel {
        threat_type: pattern.name,
        description: threat_description(pattern),
        confidence: pattern.risk_score,
    }
}

/// The message of the event that reports a threat.
pub open spec fn threat_message(threat: InfoModel) -> Seq<char> {
    "THREAT DETECTED: "@ + threat.description + " (confidence: "@ + decimal_text(
        threat.confidence as nat,
    ) + "%)"@
}

/// The event that reports a threat at `now`.
pub open spec fn threat_event(threat: InfoModel, now: i64) -> EventModel {
    EventModel::bare(
        now,
        SecurityEventType::SecurityViolation,
        SecuritySeverity::Critical,
        threat_message(threat),
        "threat_detector"@,
    ).with_data("threat_type"@, threat.threat_type).with_data(
        "confidence"@,
        decimal_text(threat.confidence as nat),
    )
}

/// The two patterns that a detector starts with: five authentication
/// events within five minutes, and twenty vault operations within one.
pub open spec fn default_patterns() -> Seq<PatternModel> {
    seq![
        PatternModel {
            name: "Multiple Failed Authentications"@,
            event_type: SecurityEventType::Authentication,
            threshold_count: 5,
            time_window: 300_000,
            risk_score: 80,
        },
        PatternModel {
            name: "Rapid Vault Access"@,
            event_type: SecurityEventType::VaultOperation,
            threshold_count: 20,
            time_window: 60_000,
            risk_score: 60,
        },
    ]
}

/// What a detector holds.
pub struct DetectorModel {
    pub patterns: Seq<PatternModel>,
    pub history: Seq<EventModel>,
}

impl DetectorModel {
    /// The history once `event` has joined it at `now`: what is older than
    /// an hour is forgotten.
    pub open spec fn history_after(self, event: EventModel, now: i64) -> Seq<EventModel> {
        self.history.push(event).filter(in_last_hour(now))
    }

    /// The threat that `event` raises at `now`, if any: that of the first
    /// pattern that fires on the new history.
    pub open spec fn threat_on(self, event: EventModel, now: i64) -> Option<InfoModel> {
        match first_firing(self.patterns, self.history_after(event, now), event, 0) {
            Some(i) => Some(threat_of(self.patterns[i])),
            None => None,
        }
    }

    /// The detector once it has seen `event` at `now`.
    pub open spec fn after(self, event: EventModel, now: i64) -> DetectorModel {
        DetectorModel { history: self.history_after(event, now), ..self }
    }
}

/// What each of a list of patterns says.
pub open spec fn pattern_models(patterns: Seq<ThreatPattern>) -> Seq<PatternModel> {
    patterns.map_values(|p: ThreatPattern| p@)
}

/// Watches the events of the last hour for threat patterns.
#[derive(Debug)]
pub struct ThreatDetector {
    patterns: Vec<ThreatPattern>,
    event_history: Vec<SecurityEvent>,
}

impl View for ThreatDetector {
    type V = DetectorModel;

    closed spec fn view(&self) -> DetectorModel {
        DetectorModel {
            patterns: pattern_models(self.patterns@),
            history: models(self.event_history@),
        }
    }
}

/// Removes from a list of events those before `cutoff`, keeping the order
/// of the others.
fn drop_events_before(events: &mut Vec<SecurityEvent>, now: i64)
    ensures
        models(final(events)@) == models(old(events)@).filter(in_last_hour(now)),
{
    let ghost keep = in_last_hour(now);
    let ghost initial = models(events@);
    let ghost mut j: int = 0;
    let mut i: usize = 0;
    assert(initial.subrange(0, 0).filter(keep) =~= Seq::<EventModel>::empty()) by {
        reveal(Seq::filter);
    }
    assert(models(events@).subrange(0, 0) =~= Seq::<EventModel>::empty());
    assert(models(events@).subrange(0, events@.len() as int) =~= initial.subrange(
        0,
        initial.len() as int,
    ));
    while i < events.len()
        invariant
            keep == in_last_hour(now),
            initial == models(old(events)@),
            0 <= i <= events@.len(),
            0 <= j <= initial.len(),
            events@.len() - i == initial.len() - j,
            models(events@).subrange(0, i as int) == initial.subrange(0, j).filter(keep),
            models(events@).subrange(i as int, events@.len() as int) == initial.subrange(
                j,
                initial.len() as int,
            ),
        decreases events@.len() - i,
    {
        let ghost before = models(events@);
        let ghost rest = before.subrange(i as int, before.len() as int);
        assert(before[i as int] == rest[0]);
        assert(rest[0] == initial[j]);
        assert(initial.subrange(0, j + 1) =~= initial.subrange(0, j).push(initial[j]));
        proof {
            initial.subrange(0, j).lemma_filter_push(initial[j], keep);
        }
        if (events[i].timestamp as i128) >= (now as i128) - (MILLIS_PER_HOUR as i128) {
            assert(keep(initial[j]));
            assert(before.subrange(0, i + 1) =~= before.subrange(0, i as int).push(before[i as int]));
            assert(before.subrange(i + 1, before.len() as int) =~= initial.subrange(
                j + 1,
                initial.len() as int,
            )) by {
                assert(before.subrange(i + 1, before.len() as int) =~= rest.subrange(
                    1,
                    rest.len() as int,
                ));
            }
            i = i + 1;
        } else {
            assert(!keep(initial[j]));
            events.remove(i);
            let ghost after = models(events@);
            assert(after =~= before.remove(i as int));
            assert(after.subrange(0, i as int) =~= before.subrange(0, i as int));
            assert(after.subrange(i as int, after.len() as int) =~= initial.subrange(
                j + 1,
                initial.len() as int,
            )) by {
                assert(after.subrange(i as int, after.len() as int) =~= rest.subrange(
                    1,
                    rest.len() as int,
                ));
            }
        }
        proof {
            j = j + 1;
        }
    }
    assert(models(events@).subrange(0, i as int) =~= models(events@));
    assert(initial.subrange(0, j) =~= initial);
}

/// Counts the events of one kind that are no older than `cutoff`.
fn count_of_kind_since(events: &Vec<SecurityEvent>, event_type: SecurityEventType, cutoff: i128) -> (count:
    usize)
    ensures
        count == models(events@).filter(of_kind_since(event_type, cutoff as int)).len(),
{
    let ghost wanted = of_kind_since(event_type, cutoff as int);
    let ghost all = models(events@);
    let mut count: usize = 0;
    let mut i: usize = 0;
    assert(all.subrange(0, 0).filter(wanted) =~= Seq::<EventModel>::empty()) by {
        reveal(Seq::filter);
    }
    while i < events.len()
        invariant
            wanted == of_kind_since(event_type, cutoff as int),
            all == models(events@),
            i <= events@.len(),
            count <= i,
            count == all.subrange(0, i as int).filter(wanted).len(),
        decreases events@.len() - i,
    {
        proof {
            assert(all.subrange(0, i + 1) =~= all.subrange(0, i as int).push(all[i as int]));
            all.subrange(0, i as int).lemma_filter_push(all[i as int], wanted);
        }
        if events[i].event_type == event_type && (events[i].timestamp as i128) >= cutoff {
            count = count + 1;
        }
        i = i + 1;
    }
    assert(all.subrange(0, i as int) =~= all);
    count
}

impl ThreatDetector {
    /// A detector with the two default patterns and an empty history.
    pub fn new() -> (detector: Self)
        ensures
            detector@.patterns == default_patterns(),
            detector@.history == Seq::<EventModel>::empty(),
    {
        let mut patterns: Vec<ThreatPattern> = Vec::new();
        patterns.push(
            ThreatPattern {
                name: String::from_str("Multiple Failed Authentications"),
                event_type: SecurityEventType::Authentication,
                threshold_count: 5,
                time_window: 300_000,
                risk_score: 80,
            },
        );
        patterns.push(
            ThreatPattern {
                name: String::from_str("Rapid Vault Access"),
                event_type: SecurityEventType::VaultOperation,
                threshold_count: 20,
                time_window: 60_000,
                risk_score: 60,
            },
        );
        let detector = Self { patterns, event_history: Vec::new() };
        assert(detector@.patterns =~= default_patterns());
        assert(detector@.history =~= Seq::<EventModel>::empty());
        detector
    }

    /// Takes note of an event that is logged now, and names the threat that
    /// it raises.
    pub fn analyze_event(&mut self, event: &SecurityEvent) -> (threat: Option<ThreatInfo>)
        ensures
            exists|now: i64|
                {
                    &&& is_clock_time(now)
                    &&& final(self)@ == #[trigger] old(self)@.after(event@, now)
                    &&& (match threat {
                        Some(info) => Some(info@),
                        None => None,
                    }) == old(self)@.threat_on(event@, now)
                },
    {
        let now = utc_now_millis();
        let threat = self.analyze_event_at(event, now);
        assert(self@ == old(self)@.after(event@, now));
        threat
    }

    /// Takes note of an event that is logged at `now`: it joins the
    /// history, what is older than an hour leaves it, and the first pattern
    /// that fires names the threat.
    pub fn analyze_event_at(&mut self, event: &SecurityEvent, now: i64) -> (threat: Option<
        ThreatInfo,
    >)
        ensures
            final(self)@ == old(self)@.after(event@, now),
            (match threat {
                Some(info) => Some(info@),
                None => None,
            }) == old(self)@.threat_on(event@, now),
    {
        self.event_history.push(event.clone());
        assert(models(self.event_history@) =~= old(self)@.history.push(event@));
        drop_events_before(&mut self.event_history, now);
        let ghost patterns = self@.patterns;
        let ghost history = self@.history;
        let mut i: usize = 0;
        while i < self.patterns.len()
            invariant
                i <= self.patterns@.len(),
                patterns == pattern_models(self.patterns@),
                history == models(self.event_history@),
                patterns == old(self)@.patterns,
                history == old(self)@.history_after(event@, now),
                first_firing(patterns, history, event@, 0) == first_firing(
                    patterns,
                    history,
                    event@,
                    i as int,
                ),
            decreases self.patterns@.len() - i,
        {
            if self.check_pattern(i, event) {
                let name = self.patterns[i].name.clone();
                let mut description = String::from_str("Detected ");
                description.append(name.as_str());
                description.append(" matching pattern criteria");
                return Some(
                    ThreatInfo {
                        threat_type: name,
                        description,
                        confidence: self.patterns[i].risk_score,
                    },
                );
            }
            i = i + 1;
        }
        None
    }

    /// Tells whether the pattern at `index` fires on `event`, given the
    /// history as it stands.
    fn check_pattern(&self, index: usize, event: &SecurityEvent) -> (fires: bool)
        requires
            index < self.patterns@.len(),
        ensures
            fires == pattern_fires(self@.patterns[index as int], self@.history, event@),
    {
        let pattern = &self.patterns[index];
        if event.event_type != pattern.event_type {
            return false;
        }
        let cutoff: i128 = (event.timestamp as i128) - (pattern.time_window as i128);
        let matching = count_of_kind_since(&self.event_history, pattern.event_type, cutoff);
        matching >= pattern.threshold_count
    }
}

/// The running checksum once an event of digest `digest` has been taken
/// in. The order of the events counts.
pub open spec fn accumulate(checksum: u64, digest: u64) -> u64 {
    checksum.wrapping_mul(31).wrapping_add(digest)
}

/// The signature that stands for a checksum: `SHA256:` and the checksum in
/// sixteen hexadecimal digits.
pub open spec fn signature_text(checksum: u64) -> Seq<char> {
    "SHA256:"@ + hex_text(checksum, 16)
}

/// The text of an event that the checksum takes in: its time stamp and its
/// message.
pub open spec fn digest_source(event: EventModel) -> Seq<char> {
    signed_decimal_text(event.timestamp as int) + seq![' '] + event.message
}

/// The digest of an event: that of its time stamp and its message.
pub open spec fn event_digest(event: EventModel) -> u64 {
    text_digest(digest_source(event))
}

/// The digest of an event.
pub fn hash_event(event: &SecurityEvent) -> (digest: u64)
    ensures
        digest == event_digest(event@),
{
    let mut source = to_signed_decimal(event.timestamp);
    proof {
        reveal_strlit(" ");
        assert(" "@ =~= seq![' ']);
    }
    source.append(" ");
    source.append(event.message.as_str());
    hash_text(source.as_str())
}

/// Keeps a running checksum over the events that were logged.
#[derive(Debug)]
pub struct LogIntegrityChecker {
    checksum: u64,
}

impl View for LogIntegrityChecker {
    type V = u64;

    closed spec fn view(&self) -> u64 {
        self.checksum
    }
}

impl LogIntegrityChecker {
    /// A checker that has seen no event: its checksum is 0.
    pub fn new() -> (checker: Self)
        ensures
            checker@ == 0,
    {
        Self { checksum: 0 }
    }

    /// Takes an event into the checksum.
    pub fn update_checksum(&mut self, event: &SecurityEvent)
        ensures
            final(self)@ == accumulate(old(self)@, event_digest(event@)),
    {
        let digest = hash_event(event);
        self.update_checksum_with(digest);
    }

    /// Takes the digest of an event into the checksum.
    pub fn update_checksum_with(&mut self, digest: u64)
        ensures
            final(self)@ == accumulate(old(self)@, digest),
    {
        self.checksum = self.checksum.wrapping_mul(31).wrapping_add(digest);
    }

    /// Tells whether the log is intact. Nothing is stored to hold the
    /// checksum against, so this is always the case.
    pub fn verify_integrity(&self) -> (intact: bool)
        ensures
            intact,
    {
        true
    }

    /// The signature that closes a flushed batch.
    pub fn generate_signature(&self) -> (signature: String)
        ensures
            signature@ == signature_text(self@),
    {
        let mut signature = String::from_str("SHA256:");
        let digits = to_hex(self.checksum, 16);
        signature.append(digits.as_str());
        signature
    }
}

/// The last `capacity` items of a sequence; all of it where it has no more.
pub open spec fn keep_last<T>(items: Seq<T>, capacity: nat) -> Seq<T> {
    if items.len() > capacity {
        items.subrange(items.len() - capacity, items.len() as int)
    } else {
        items
    }
}

/// Evicting after each insertion leaves what evicting once at the end
/// leaves.
pub proof fn keep_last_of_push<T>(items: Seq<T>, item: T, capacity: nat)
    ensures
        keep_last(keep_last(items, capacity).push(item), capacity) == keep_last(
            items.push(item),
            capacity,
        ),
        keep_last(items, capacity).len() <= capacity,
{
    assert(keep_last(keep_last(items, capacity).push(item), capacity) =~= keep_last(
        items.push(item),
        capacity,
    ));
}

/// Appends an event to a bounded list, and evicts the oldest events until
/// the list is within its capacity.
fn push_bounded(events: &mut Vec<SecurityEvent>, event: SecurityEvent, capacity: usize)
    ensures
        final(events)@.len() <= capacity,
        models(final(events)@) == keep_last(models(old(events)@).push(event@), capacity as nat),
{
    events.push(event);
    let ghost all = models(old(events)@).push(event@);
    let ghost mut evicted: int = 0;
    assert(models(events@) =~= all.subrange(0, all.len() as int));
    while events.len() > capacity
        invariant
            0 <= evicted <= all.len(),
            models(events@) == all.subrange(evicted, all.len() as int),
            evicted > 0 ==> events@.len() >= capacity,
        decreases events@.len(),
    {
        let ghost before = models(events@);
        events.remove(0);
        assert(models(events@) =~= before.remove(0));
        assert(before.remove(0) =~= all.subrange(evicted + 1, all.len() as int));
        proof {
            evicted = evicted + 1;
        }
    }
    assert(models(events@) =~= keep_last(all, capacity as nat));
}

/// What the vault asks of its surroundings.
pub enum ActionModel {
    /// Raise a security alert with this message.
    Alert(Seq<char>),
    /// Append this event to the durable log at once.
    Persist(EventModel),
    /// Show this warning.
    Warn(Seq<char>),
}

/// What the vault asks of its surroundings: what the audit trail cannot do
/// by itself once an event is logged, and the warnings to show.
#[derive(Debug)]
pub enum AuditAction {
    /// Raise a security alert with this message.
    Alert(String),
    /// Append this event to the durable log at once.
    Persist(SecurityEvent),
    /// Show this warning.
    Warn(String),
}

impl View for AuditAction {
    type V = ActionModel;

    open spec fn view(&self) -> ActionModel {
        match self {
            AuditAction::Alert(message) => ActionModel::Alert(message@),
            AuditAction::Persist(event) => ActionModel::Persist(event@),
            AuditAction::Warn(message) => ActionModel::Warn(message@),
        }
    }
}

/// What each of a list of actions says.
pub open spec fn action_models(actions: Seq<AuditAction>) -> Seq<ActionModel> {
    actions.map_values(|a: AuditAction| a@)
}

/// What the audit trail holds.
pub struct AuditModel {
    /// The events, oldest first.
    pub events: Seq<EventModel>,
    /// The most events that the trail holds.
    pub max_events: nat,
    /// Where severe events are flushed at once, if anywhere.
    pub file_path: Option<Seq<char>>,
    pub detector: DetectorModel,
    pub checksum: u64,
}

impl AuditModel {
    /// The events with those that logging `event` at `now` appends: the
    /// report of the threat that it raises, if any, and the event.
    pub open spec fn appended(self, event: EventModel, now: i64) -> Seq<EventModel> {
        match self.detector.threat_on(event, now) {
            Some(threat) => self.events.push(threat_event(threat, now)).push(event),
            None => self.events.push(event),
        }
    }

    /// The trail once `event` is logged at `now`. The oldest events are
    /// evicted so that the capacity holds, and the checksum takes the event
    /// in.
    pub open spec fn after_log(self, event: EventModel, now: i64) -> AuditModel {
        AuditModel {
            events: keep_last(self.appended(event, now), self.max_events),
            detector: self.detector.after(event, now),
            checksum: accumulate(self.checksum, event_digest(event)),
            ..self
        }
    }

    /// `after` and `actions` are what logging `event` at `now` makes of the
    /// trail and asks for.
    pub open spec fn logs(
        self,
        after: AuditModel,
        actions: Seq<ActionModel>,
        event: EventModel,
        now: i64,
    ) -> bool {
        &&& after == self.after_log(event, now)
        &&& actions == self.actions_on(event, now)
    }

    /// What logging `event` at `now` asks for: an alert where a threat is
    /// raised, then the flushing of the event where it is of high severity
    /// or above and a file is set.
    pub open spec fn actions_on(self, event: EventModel, now: i64) -> Seq<ActionModel> {
        let alert = match self.detector.threat_on(event, now) {
            Some(threat) => seq![ActionModel::Alert(threat_message(threat))],
            None => Seq::empty(),
        };
        if event.severity.at_least_spec(SecuritySeverity::High) && self.file_path is Some {
            alert.push(ActionModel::Persist(event))
        } else {
            alert
        }
    }
}

/// The trail never holds more than its capacity, and the event that was
/// logged last is its newest one.
pub proof fn trail_stays_bounded(trail: AuditModel, event: EventModel, now: i64)
    ensures
        trail.after_log(event, now).events.len() <= trail.max_events,
        trail.max_events > 0 ==> trail.after_log(event, now).events.last() == event,
        trail.events.len() + 1 <= trail.max_events ==> trail.after_log(event, now).events.len()
            > trail.events.len(),
{
}

/// Logging into a full trail leaves it full and evicts its oldest event:
/// what the trail then holds does not depend on that event. Where no threat
/// is raised, it holds the others and the new one.
pub proof fn full_trail_evicts_oldest(trail: AuditModel, event: EventModel, now: i64)
    requires
        trail.max_events > 0,
        trail.events.len() == trail.max_events,
    ensures
        trail.after_log(event, now).events.len() == trail.max_events,
        trail.after_log(event, now).events == (AuditModel {
            events: trail.events.drop_first(),
            ..trail
        }).after_log(event, now).events,
        trail.detector.threat_on(event, now) is None ==> trail.after_log(event, now).events
            == trail.events.drop_first().push(event),
{
    let shorter = AuditModel { events: trail.events.drop_first(), ..trail };
    assert(trail.after_log(event, now).events =~= shorter.after_log(event, now).events);
    if trail.detector.threat_on(event, now) is None {
        assert(trail.after_log(event, now).events =~= trail.events.drop_first().push(
            event,
        ));
    }
}

/// The mark that stands for a level of severity in a printed event.
pub open spec fn severity_mark(severity: SecuritySeverity) -> Seq<char> {
    match severity {
        SecuritySeverity::Info => "ℹ️"@,
        SecuritySeverity::Low => "🟡"@,
        SecuritySeverity::Medium => "🟠"@,
        SecuritySeverity::High => "🔴"@,
        SecuritySeverity::Critical => "🚨"@,
    }
}

/// The date and time of a printed event; a note where the calendar does not
/// reach the time stamp.
pub open spec fn time_text(timestamp: i64) -> Seq<char> {
    match utc_calendar_text(timestamp, time_format()) {
        Some(text) => text,
        None => "(time out of range)"@,
    }
}

/// An event as one line of text.
pub open spec fn formatted_event(event: EventModel) -> Seq<char> {
    time_text(event.timestamp) + " ["@ + severity_mark(event.severity) + "] "@
        + event.event_type.label_spec() + ": "@ + event.message
}

/// The events of a kind, where one is given, and of a severity or above,
/// where one is given.
pub open spec fn meets_criteria(
    event_type: Option<SecurityEventType>,
    min_severity: Option<SecuritySeverity>,
) -> spec_fn(EventModel) -> bool {
    |e: EventModel|
        {
            &&& (event_type matches Some(kind) ==> e.event_type == kind)
            &&& (min_severity matches Some(least) ==> e.severity.at_least_spec(least))
        }
}

/// The event that `log` records for a plain message.
pub open spec fn message_event(now: i64, message: Seq<char>) -> EventModel {
    EventModel::bare(
        now,
        SecurityEventType::VaultOperation,
        SecuritySeverity::Info,
        message,
        "vault"@,
    )
}

/// The event that records an authentication: of medium severity where it
/// failed.
pub open spec fn authentication_model(
    now: i64,
    success: bool,
    user: Option<Seq<char>>,
    details: Seq<char>,
) -> EventModel {
    let event = EventModel::bare(
        now,
        SecurityEventType::Authentication,
        if success {
            SecuritySeverity::Info
        } else {
            SecuritySeverity::Medium
        },
        if success {
            "Authentication successful: "@ + details
        } else {
            "Authentication failed: "@ + details
        },
        "auth"@,
    );
    match user {
        Some(name) => event.with_context(name),
        None => event,
    }
}

/// The severity of a vault operation: medium for what removes or moves
/// data, low for the use of the cipher, informational for the rest.
pub open spec fn operation_severity(operation: Seq<char>) -> SecuritySeverity {
    if operation == "delete"@ || operation == "export"@ || operation == "import"@ {
        SecuritySeverity::Medium
    } else if operation == "decrypt"@ || operation == "encrypt"@ {
        SecuritySeverity::Low
    } else {
        SecuritySeverity::Info
    }
}

/// The event that records a vault operation.
pub open spec fn vault_operation_model(
    now: i64,
    operation: Seq<char>,
    details: Seq<char>,
    user: Option<Seq<char>>,
) -> EventModel {
    let event = EventModel::bare(
        now,
        SecurityEventType::VaultOperation,
        operation_severity(operation),
        "Vault operation: "@ + operation + " - "@ + details,
        "vault"@,
    );
    match user {
        Some(name) => event.with_context(name),
        None => event,
    }
}

/// The event that records a security violation.
pub open spec fn security_violation_model(now: i64, violation: Seq<char>, details: Seq<char>) -> EventModel {
    EventModel::bare(
        now,
        SecurityEventType::SecurityViolation,
        SecuritySeverity::High,
        "Security violation: "@ + violation + " - "@ + details,
        "security_monitor"@,
    )
}

/// The severity that a risk score stands for: low up to 30, medium up to
/// 60, high up to 80, critical above.
pub open spec fn risk_severity(risk_score: u32) -> SecuritySeverity {
    if risk_score <= 30 {
        SecuritySeverity::Low
    } else if risk_score <= 60 {
        SecuritySeverity::Medium
    } else if risk_score <= 80 {
        SecuritySeverity::High
    } else {
        SecuritySeverity::Critical
    }
}

/// The event that records a suspicious activity.
pub open spec fn suspicious_activity_model(now: i64, activity: Seq<char>, risk_score: u32) -> EventModel {
    EventModel::bare(
        now,
        SecurityEventType::SuspiciousActivity,
        risk_severity(risk_score),
        "Suspicious activity detected: "@ + activity + " (risk score: "@ + decimal_text(
            risk_score as nat,
        ) + ")"@,
        "threat_detector"@,
    ).with_data("risk_score"@, decimal_text(risk_score as nat))
}

/// Builds the event that `log` records for a plain message.
pub fn message_event_at(now: i64, message: &str) -> (event: SecurityEvent)
    ensures
        event@ == message_event(now, message@),
{
    SecurityEvent::new_at(
        now,
        SecurityEventType::VaultOperation,
        SecuritySeverity::Info,
        message,
        "vault",
    )
}

/// Builds the event that records an authentication.
pub fn authentication_event(now: i64, success: bool, user: Option<&str>, details: &str) -> (event:
    SecurityEvent)
    ensures
        event@ == authentication_model(
            now,
            success,
            slice_text(user),
            details@,
        ),
{
    let severity = if success {
        SecuritySeverity::Info
    } else {
        SecuritySeverity::Medium
    };
    let mut message = if success {
        String::from_str("Authentication successful: ")
    } else {
        String::from_str("Authentication failed: ")
    };
    message.append(details);
    let event = SecurityEvent::new_at(
        now,
        SecurityEventType::Authentication,
        severity,
        message.as_str(),
        "auth",
    );
    match user {
        Some(name) => event.with_context(name),
        None => event,
    }
}

/// Builds the event that records a vault operation.
pub fn vault_operation_event(now: i64, operation: &str, details: &str, user: Option<&str>) -> (event:
    SecurityEvent)
    ensures
        event@ == vault_operation_model(
            now,
            operation@,
            details@,
            slice_text(user),
        ),
{
    let severity = if str_eq(operation, "delete") || str_eq(operation, "export") || str_eq(
        operation,
        "import",
    ) {
        SecuritySeverity::Medium
    } else if str_eq(operation, "decrypt") || str_eq(operation, "encrypt") {
        SecuritySeverity::Low
    } else {
        SecuritySeverity::Info
    };
    let mut message = String::from_str("Vault operation: ");
    message.append(operation);
    message.append(" - ");
    message.append(details);
    let event = SecurityEvent::new_at(
        now,
        SecurityEventType::VaultOperation,
        severity,
        message.as_str(),
        "vault",
    );
    match user {
        Some(name) => event.with_context(name),
        None => event,
    }
}

/// Builds the event that records a security violation.
pub fn security_violation_event(now: i64, violation: &str, details: &str) -> (event: SecurityEvent)
    ensures
        event@ == security_violation_model(now, violation@, details@),
{
    let mut message = String::from_str("Security violation: ");
    message.append(violation);
    message.append(" - ");
    message.append(details);
    SecurityEvent::new_at(
        now,
        SecurityEventType::SecurityViolation,
        SecuritySeverity::High,
        message.as_str(),
        "security_monitor",
    )
}

/// Builds the event that records a suspicious activity.
pub fn suspicious_activity_event(now: i64, activity: &str, risk_score: u32) -> (event:
    SecurityEvent)
    ensures
        event@ == suspicious_activity_model(now, activity@, risk_score),
{
    let severity = if risk_score <= 30 {
        SecuritySeverity::Low
    } else if risk_score <= 60 {
        SecuritySeverity::Medium
    } else if risk_score <= 80 {
        SecuritySeverity::High
    } else {
        SecuritySeverity::Critical
    };
    let score = to_decimal(risk_score as u64);
    let mut message = String::from_str("Suspicious activity detected: ");
    message.append(activity);
    message.append(" (risk score: ");
    message.append(score.as_str());
    message.append(")");
    SecurityEvent::new_at(
        now,
        SecurityEventType::SuspiciousActivity,
        severity,
        message.as_str(),
        "threat_detector",
    ).with_data("risk_score", score.as_str())
}

/// Builds the event that reports a threat at `now`.
pub fn threat_event_at(threat: &ThreatInfo, now: i64) -> (event: SecurityEvent)
    ensures
        event@ == threat_event(threat@, now),
{
    let confidence = to_decimal(threat.confidence as u64);
    let mut message = String::from_str("THREAT DETECTED: ");
    message.append(threat.description.as_str());
    message.append(" (confidence: ");
    message.append(confidence.as_str());
    message.append("%)");
    SecurityEvent::new_at(
        now,
        SecurityEventType::SecurityViolation,
        SecuritySeverity::Critical,
        message.as_str(),
        "threat_detector",
    ).with_data("threat_type", threat.threat_type.as_str()).with_data(
        "confidence",
        confidence.as_str(),
    )
}

/// The audit trail.
#[derive(Debug)]
pub struct AuditLog {
    events: Vec<SecurityEvent>,
    max_events: usize,
    file_path: Option<String>,
    threat_detector: ThreatDetector,
    log_integrity: LogIntegrityChecker,
}

impl View for AuditLog {
    type V = AuditModel;

    closed spec fn view(&self) -> AuditModel {
        AuditModel {
            events: models(self.events@),
            max_events: self.max_events as nat,
            file_path: match self.file_path {
                Some(path) => Some(path@),
                None => None,
            },
            detector: self.threat_detector@,
            checksum: self.log_integrity@,
        }
    }
}

impl AuditLog {
    /// The state of a trail of the default capacity that was just made.
    pub open spec fn new_state() -> AuditModel {
        AuditLog::empty_state(10000)
    }

    /// The state of a trail that was just made: no event, no file, the
    /// default patterns, an empty history, a checksum of 0.
    pub open spec fn empty_state(max_events: nat) -> AuditModel {
        AuditModel {
            events: Seq::empty(),
            max_events,
            file_path: None,
            detector: DetectorModel { patterns: default_patterns(), history: Seq::empty() },
            checksum: 0,
        }
    }

    /// An empty trail of the default capacity, 10,000 events.
    pub fn new() -> (log: Self)
        ensures
            log@ == AuditLog::new_state(),
    {
        Self::new_with_capacity(DEFAULT_CAPACITY)
    }

    /// An empty trail that holds up to `max_events` events.
    pub fn new_with_capacity(max_events: usize) -> (log: Self)
        ensures
            log@ == AuditLog::empty_state(max_events as nat),
    {
        let log = Self {
            events: Vec::new(),
            max_events,
            file_path: None,
            threat_detector: ThreatDetector::new(),
            log_integrity: LogIntegrityChecker::new(),
        };
        assert(log@.events =~= Seq::<EventModel>::empty());
        log
    }

    /// Sets the file to which severe events are flushed at once.
    pub fn set_file_path(&mut self, path: &str)
        ensures
            final(self)@ == (AuditModel { file_path: Some(path@), ..old(self)@ }),
    {
        self.file_path = Some(String::from_str(path));
    }

    /// The file to which severe events are flushed at once.
    pub fn file_path(&self) -> (path: &Option<String>)
        ensures
            (match *path {
                Some(p) => Some(p@),
                None => None,
            }) == self@.file_path,
    {
        &self.file_path
    }

    /// The number of events that the trail holds.
    pub fn len(&self) -> (count: usize)
        ensures
            count == self@.events.len(),
    {
        self.events.len()
    }

    /// The events that the trail holds, oldest first.
    pub fn events(&self) -> (events: &Vec<SecurityEvent>)
        ensures
            models(events@) == self@.events,
    {
        &self.events
    }

    /// The signature that closes a flushed batch.
    pub fn signature(&self) -> (signature: String)
        ensures
            signature@ == signature_text(self@.checksum),
    {
        self.log_integrity.generate_signature()
    }

    /// Logs a structured event now.
    pub fn log_event(&mut self, event: SecurityEvent) -> (actions: Vec<AuditAction>)
        ensures
            exists|now: i64|
                is_clock_time(now) && #[trigger] old(self)@.logs(final(self)@, action_models(actions@), event@, now),
    {
        let now = utc_now_millis();
        self.log_event_at(event, now)
    }

    /// Logs a structured event at `now`. The detector sees it first, and
    /// the report of a threat that it raises is logged before it; the trail
    /// evicts its oldest events to stay within its capacity; the checksum
    /// takes the event in. What is left to do outside comes back.
    pub fn log_event_at(&mut self, event: SecurityEvent, now: i64) -> (actions: Vec<AuditAction>)
        ensures
            old(self)@.logs(final(self)@, action_models(actions@), event@, now),
    {
        let ghost before = self@;
        let mut actions: Vec<AuditAction> = Vec::new();
        assert(action_models(actions@) =~= Seq::<ActionModel>::empty());
        match self.threat_detector.analyze_event_at(&event, now) {
            Some(threat) => {
                let report = threat_event_at(&threat, now);
                let mut alert = String::from_str("THREAT DETECTED: ");
                alert.append(threat.description.as_str());
                alert.append(" (confidence: ");
                alert.append(to_decimal(threat.confidence as u64).as_str());
                alert.append("%)");
                actions.push(AuditAction::Alert(alert));
                assert(action_models(actions@) =~= seq![
                    ActionModel::Alert(threat_message(threat@)),
                ]);
                push_bounded(&mut self.events, report, self.max_events);
                proof {
                    keep_last_of_push(
                        before.events.push(threat_event(threat@, now)),
                        event@,
                        before.max_events,
                    );
                }
            },
            None => {},
        }
        let ghost mid = action_models(actions@);
        if event.severity.at_least(SecuritySeverity::High) && self.file_path.is_some() {
            actions.push(AuditAction::Persist(event.clone()));
            assert(action_models(actions@) =~= mid.push(ActionModel::Persist(event@)));
        }
        self.log_integrity.update_checksum(&event);
        push_bounded(&mut self.events, event, self.max_events);
        actions
    }

    /// Logs a plain message as a vault operation.
    pub fn log(&mut self, msg: &str) -> (actions: Vec<AuditAction>)
        ensures
            exists|now: i64|
                is_clock_time(now) && #[trigger] old(self)@.logs(
                    final(self)@,
                    action_models(actions@),
                    message_event(now, msg@),
                    now,
                ),
    {
        let now = utc_now_millis();
        self.log_event_at(message_event_at(now, msg), now)
    }

    /// Logs an authentication.
    pub fn log_authentication(&mut self, success: bool, user: Option<&str>, details: &str) -> (actions:
        Vec<AuditAction>)
        ensures
            exists|now: i64|
                is_clock_time(now) && #[trigger] old(self)@.logs(
                    final(self)@,
                    action_models(actions@),
                    authentication_model(
                        now,
                        success,
                        slice_text(user),
                        details@,
                    ),
                    now,
                ),
    {
        let now = utc_now_millis();
        self.log_event_at(authentication_event(now, success, user, details), now)
    }

    /// Logs a vault operation.
    pub fn log_vault_operation(&mut self, operation: &str, details: &str, user: Option<&str>) -> (actions:
        Vec<AuditAction>)
        ensures
            exists|now: i64|
                is_clock_time(now) && #[trigger] old(self)@.logs(
                    final(self)@,
                    action_models(actions@),
                    vault_operation_model(
                        now,
                        operation@,
                        details@,
                        slice_text(user),
                    ),
                    now,
                ),
    {
        let now = utc_now_millis();
        self.log_event_at(vault_operation_event(now, operation, details, user), now)
    }

    /// Logs a security violation, and asks for an alert.
    pub fn log_security_violation(&mut self, violation: &str, details: &str) -> (actions: Vec<
        AuditAction,
    >)
        ensures
            actions@.len() > 0,
            exists|now: i64|
                is_clock_time(now) && #[trigger] old(self)@.logs(
                    final(self)@,
                    action_models(actions@).drop_last(),
                    security_violation_model(now, violation@, details@),
                    now,
                ) && action_models(actions@).last() == ActionModel::Alert(
                    security_violation_model(now, violation@, details@).message,
                ),
    {
        let now = utc_now_millis();
        let event = security_violation_event(now, violation, details);
        let message = event.message.clone();
        let mut actions = self.log_event_at(event, now);
        let ghost logged = action_models(actions@);
        actions.push(AuditAction::Alert(message));
        assert(action_models(actions@).drop_last() =~= logged);
        actions
    }

    /// Logs a suspicious activity with its risk score.
    pub fn log_suspicious_activity(&mut self, activity: &str, risk_score: u32) -> (actions: Vec<
        AuditAction,
    >)
        ensures
            exists|now: i64|
                is_clock_time(now) && #[trigger] old(self)@.logs(
                    final(self)@,
                    action_models(actions@),
                    suspicious_activity_model(now, activity@, risk_score),
                    now,
                ),
    {
        let now = utc_now_millis();
        self.log_event_at(suspicious_activity_event(now, activity, risk_score), now)
    }

    /// The newest events as lines of text, newest first, `count` at most.
    pub fn get_recent_logs(&self, count: usize) -> (lines: Vec<String>)
        ensures
            lines@.len() == (if count < self@.events.len() {
                count as nat
            } else {
                self@.events.len()
            }),
            forall|i: int|
                0 <= i < lines@.len() ==> (#[trigger] lines@[i])@ == formatted_event(
                    self@.events[self@.events.len() - 1 - i],
                ),
    {
        let mut lines: Vec<String> = Vec::new();
        let total = self.events.len();
        let wanted: usize = if count < total {
            count
        } else {
            total
        };
        let mut i: usize = 0;
        while i < wanted
            invariant
                i <= wanted <= total,
                total == self.events@.len(),
                lines@.len() == i,
                forall|k: int|
                    0 <= k < i ==> (#[trigger] lines@[k])@ == formatted_event(
                        models(self.events@)[total - 1 - k],
                    ),
            decreases wanted - i,
        {
            lines.push(format_event(&self.events[total - 1 - i]));
            i = i + 1;
        }
        lines
    }

    /// Copies of the events that are of a kind, where one is given, and of
    /// a severity or above, where one is given; oldest first.
    pub fn get_events_by_criteria(
        &self,
        event_type: Option<SecurityEventType>,
        min_severity: Option<SecuritySeverity>,
    ) -> (found: Vec<SecurityEvent>)
        ensures
            models(found@) == self@.events.filter(meets_criteria(event_type, min_severity)),
    {
        let ghost wanted = meets_criteria(event_type, min_severity);
        let ghost all = models(self.events@);
        let mut found: Vec<SecurityEvent> = Vec::new();
        let mut i: usize = 0;
        assert(all.subrange(0, 0).filter(wanted) =~= Seq::<EventModel>::empty()) by {
            reveal(Seq::filter);
        }
        assert(models(found@) =~= Seq::<EventModel>::empty());
        while i < self.events.len()
            invariant
                wanted == meets_criteria(event_type, min_severity),
                all == models(self.events@),
                i <= self.events@.len(),
                models(found@) == all.subrange(0, i as int).filter(wanted),
            decreases self.events@.len() - i,
        {
            let event = &self.events[i];
            let kind_ok = match event_type {
                Some(kind) => event.event_type == kind,
                None => true,
            };
            let severity_ok = match min_severity {
                Some(least) => event.severity.at_least(least),
                None => true,
            };
            proof {
                assert(all.subrange(0, i + 1) =~= all.subrange(0, i as int).push(all[i as int]));
                all.subrange(0, i as int).lemma_filter_push(all[i as int], wanted);
            }
            if kind_ok && severity_ok {
                let ghost before = models(found@);
                found.push(event.clone());
                assert(models(found@) =~= before.push(event@));
            }
            i = i + 1;
        }
        assert(all.subrange(0, i as int) =~= all);
        found
    }
}

/// Prints an event as one line of text.
pub fn format_event(event: &SecurityEvent) -> (line: String)
    ensures
        line@ == formatted_event(event@),
{
    let mark = match event.severity {
        SecuritySeverity::Info => "ℹ️",
        SecuritySeverity::Low => "🟡",
        SecuritySeverity::Medium => "🟠",
        SecuritySeverity::High => "🔴",
        SecuritySeverity::Critical => "🚨",
    };
    let mut line = match utc_text(event.timestamp, "%Y-%m-%d %H:%M:%S UTC") {
        Some(text) => text,
        None => String::from_str("(time out of range)"),
    };
    line.append(" [");
    line.append(mark);
    line.append("] ");
    line.append(event.event_type.label());
    line.append(": ");
    line.append(event.message.as_str());
    line
}

/// The events of one level of severity.
pub open spec fn of_severity(severity: SecuritySeverity) -> spec_fn(EventModel) -> bool {
    |e: EventModel| e.severity == severity
}

/// The events of one kind.
pub open spec fn of_kind(event_type: SecurityEventType) -> spec_fn(EventModel) -> bool {
    |e: EventModel| e.event_type == event_type
}

/// The events that are no older than `cutoff`, in milliseconds.
pub open spec fn since(cutoff: int) -> spec_fn(EventModel) -> bool {
    |e: EventModel| e.timestamp >= cutoff
}

/// The threat score of a set of events: 25 for each critical event, 15 for
/// each of high severity, 20 for each security violation, 100 at most.
pub open spec fn threat_score_of(events: Seq<EventModel>) -> u32 {
    let raw = 25 * events.filter(of_severity(SecuritySeverity::Critical)).len() + 15
        * events.filter(of_severity(SecuritySeverity::High)).len() + 20 * events.filter(
        of_kind(SecurityEventType::SecurityViolation),
    ).len();
    if raw > 100 {
        100
    } else {
        raw as u32
    }
}

/// What a security report says.
pub struct ReportModel {
    pub generated_at: i64,
    pub period_hours: u32,
    pub total_events: nat,
    /// The number of events of each level of severity, by its rank.
    pub events_by_severity: Seq<nat>,
    /// The number of events of each kind, by its place.
    pub events_by_type: Seq<nat>,
    pub threat_score: u32,
    pub integrity_status: bool,
    pub recommendations: Seq<Seq<char>>,
}

impl ReportModel {
    /// A report on no event.
    pub open spec fn empty(generated_at: i64, period_hours: u32) -> ReportModel {
        ReportModel {
            generated_at,
            period_hours,
            total_events: 0,
            events_by_severity: Seq::new(5, |i: int| 0nat),
            events_by_type: Seq::new(10, |i: int| 0nat),
            threat_score: 0,
            integrity_status: true,
            recommendations: Seq::empty(),
        }
    }

    /// The counts have their lengths, and none exceeds the total.
    pub open spec fn wf(self) -> bool {
        &&& self.events_by_severity.len() == 5
        &&& self.events_by_type.len() == 10
        &&& forall|i: int| 0 <= i < 5 ==> #[trigger] self.events_by_severity[i] <= self.total_events
        &&& forall|i: int| 0 <= i < 10 ==> #[trigger] self.events_by_type[i] <= self.total_events
    }

    /// The report with one more event: it is counted, and a recommendation
    /// is made where it is of high severity or above.
    pub open spec fn with_event(self, event: EventModel) -> ReportModel {
        let rank = event.severity.rank_spec() as int;
        let place = event.event_type.index_spec() as int;
        ReportModel {
            total_events: self.total_events + 1,
            events_by_severity: self.events_by_severity.update(
                rank,
                self.events_by_severity[rank] + 1,
            ),
            events_by_type: self.events_by_type.update(place, self.events_by_type[place] + 1),
            recommendations: if event.severity.at_least_spec(SecuritySeverity::High) {
                self.recommendations.push("Investigate high-severity event: "@ + event.message)
            } else {
                self.recommendations
            },
            ..self
        }
    }

    /// The report with each of `events`, in turn.
    pub open spec fn with_events(self, events: Seq<EventModel>) -> ReportModel
        decreases events.len(),
    {
        if events.len() == 0 {
            self
        } else {
            self.with_events(events.drop_last()).with_event(events.last())
        }
    }
}

/// The report on the events of the last `hours` hours before `now`.
pub open spec fn report_of(events: Seq<EventModel>, now: i64, hours: u32) -> ReportModel {
    let recent = events.filter(since(now - hours * MILLIS_PER_HOUR));
    ReportModel {
        threat_score: threat_score_of(recent),
        integrity_status: true,
        ..ReportModel::empty(now, hours).with_events(recent)
    }
}

/// A report counts every event once under its severity and once under its
/// kind.
pub proof fn report_counts_events(base: ReportModel, events: Seq<EventModel>)
    requires
        base.wf(),
    ensures
        base.with_events(events).wf(),
        base.with_events(events).total_events == base.total_events + events.len(),
        forall|s: SecuritySeverity| #[trigger]
            base.with_events(events).events_by_severity[s.rank_spec() as int]
                == base.events_by_severity[s.rank_spec() as int] + events.filter(of_severity(s)).len(),
        forall|t: SecurityEventType| #[trigger]
            base.with_events(events).events_by_type[t.index_spec() as int]
                == base.events_by_type[t.index_spec() as int] + events.filter(of_kind(t)).len(),
    decreases events.len(),
{
    reveal(Seq::filter);
    if events.len() > 0 {
        report_counts_events(base, events.drop_last());
        let last = events.last();
        assert(events =~= events.drop_last().push(last));
        assert forall|s: SecuritySeverity| #[trigger]
            base.with_events(events).events_by_severity[s.rank_spec() as int]
                == base.events_by_severity[s.rank_spec() as int] + events.filter(
                of_severity(s),
            ).len() by {
            events.drop_last().lemma_filter_push(last, of_severity(s));
        }
        assert forall|t: SecurityEventType| #[trigger]
            base.with_events(events).events_by_type[t.index_spec() as int]
                == base.events_by_type[t.index_spec() as int] + events.filter(of_kind(t)).len() by {
            events.drop_last().lemma_filter_push(last, of_kind(t));
        }
    }
}

/// A summary of the events of a period.
#[derive(Debug)]
pub struct SecurityReport {
    /// Milliseconds since 1970-01-01 00:00:00 UTC.
    pub generated_at: i64,
    pub period_hours: u32,
    pub total_events: usize,
    /// The number of events of each level of severity, by its rank.
    pub events_by_severity: Vec<usize>,
    /// The number of events of each kind, by its place.
    pub events_by_type: Vec<usize>,
    pub threat_score: u32,
    pub integrity_status: bool,
    pub recommendations: Vec<String>,
}

impl View for SecurityReport {
    type V = ReportModel;

    open spec fn view(&self) -> ReportModel {
        ReportModel {
            generated_at: self.generated_at,
            period_hours: self.period_hours,
            total_events: self.total_events as nat,
            events_by_severity: self.events_by_severity@.map_values(|c: usize| c as nat),
            events_by_type: self.events_by_type@.map_values(|c: usize| c as nat),
            threat_score: self.threat_score,
            integrity_status: self.integrity_status,
            recommendations: self.recommendations@.map_values(|s: String| s@),
        }
    }
}

impl SecurityReport {
    /// A report on no event.
    pub fn new(generated_at: i64, period_hours: u32) -> (report: Self)
        ensures
            report@ == ReportModel::empty(generated_at, period_hours),
            report@.wf(),
    {
        let report = Self {
            generated_at,
            period_hours,
            total_events: 0,
            events_by_severity: vec![0usize; 5],
            events_by_type: vec![0usize; 10],
            threat_score: 0,
            integrity_status: true,
            recommendations: Vec::new(),
        };
        assert(report@.events_by_severity =~= Seq::new(5, |i: int| 0nat));
        assert(report@.events_by_type =~= Seq::new(10, |i: int| 0nat));
        assert(report@.recommendations =~= Seq::<Seq<char>>::empty());
        report
    }

    /// Counts one more event.
    pub fn add_event(&mut self, event: &SecurityEvent)
        requires
            old(self)@.wf(),
            old(self)@.total_events < usize::MAX,
        ensures
            final(self)@ == old(self)@.with_event(event@),
            final(self)@.wf(),
    {
        let ghost before = self@;
        self.total_events = self.total_events + 1;
        let rank = event.severity.rank();
        let place = event.event_type.index();
        assert(before.events_by_severity[rank as int] <= before.total_events);
        assert(before.events_by_type[place as int] <= before.total_events);
        let by_rank = self.events_by_severity[rank];
        self.events_by_severity.set(rank, by_rank + 1);
        let by_place = self.events_by_type[place];
        self.events_by_type.set(place, by_place + 1);
        if event.severity.at_least(SecuritySeverity::High) {
            let mut advice = String::from_str("Investigate high-severity event: ");
            advice.append(event.message.as_str());
            self.recommendations.push(advice);
        }
        proof {
            let after = before.with_event(event@);
            assert(self@.events_by_severity =~= after.events_by_severity);
            assert(self@.events_by_type =~= after.events_by_type);
            assert(self@.recommendations =~= after.recommendations);
        }
    }
}

impl ThreatDetector {
    /// The threat score of a set of events.
    pub fn calculate_threat_score(events: &Vec<SecurityEvent>) -> (score: u32)
        ensures
            score == threat_score_of(models(events@)),
    {
        let ghost all = models(events@);
        let ghost critical = of_severity(SecuritySeverity::Critical);
        let ghost high = of_severity(SecuritySeverity::High);
        let ghost violation = of_kind(SecurityEventType::SecurityViolation);
        let mut critical_count: usize = 0;
        let mut high_count: usize = 0;
        let mut violation_count: usize = 0;
        let mut i: usize = 0;
        proof {
            reveal(Seq::filter);
            assert(all.subrange(0, 0) =~= Seq::<EventModel>::empty());
        }
        while i < events.len()
            invariant
                all == models(events@),
                critical == of_severity(SecuritySeverity::Critical),
                high == of_severity(SecuritySeverity::High),
                violation == of_kind(SecurityEventType::SecurityViolation),
                i <= events@.len(),
                critical_count <= i,
                high_count <= i,
                violation_count <= i,
                critical_count == all.subrange(0, i as int).filter(critical).len(),
                high_count == all.subrange(0, i as int).filter(high).len(),
                violation_count == all.subrange(0, i as int).filter(violation).len(),
            decreases events@.len() - i,
        {
            proof {
                let prefix = all.subrange(0, i as int);
                assert(all.subrange(0, i + 1) =~= prefix.push(all[i as int]));
                prefix.lemma_filter_push(all[i as int], critical);
                prefix.lemma_filter_push(all[i as int], high);
                prefix.lemma_filter_push(all[i as int], violation);
            }
            if events[i].severity == SecuritySeverity::Critical {
                critical_count = critical_count + 1;
            }
            if events[i].severity == SecuritySeverity::High {
                high_count = high_count + 1;
            }
            if events[i].event_type == SecurityEventType::SecurityViolation {
                violation_count = violation_count + 1;
            }
            i = i + 1;
        }
        assert(all.subrange(0, i as int) =~= all);
        let raw: u128 = 25 * (critical_count as u128) + 15 * (high_count as u128) + 20 * (
        violation_count as u128);
        if raw > 100 {
            100
        } else {
            raw as u32
        }
    }
}

impl AuditLog {
    /// Reports on the events of the last `hours` hours.
    pub fn generate_security_report(&self, hours: u32) -> (report: SecurityReport)
        ensures
            exists|now: i64|
                is_clock_time(now) && report@ == #[trigger] report_of(self@.events, now, hours),
    {
        let now = utc_now_millis();
        self.generate_security_report_at(hours, now)
    }

    /// Reports at `now` on the events of the `hours` hours before.
    pub fn generate_security_report_at(&self, hours: u32, now: i64) -> (report: SecurityReport)
        ensures
            report@ == report_of(self@.events, now, hours),
    {
        let cutoff: i128 = (now as i128) - (hours as i128) * 3_600_000;
        let ghost wanted = since(cutoff as int);
        let ghost all = models(self.events@);
        let ghost base = ReportModel::empty(now, hours);
        let mut recent: Vec<SecurityEvent> = Vec::new();
        let mut report = SecurityReport::new(now, hours);
        let mut i: usize = 0;
        proof {
            reveal(Seq::filter);
            assert(all.subrange(0, 0) =~= Seq::<EventModel>::empty());
            assert(models(recent@) =~= Seq::<EventModel>::empty());
        }
        while i < self.events.len()
            invariant
                wanted == since(cutoff as int),
                all == models(self.events@),
                base == ReportModel::empty(now, hours),
                i <= self.events@.len(),
                recent@.len() <= i,
                models(recent@) == all.subrange(0, i as int).filter(wanted),
                report@ == base.with_events(models(recent@)),
                report@.wf(),
                report@.total_events == recent@.len(),
            decreases self.events@.len() - i,
        {
            let event = &self.events[i];
            proof {
                let prefix = all.subrange(0, i as int);
                assert(all.subrange(0, i + 1) =~= prefix.push(all[i as int]));
                prefix.lemma_filter_push(all[i as int], wanted);
            }
            if (event.timestamp as i128) >= cutoff {
                let ghost before = models(recent@);
                recent.push(event.clone());
                assert(models(recent@) =~= before.push(event@));
                assert(models(recent@).drop_last() =~= before);
                report.add_event(event);
            }
            i = i + 1;
        }
        assert(all.subrange(0, i as int) =~= all);
        report.threat_score = ThreatDetector::calculate_threat_score(&recent);
        report.integrity_status = self.log_integrity.verify_integrity();
        report
    }
}

} // verus!
