//! Security events: what the audit trail records.

use crate::clock::{is_clock_time, utc_now_millis};
use crate::text::str_eq;
use vstd::prelude::*;
use vstd::string::StringExecFns;

verus! {

/// The kinds of security event.
#[derive(Debug, Clone, Copy, PartialEq, Eq, Structural, Hash)]
pub enum SecurityEventType {
    Authentication,
    Authorization,
    DataAccess,
    DataModification,
    SystemAccess,
    ConfigurationChange,
    SecurityViolation,
    SuspiciousActivity,
    VaultOperation,
    CryptoOperation,
}

/// How severe an event is, in rising order.
#[derive(Debug, Clone, Copy, PartialEq, Eq, Structural, PartialOrd, Ord, Hash)]
pub enum SecuritySeverity {
    Info,
    Low,
    Medium,
    High,
    Critical,
}

/// Number of kinds of event.
pub const EVENT_TYPE_COUNT: usize = 10;

/// Number of levels of severity.
pub const SEVERITY_COUNT: usize = 5;

impl SecurityEventType {
    /// The place of a kind in the list of kinds, from 0.
    pub open spec fn index_spec(self) -> nat {
        match self {
            SecurityEventType::Authentication => 0,
            SecurityEventType::Authorization => 1,
            SecurityEventType::DataAccess => 2,
            SecurityEventType::DataModification => 3,
            SecurityEventType::SystemAccess => 4,
            SecurityEventType::ConfigurationChange => 5,
            SecurityEventType::SecurityViolation => 6,
            SecurityEventType::SuspiciousActivity => 7,
            SecurityEventType::VaultOperation => 8,
            SecurityEventType::CryptoOperation => 9,
        }
    }

    /// The name of a kind.
    pub open spec fn label_spec(self) -> Seq<char> {
        match self {
            SecurityEventType::Authentication => "Authentication"@,
            SecurityEventType::Authorization => "Authorization"@,
            SecurityEventType::DataAccess => "DataAccess"@,
            SecurityEventType::DataModification => "DataModification"@,
            SecurityEventType::SystemAccess => "SystemAccess"@,
            SecurityEventType::ConfigurationChange => "ConfigurationChange"@,
            SecurityEventType::SecurityViolation => "SecurityViolation"@,
            SecurityEventType::SuspiciousActivity => "SuspiciousActivity"@,
            SecurityEventType::VaultOperation => "VaultOperation"@,
            SecurityEventType::CryptoOperation => "CryptoOperation"@,
        }
    }

    /// The place of a kind in the list of kinds, from 0.
    pub fn index(self) -> (i: usize)
        ensures
            i == self.index_spec(),
            i < EVENT_TYPE_COUNT,
    {
        match self {
            SecurityEventType::Authentication => 0,
            SecurityEventType::Authorization => 1,
            SecurityEventType::DataAccess => 2,
            SecurityEventType::DataModification => 3,
            SecurityEventType::SystemAccess => 4,
            SecurityEventType::ConfigurationChange => 5,
            SecurityEventType::SecurityViolation => 6,
            SecurityEventType::SuspiciousActivity => 7,
            SecurityEventType::VaultOperation => 8,
            SecurityEventType::CryptoOperation => 9,
        }
    }

    /// The name of a kind.
    pub fn label(self) -> (name: &'static str)
        ensures
            name@ == self.label_spec(),
    {
        match self {
            SecurityEventType::Authentication => "Authentication",
            SecurityEventType::Authorization => "Authorization",
            SecurityEventType::DataAccess => "DataAccess",
            SecurityEventType::DataModification => "DataModification",
            SecurityEventType::SystemAccess => "SystemAccess",
            SecurityEventType::ConfigurationChange => "ConfigurationChange",
            SecurityEventType::SecurityViolation => "SecurityViolation",
            SecurityEventType::SuspiciousActivity => "SuspiciousActivity",
            SecurityEventType::VaultOperation => "VaultOperation",
            SecurityEventType::CryptoOperation => "CryptoOperation",
        }
    }
}

impl SecuritySeverity {
    /// The rank of a level: 0 for `Info`, up to 4 for `Critical`.
    pub open spec fn rank_spec(self) -> nat {
        match self {
            SecuritySeverity::Info => 0,
            SecuritySeverity::Low => 1,
            SecuritySeverity::Medium => 2,
            SecuritySeverity::High => 3,
            SecuritySeverity::Critical => 4,
        }
    }

    /// A level is at least as severe as another.
    pub open spec fn at_least_spec(self, other: SecuritySeverity) -> bool {
        self.rank_spec() >= other.rank_spec()
    }

    /// The name of a level.
    pub open spec fn label_spec(self) -> Seq<char> {
        match self {
            SecuritySeverity::Info => "Info"@,
            SecuritySeverity::Low => "Low"@,
            SecuritySeverity::Medium => "Medium"@,
            SecuritySeverity::High => "High"@,
            SecuritySeverity::Critical => "Critical"@,
        }
    }

    /// The rank of a level: 0 for `Info`, up to 4 for `Critical`.
    pub fn rank(self) -> (r: usize)
        ensures
            r == self.rank_spec(),
            r < SEVERITY_COUNT,
    {
        match self {
            SecuritySeverity::Info => 0,
            SecuritySeverity::Low => 1,
            SecuritySeverity::Medium => 2,
            SecuritySeverity::High => 3,
            SecuritySeverity::Critical => 4,
        }
    }

    /// Tells whether a level is at least as severe as another.
    #[verifier::when_used_as_spec(at_least_spec)]
    pub fn at_least(self, other: SecuritySeverity) -> (yes: bool)
        ensures
            yes == self.at_least_spec(other),
    {
        self.rank() >= other.rank()
    }

    /// The name of a level.
    pub fn label(self) -> (name: &'static str)
        ensures
            name@ == self.label_spec(),
    {
        match self {
            SecuritySeverity::Info => "Info",
            SecuritySeverity::Low => "Low",
            SecuritySeverity::Medium => "Medium",
            SecuritySeverity::High => "High",
            SecuritySeverity::Critical => "Critical",
        }
    }
}

/// The levels of severity are totally ordered by their rank, and two levels
/// of the same rank are the same level.
pub proof fn severity_is_totally_ordered(a: SecuritySeverity, b: SecuritySeverity, c: SecuritySeverity)
    ensures
        a.at_least_spec(a),
        a.at_least_spec(b) || b.at_least_spec(a),
        a.at_least_spec(b) && b.at_least_spec(a) ==> a == b,
        a.at_least_spec(b) && b.at_least_spec(c) ==> a.at_least_spec(c),
        SecuritySeverity::Critical.at_least_spec(SecuritySeverity::High),
        SecuritySeverity::High.at_least_spec(SecuritySeverity::Medium),
        SecuritySeverity::Medium.at_least_spec(SecuritySeverity::Low),
        SecuritySeverity::Low.at_least_spec(SecuritySeverity::Info),
        !SecuritySeverity::Info.at_least_spec(SecuritySeverity::Low),
{
}

/// A list of key and value pairs read as a mapping. Where a key occurs
/// twice, which the lists that are built here never let happen, the later
/// pair counts.
pub open spec fn pairs_as_map(pairs: Seq<(String, String)>) -> Map<Seq<char>, Seq<char>>
    decreases pairs.len(),
{
    if pairs.len() == 0 {
        Map::empty()
    } else {
        pairs_as_map(pairs.drop_last()).insert(pairs.last().0@, pairs.last().1@)
    }
}

/// No key occurs twice in a list of key and value pairs.
pub open spec fn distinct_keys(pairs: Seq<(String, String)>) -> bool {
    forall|i: int, j: int|
        0 <= i < j < pairs.len() ==> (#[trigger] pairs[i]).0@ != (#[trigger] pairs[j]).0@
}

/// Replacing the last pair of a key sets the key in the mapping.
pub proof fn map_of_replaced_pair(pairs: Seq<(String, String)>, at: int, pair: (String, String))
    requires
        0 <= at < pairs.len(),
        pairs[at].0@ == pair.0@,
        forall|j: int| at < j < pairs.len() ==> (#[trigger] pairs[j]).0@ != pair.0@,
    ensures
        pairs_as_map(pairs.update(at, pair)) == pairs_as_map(pairs).insert(pair.0@, pair.1@),
    decreases pairs.len(),
{
    let replaced = pairs.update(at, pair);
    if at == pairs.len() - 1 {
        assert(replaced.drop_last() =~= pairs.drop_last());
        assert(pairs_as_map(replaced) =~= pairs_as_map(pairs).insert(pair.0@, pair.1@));
    } else {
        let last = pairs.last();
        assert(last.0@ != pair.0@);
        assert(replaced.drop_last() =~= pairs.drop_last().update(at, pair));
        assert(replaced.last() == last);
        map_of_replaced_pair(pairs.drop_last(), at, pair);
        assert(pairs_as_map(replaced) =~= pairs_as_map(pairs).insert(pair.0@, pair.1@));
    }
}

/// Sets a key to a value in a list of key and value pairs: the last pair of
/// the key is replaced, or a pair is added where the key has none.
pub fn set_pair(pairs: &mut Vec<(String, String)>, key: String, value: String)
    ensures
        pairs_as_map(final(pairs)@) == pairs_as_map(old(pairs)@).insert(key@, value@),
        distinct_keys(old(pairs)@) ==> distinct_keys(final(pairs)@),
{
    let mut i: usize = pairs.len();
    while i > 0
        invariant
            i <= pairs@.len(),
            pairs@ == old(pairs)@,
            forall|j: int| i <= j < pairs@.len() ==> (#[trigger] pairs@[j]).0@ != key@,
        decreases i,
    {
        i = i - 1;
        if str_eq(pairs[i].0.as_str(), key.as_str()) {
            proof {
                map_of_replaced_pair(pairs@, i as int, (key, value));
            }
            pairs.set(i, (key, value));
            assert forall|a: int, b: int| 0 <= a < b < pairs@.len() implies (#[trigger] pairs@[a]).0@
                != (#[trigger] pairs@[b]).0@ || !distinct_keys(old(pairs)@) by {
                if distinct_keys(old(pairs)@) {
                    assert(old(pairs)@[a].0@ != old(pairs)@[b].0@);
                }
            }
            return ;
        }
    }
    pairs.push((key, value));
    assert(pairs@.drop_last() =~= old(pairs)@);
    assert forall|a: int, b: int| 0 <= a < b < pairs@.len() implies (#[trigger] pairs@[a]).0@
        != (#[trigger] pairs@[b]).0@ || !distinct_keys(old(pairs)@) by {
        if distinct_keys(old(pairs)@) && b < pairs@.len() - 1 {
            assert(old(pairs)@[a].0@ != old(pairs)@[b].0@);
        }
    }
}

/// The text of an optional string.
pub open spec fn text_of(value: Option<String>) -> Option<Seq<char>> {
    match value {
        Some(text) => Some(text@),
        None => None,
    }
}

/// The text of an optional string slice.
pub open spec fn slice_text(value: Option<&str>) -> Option<Seq<char>> {
    match value {
        Some(text) => Some(text@),
        None => None,
    }
}

/// What an event says.
pub struct EventModel {
    /// Milliseconds since 1970-01-01 00:00:00 UTC.
    pub timestamp: i64,
    pub event_type: SecurityEventType,
    pub severity: SecuritySeverity,
    pub message: Seq<char>,
    pub source: Seq<char>,
    pub user_context: Option<Seq<char>>,
    pub ip_address: Option<Seq<char>>,
    pub additional_data: Map<Seq<char>, Seq<char>>,
    pub session_id: Option<Seq<char>>,
}

impl EventModel {
    /// An event with no context, address, data or session.
    pub open spec fn bare(
        timestamp: i64,
        event_type: SecurityEventType,
        severity: SecuritySeverity,
        message: Seq<char>,
        source: Seq<char>,
    ) -> EventModel {
        EventModel {
            timestamp,
            event_type,
            severity,
            message,
            source,
            user_context: None,
            ip_address: None,
            additional_data: Map::empty(),
            session_id: None,
        }
    }

    /// The event with the user it concerns.
    pub open spec fn with_context(self, user: Seq<char>) -> EventModel {
        EventModel { user_context: Some(user), ..self }
    }

    /// The event with the session it belongs to.
    pub open spec fn with_session(self, session_id: Seq<char>) -> EventModel {
        EventModel { session_id: Some(session_id), ..self }
    }

    /// The event with one more piece of data; a value already held under
    /// the key is replaced.
    pub open spec fn with_data(self, key: Seq<char>, value: Seq<char>) -> EventModel {
        EventModel { additional_data: self.additional_data.insert(key, value), ..self }
    }
}

/// One record of the audit trail.
#[derive(Debug)]
pub struct SecurityEvent {
    /// Milliseconds since 1970-01-01 00:00:00 UTC.
    pub timestamp: i64,
    pub event_type: SecurityEventType,
    pub severity: SecuritySeverity,
    pub message: String,
    pub source: String,
    pub user_context: Option<String>,
    pub ip_address: Option<String>,
    /// Keys and values, each key once.
    pub additional_data: Vec<(String, String)>,
    pub session_id: Option<String>,
}

impl View for SecurityEvent {
    type V = EventModel;

    open spec fn view(&self) -> EventModel {
        EventModel {
            timestamp: self.timestamp,
            event_type: self.event_type,
            severity: self.severity,
            message: self.message@,
            source: self.source@,
            user_context: text_of(self.user_context),
            ip_address: text_of(self.ip_address),
            additional_data: pairs_as_map(self.additional_data@),
            session_id: text_of(self.session_id),
        }
    }
}

/// What each of a list of events says.
pub open spec fn models(events: Seq<SecurityEvent>) -> Seq<EventModel> {
    events.map_values(|e: SecurityEvent| e@)
}

/// Copies an optional string.
pub fn copy_text(value: &Option<String>) -> (copy: Option<String>)
    ensures
        copy == *value,
{
    match value {
        Some(text) => Some(text.clone()),
        None => None,
    }
}

/// Copies a list of pairs.
pub fn copy_pairs(pairs: &Vec<(String, String)>) -> (copy: Vec<(String, String)>)
    ensures
        copy@ == pairs@,
{
    let mut copy: Vec<(String, String)> = Vec::new();
    let mut i: usize = 0;
    while i < pairs.len()
        invariant
            i <= pairs@.len(),
            copy@ == pairs@.subrange(0, i as int),
        decreases pairs@.len() - i,
    {
        let key = pairs[i].0.clone();
        let value = pairs[i].1.clone();
        copy.push((key, value));
        assert(copy@ =~= pairs@.subrange(0, i + 1));
        i = i + 1;
    }
    assert(pairs@.subrange(0, i as int) =~= pairs@);
    copy
}

impl Clone for SecurityEvent {
    fn clone(&self) -> (copy: Self)
        ensures
            copy@ == self@,
    {
        let copy = SecurityEvent {
            timestamp: self.timestamp,
            event_type: self.event_type,
            severity: self.severity,
            message: self.message.clone(),
            source: self.source.clone(),
            user_context: copy_text(&self.user_context),
            ip_address: copy_text(&self.ip_address),
            additional_data: copy_pairs(&self.additional_data),
            session_id: copy_text(&self.session_id),
        };
        assert(copy.additional_data@ =~= self.additional_data@);
        copy
    }
}

impl SecurityEvent {
    /// An event that happens now.
    pub fn new(event_type: SecurityEventType, severity: SecuritySeverity, message: &str, source: &str) -> (event:
        Self)
        ensures
            is_clock_time(event.timestamp),
            event@ == EventModel::bare(event.timestamp, event_type, severity, message@, source@),
    {
        Self::new_at(utc_now_millis(), event_type, severity, message, source)
    }

    /// An event that happened at `timestamp`.
    pub fn new_at(
        timestamp: i64,
        event_type: SecurityEventType,
        severity: SecuritySeverity,
        message: &str,
        source: &str,
    ) -> (event: Self)
        ensures
            event@ == EventModel::bare(timestamp, event_type, severity, message@, source@),
    {
        Self {
            timestamp,
            event_type,
            severity,
            message: String::from_str(message),
            source: String::from_str(source),
            user_context: None,
            ip_address: None,
            additional_data: Vec::new(),
            session_id: None,
        }
    }

    /// Names the user that the event concerns.
    pub fn with_context(self, user: &str) -> (event: Self)
        ensures
            event@ == self@.with_context(user@),
    {
        let mut event = self;
        event.user_context = Some(String::from_str(user));
        event
    }

    /// Names the session that the event belongs to.
    pub fn with_session(self, session_id: &str) -> (event: Self)
        ensures
            event@ == self@.with_session(session_id@),
    {
        let mut event = self;
        event.session_id = Some(String::from_str(session_id));
        event
    }

    /// Adds a piece of data under a key, in place of what the key held.
    pub fn with_data(self, key: &str, value: &str) -> (event: Self)
        ensures
            event@ == self@.with_data(key@, value@),
    {
        let mut event = self;
        set_pair(&mut event.additional_data, String::from_str(key), String::from_str(value));
        event
    }
}

} // verus!
