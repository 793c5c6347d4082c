//! Vault entries: a credential with its metadata, the assessment of its
//! password, and its history.

use crate::clock::{days_between, is_clock_time, utc_now_millis, whole_days_between, MILLIS_PER_DAY};
use crate::crypto::{generate_salt, CryptoError};
use crate::security::audit::keep_last;
use crate::security::event::{pairs_as_map, set_pair, text_of};
use crate::text::{
    byte_len, byte_length, char_classes, classes_of, has_repeated, has_repeated_chars,
    has_sequential, has_sequential_chars, hash_text, hex_min_text, lowercase_text, str_eq,
    text_digest, texts, to_hex_min, trimmed_text, CharClasses,
};
use vstd::arithmetic::power::{
    lemma0_pow, lemma1_pow, lemma_pow_increases, lemma_pow_positive, pow,
};
use vstd::prelude::*;
use vstd::string::StringExecFns;

verus! {

/// The most password changes that an entry remembers.
pub const MAX_PASSWORD_HISTORY: usize = 10;

/// 2^60: an alphabet and a length reach 60 bits of entropy where the number
/// of texts of that length over that alphabet reaches this.
pub const ENTROPY_60_BITS: u64 = 1_152_921_504_606_846_976;

/// 2^40.
pub const ENTROPY_40_BITS: u64 = 1_099_511_627_776;

/// What a category says.
pub enum CategoryModel {
    Personal,
    Work,
    Finance,
    Social,
    Gaming,
    Shopping,
    Education,
    Healthcare,
    Government,
    Development,
    Other(Seq<char>),
}

/// The category of an entry.
#[derive(Debug, Clone, PartialEq, Eq)]
pub enum EntryCategory {
    Personal,
    Work,
    Finance,
    Social,
    Gaming,
    Shopping,
    Education,
    Healthcare,
    Government,
    Development,
    Other(String),
}

impl View for EntryCategory {
    type V = CategoryModel;

    open spec fn view(&self) -> CategoryModel {
        match self {
            EntryCategory::Personal => CategoryModel::Personal,
            EntryCategory::Work => CategoryModel::Work,
            EntryCategory::Finance => CategoryModel::Finance,
            EntryCategory::Social => CategoryModel::Social,
            EntryCategory::Gaming => CategoryModel::Gaming,
            EntryCategory::Shopping => CategoryModel::Shopping,
            EntryCategory::Education => CategoryModel::Education,
            EntryCategory::Healthcare => CategoryModel::Healthcare,
            EntryCategory::Government => CategoryModel::Government,
            EntryCategory::Development => CategoryModel::Development,
            EntryCategory::Other(label) => CategoryModel::Other(label@),
        }
    }
}

impl Default for EntryCategory {
    fn default() -> (category: Self)
        ensures
            category == EntryCategory::Personal,
    {
        EntryCategory::Personal
    }
}

impl EntryCategory {
    /// A copy of the category.
    pub fn duplicate(&self) -> (copy: Self)
        ensures
            copy@ == self@,
    {
        match self {
            EntryCategory::Personal => EntryCategory::Personal,
            EntryCategory::Work => EntryCategory::Work,
            EntryCategory::Finance => EntryCategory::Finance,
            EntryCategory::Social => EntryCategory::Social,
            EntryCategory::Gaming => EntryCategory::Gaming,
            EntryCategory::Shopping => EntryCategory::Shopping,
            EntryCategory::Education => EntryCategory::Education,
            EntryCategory::Healthcare => EntryCategory::Healthcare,
            EntryCategory::Government => EntryCategory::Government,
            EntryCategory::Development => EntryCategory::Development,
            EntryCategory::Other(label) => EntryCategory::Other(label.clone()),
        }
    }
}

/// The category of an entry for which none is given.
pub fn default_category() -> (category: EntryCategory)
    ensures
        category == EntryCategory::Personal,
{
    EntryCategory::Personal
}

/// How much an entry is at risk.
#[derive(Debug, Clone, Copy, PartialEq, Eq, Structural)]
pub enum RiskLevel {
    Unknown,
    Low,
    Medium,
    High,
    Critical,
}

impl Default for RiskLevel {
    fn default() -> (level: Self)
        ensures
            level == RiskLevel::Unknown,
    {
        RiskLevel::Unknown
    }
}

/// Where a password stands with regard to its expiration.
#[derive(Debug, Clone, Copy, PartialEq, Eq, Structural)]
pub enum ExpirationStatus {
    Valid,
    /// Days until the expiration.
    Warning(u32),
    Expired,
    NoExpiration,
}

/// Settings of one entry.
#[derive(Debug, Clone, Copy, PartialEq, Eq, Structural)]
pub struct EntrySettings {
    pub auto_fill_enabled: bool,
    pub require_master_password: bool,
    /// Seconds before the clipboard is cleared.
    pub clipboard_timeout: Option<u32>,
    pub hide_password_by_default: bool,
    pub enable_breach_monitoring: bool,
    pub password_change_reminders: bool,
    pub access_logging_enabled: bool,
}

impl EntrySettings {
    /// The settings with everything switched off.
    pub open spec fn off() -> EntrySettings {
        EntrySettings {
            auto_fill_enabled: false,
            require_master_password: false,
            clipboard_timeout: None,
            hide_password_by_default: false,
            enable_breach_monitoring: false,
            password_change_reminders: false,
            access_logging_enabled: false,
        }
    }
}

impl Default for EntrySettings {
    fn default() -> (settings: Self)
        ensures
            settings == EntrySettings::off(),
    {
        EntrySettings {
            auto_fill_enabled: false,
            require_master_password: false,
            clipboard_timeout: None,
            hide_password_by_default: false,
            enable_breach_monitoring: false,
            password_change_reminders: false,
            access_logging_enabled: false,
        }
    }
}

/// What an assessment of a password says.
pub struct StrengthModel {
    pub score: u32,
    pub level: Seq<char>,
    pub charset_size: u32,
    pub has_lowercase: bool,
    pub has_uppercase: bool,
    pub has_numbers: bool,
    pub has_symbols: bool,
    pub length: nat,
    pub is_common: bool,
    pub is_compromised: bool,
    pub feedback: Seq<Seq<char>>,
    pub last_checked: i64,
}

/// The assessment of a password.
#[derive(Debug, Clone)]
pub struct PasswordStrengthInfo {
    /// From 0 to 100.
    pub score: u32,
    /// `Weak`, `Fair`, `Good` or `Strong`.
    pub level: String,
    /// The size of the alphabet that the password draws on; its entropy in
    /// bits is its length times the binary logarithm of this.
    pub charset_size: u32,
    pub has_lowercase: bool,
    pub has_uppercase: bool,
    pub has_numbers: bool,
    pub has_symbols: bool,
    /// In bytes.
    pub length: usize,
    /// Found in the list of common passwords.
    pub is_common: bool,
    /// Found in a breach.
    pub is_compromised: bool,
    /// What would make the password stronger.
    pub feedback: Vec<String>,
    /// Milliseconds since 1970-01-01 00:00:00 UTC.
    pub last_checked: i64,
}

impl View for PasswordStrengthInfo {
    type V = StrengthModel;

    open spec fn view(&self) -> StrengthModel {
        StrengthModel {
            score: self.score,
            level: self.level@,
            charset_size: self.charset_size,
            has_lowercase: self.has_lowercase,
            has_uppercase: self.has_uppercase,
            has_numbers: self.has_numbers,
            has_symbols: self.has_symbols,
            length: self.length as nat,
            is_common: self.is_common,
            is_compromised: self.is_compromised,
            feedback: texts(self.feedback@),
            last_checked: self.last_checked,
        }
    }
}

impl StrengthModel {
    /// The assessment that stands before any password is assessed.
    pub open spec fn blank() -> StrengthModel {
        StrengthModel {
            score: 0,
            level: Seq::empty(),
            charset_size: 0,
            has_lowercase: false,
            has_uppercase: false,
            has_numbers: false,
            has_symbols: false,
            length: 0,
            is_common: false,
            is_compromised: false,
            feedback: Seq::empty(),
            last_checked: 0,
        }
    }

    /// The classes of character that the assessment found.
    pub open spec fn classes(self) -> CharClasses {
        CharClasses {
            lowercase: self.has_lowercase,
            uppercase: self.has_uppercase,
            digits: self.has_numbers,
            symbols: self.has_symbols,
        }
    }
}

impl Default for PasswordStrengthInfo {
    fn default() -> (info: Self)
        ensures
            info@ == StrengthModel::blank(),
    {
        let info = PasswordStrengthInfo {
            score: 0,
            level: String::new(),
            charset_size: 0,
            has_lowercase: false,
            has_uppercase: false,
            has_numbers: false,
            has_symbols: false,
            length: 0,
            is_common: false,
            is_compromised: false,
            feedback: Vec::new(),
            last_checked: 0,
        };
        assert(texts(info.feedback@) =~= Seq::<Seq<char>>::empty());
        info
    }
}

/// What an expiration policy says.
pub struct ExpirationModel {
    pub expires_at: i64,
    pub warning_days: u32,
    pub auto_remind: bool,
    pub policy_source: Seq<char>,
}

/// When a password expires.
#[derive(Debug, Clone)]
pub struct PasswordExpiration {
    /// Milliseconds since 1970-01-01 00:00:00 UTC.
    pub expires_at: i64,
    /// Days before the expiration from which to warn.
    pub warning_days: u32,
    pub auto_remind: bool,
    pub policy_source: String,
}

impl View for PasswordExpiration {
    type V = ExpirationModel;

    open spec fn view(&self) -> ExpirationModel {
        ExpirationModel {
            expires_at: self.expires_at,
            warning_days: self.warning_days,
            auto_remind: self.auto_remind,
            policy_source: self.policy_source@,
        }
    }
}

/// What a record of a password change says.
pub struct HistoryModel {
    pub password_hash: Seq<char>,
    pub changed_at: i64,
    pub changed_reason: Seq<char>,
    pub strength_score: u32,
}

/// A record of a password change: the digest of the password that was
/// replaced.
#[derive(Debug, Clone)]
pub struct PasswordHistoryEntry {
    pub password_hash: String,
    /// Milliseconds since 1970-01-01 00:00:00 UTC.
    pub changed_at: i64,
    pub changed_reason: String,
    pub strength_score: u32,
}

impl View for PasswordHistoryEntry {
    type V = HistoryModel;

    open spec fn view(&self) -> HistoryModel {
        HistoryModel {
            password_hash: self.password_hash@,
            changed_at: self.changed_at,
            changed_reason: self.changed_reason@,
            strength_score: self.strength_score,
        }
    }
}

/// What each of a list of records says.
pub open spec fn history_models(history: Seq<PasswordHistoryEntry>) -> Seq<HistoryModel> {
    history.map_values(|h: PasswordHistoryEntry| h@)
}

/// A sign of a threat to an entry.
#[derive(Debug, Clone)]
pub struct ThreatIndicator {
    pub indicator_type: String,
    pub severity: String,
    pub description: String,
    /// Milliseconds since 1970-01-01 00:00:00 UTC.
    pub detected_at: i64,
    pub source: String,
}

/// What is known of breaches that concern an entry.
#[derive(Debug, Clone)]
pub struct BreachCheckStatus {
    pub last_checked: Option<i64>,
    pub is_compromised: bool,
    pub breach_count: u32,
    pub most_recent_breach: Option<i64>,
    pub breach_sources: Vec<String>,
}

/// The security metadata of an entry.
#[derive(Debug, Clone)]
pub struct SecurityInfo {
    pub risk_level: RiskLevel,
    pub threat_indicators: Vec<ThreatIndicator>,
    pub last_security_check: Option<i64>,
    pub breach_check_status: BreachCheckStatus,
    pub two_factor_enabled: Option<bool>,
    pub security_questions: u32,
    pub account_recovery_methods: Vec<String>,
    pub suspicious_activity_detected: bool,
    pub last_known_good_access: Option<i64>,
}

impl SecurityInfo {
    /// The metadata with another risk level.
    pub open spec fn with_risk(self, level: RiskLevel) -> SecurityInfo {
        SecurityInfo { risk_level: level, ..self }
    }

    /// The metadata with the mark of a breach taken off.
    pub open spec fn cleared(self) -> SecurityInfo {
        SecurityInfo {
            breach_check_status: BreachCheckStatus {
                is_compromised: false,
                ..self.breach_check_status
            },
            ..self
        }
    }

    /// Nothing is known yet.
    pub open spec fn is_blank(self) -> bool {
        &&& self.risk_level == RiskLevel::Unknown
        &&& self.threat_indicators@.len() == 0
        &&& self.last_security_check is None
        &&& self.breach_check_status.last_checked is None
        &&& !self.breach_check_status.is_compromised
        &&& self.breach_check_status.breach_count == 0
        &&& self.breach_check_status.most_recent_breach is None
        &&& self.breach_check_status.breach_sources@.len() == 0
        &&& self.two_factor_enabled is None
        &&& self.security_questions == 0
        &&& self.account_recovery_methods@.len() == 0
        &&& !self.suspicious_activity_detected
        &&& self.last_known_good_access is None
    }
}

impl Default for BreachCheckStatus {
    fn default() -> (status: Self)
        ensures
            status.last_checked is None,
            !status.is_compromised,
            status.breach_count == 0,
            status.most_recent_breach is None,
            status.breach_sources@.len() == 0,
    {
        BreachCheckStatus {
            last_checked: None,
            is_compromised: false,
            breach_count: 0,
            most_recent_breach: None,
            breach_sources: Vec::new(),
        }
    }
}

impl Default for SecurityInfo {
    fn default() -> (info: Self)
        ensures
            info.is_blank(),
    {
        SecurityInfo {
            risk_level: RiskLevel::Unknown,
            threat_indicators: Vec::new(),
            last_security_check: None,
            breach_check_status: BreachCheckStatus::default(),
            two_factor_enabled: None,
            security_questions: 0,
            account_recovery_methods: Vec::new(),
            suspicious_activity_detected: false,
            last_known_good_access: None,
        }
    }
}

/// The identifier that 16 random bytes give: a version 4 UUID in the
/// hyphenated form.
pub uninterp spec fn uuid_text(bytes: Seq<u8>) -> Seq<char>;

/// Builds a version 4 UUID of 16 random bytes with
/// `uuid::Builder::from_random_bytes`, which sets the bits of version and
/// variant, and prints it in the hyphenated form, which has 36 characters.
/// The contract names the result.
#[verifier::external_body]
fn uuid_of_bytes(bytes: &[u8]) -> (id: String)
    requires
        bytes@.len() == 16,
    ensures
        id@ == uuid_text(bytes@),
        id@.len() == 36,
{
    let mut raw = [0u8; 16];
    raw.copy_from_slice(bytes);
    uuid::Builder::from_random_bytes(raw).into_uuid().to_string()
}

/// `id` is an identifier as they are drawn: the UUID of some 16 bytes.
pub open spec fn is_entry_id(id: Seq<char>) -> bool {
    exists|bytes: Seq<u8>| bytes.len() == 16 && id == #[trigger] uuid_text(bytes)
}

/// A fresh identifier for an entry: the UUID of 16 bytes from the
/// operating system's random source.
pub fn generate_entry_id() -> (r: Result<String, CryptoError>)
    ensures
        match r {
            Ok(id) => id@.len() == 36 && is_entry_id(id@),
            Err(e) => e is RandomSource,
        },
{
    let bytes = generate_salt(16)?;
    let id = uuid_of_bytes(bytes.as_slice());
    assert(id@ == uuid_text(bytes@));
    Ok(id)
}

/// The time now, in milliseconds since 1970-01-01 00:00:00 UTC.
pub fn current_timestamp() -> (now: i64)
    ensures
        is_clock_time(now),
{
    utc_now_millis()
}

/// The text that stands for a password in the history: its digest in
/// hexadecimal.
pub open spec fn password_hash_text(password: Seq<char>) -> Seq<char> {
    hex_min_text(text_digest(password) as nat)
}

/// The text that stands for a password in the history.
pub fn hash_password(password: &str) -> (hash: String)
    ensures
        hash@ == password_hash_text(password@),
{
    to_hex_min(hash_text(password))
}

/// The passwords that count as common.
pub open spec fn common_passwords() -> Seq<Seq<char>> {
    seq![
        "password"@,
        "123456"@,
        "password123"@,
        "admin"@,
        "qwerty"@,
        "letmein"@,
        "welcome"@,
        "monkey"@,
        "dragon"@,
        "master"@,
        "password1"@,
        "123456789"@,
        "1234567890"@,
    ]
}

/// A password is common where, in lower case, it is in the list of common
/// passwords.
pub open spec fn is_common(password: Seq<char>) -> bool {
    common_passwords().contains(lowercase_text(password))
}

/// Tells whether a password is in the list of common passwords, whatever
/// its case.
pub fn is_common_password(password: &str) -> (common: bool)
    ensures
        common == is_common(password@),
{
    let lower = password.to_lowercase();
    let text = lower.as_str();
    let ghost list = common_passwords();
    let found = str_eq(text, "password") || str_eq(text, "123456") || str_eq(text, "password123")
        || str_eq(text, "admin") || str_eq(text, "qwerty") || str_eq(text, "letmein") || str_eq(
        text,
        "welcome",
    ) || str_eq(text, "monkey") || str_eq(text, "dragon") || str_eq(text, "master") || str_eq(
        text,
        "password1",
    ) || str_eq(text, "123456789") || str_eq(text, "1234567890");
    proof {
        if found {
            let k = choose|k: int| 0 <= k < 13 && list[k] == text@;
            assert(list.contains(text@));
        }
        if list.contains(text@) {
            let k = choose|k: int| 0 <= k < list.len() && list[k] == text@;
            assert(found);
        }
    }
    found
}

/// The number of texts of a length over an alphabet reaches a threshold.
pub open spec fn entropy_reaches(length: nat, charset_size: nat, threshold: nat) -> bool {
    pow(charset_size as int, length) >= threshold
}

/// Tells whether the number of texts of length `length` over an alphabet of
/// `charset_size` characters reaches `threshold`: for a threshold of 2^n,
/// whether the entropy reaches n bits.
pub fn entropy_at_least(length: usize, charset_size: u32, threshold: u64) -> (reached: bool)
    ensures
        reached == entropy_reaches(length as nat, charset_size as nat, threshold as nat),
{
    proof {
        reveal(pow);
    }
    if charset_size == 0 {
        proof {
            if length > 0 {
                lemma0_pow(length as nat);
            }
        }
        return if length == 0 {
            threshold <= 1
        } else {
            threshold == 0
        };
    }
    if charset_size == 1 {
        proof {
            lemma1_pow(length as nat);
        }
        return threshold <= 1;
    }
    if threshold <= 1 {
        proof {
            lemma_pow_positive(charset_size as int, length as nat);
        }
        return true;
    }
    let mut reach: u128 = 1;
    let mut i: usize = 0;
    proof {
        reveal(pow);
    }
    while i < length
        invariant
            i <= length,
            charset_size >= 2,
            reach == pow(charset_size as int, i as nat),
            reach < threshold,
        decreases length - i,
    {
        assert(reach * charset_size <= 0xFFFF_FFFF_FFFF_FFFF * 0xFFFF_FFFF) by (nonlinear_arith)
            requires
                0 <= reach <= 0xFFFF_FFFF_FFFF_FFFF,
                0 <= charset_size <= 0xFFFF_FFFF,
        ;
        let next: u128 = reach * (charset_size as u128);
        proof {
            reveal(pow);
            assert(pow(charset_size as int, (i + 1) as nat) == charset_size * pow(
                charset_size as int,
                i as nat,
            ));
            assert(next == pow(charset_size as int, (i + 1) as nat)) by (nonlinear_arith)
                requires
                    next == reach * charset_size,
                    reach == pow(charset_size as int, i as nat),
                    pow(charset_size as int, (i + 1) as nat) == charset_size * pow(
                        charset_size as int,
                        i as nat,
                    ),
            ;
        }
        if next >= threshold as u128 {
            proof {
                lemma_pow_increases(charset_size as nat, (i + 1) as nat, length as nat);
            }
            return true;
        }
        reach = next;
        i = i + 1;
    }
    false
}

/// Lowers a score by a penalty, not below 0.
pub open spec fn lowered(score: nat, applies: bool, penalty: nat) -> nat {
    if !applies {
        score
    } else if score >= penalty {
        (score - penalty) as nat
    } else {
        0
    }
}

/// The points that a password's length in bytes earns.
pub open spec fn length_score(len: nat) -> nat {
    if len <= 7 {
        0
    } else if len <= 11 {
        20
    } else if len <= 15 {
        35
    } else {
        50
    }
}

/// The points that the entropy earns: 20 from 60 bits, 10 from 40.
pub open spec fn entropy_bonus(length: nat, charset_size: nat) -> nat {
    if entropy_reaches(length, charset_size, ENTROPY_60_BITS as nat) {
        20
    } else if entropy_reaches(length, charset_size, ENTROPY_40_BITS as nat) {
        10
    } else {
        0
    }
}

/// The score of a password, from what an assessment has found so far: the
/// points for its length, 10 for each class of character, the points for
/// its entropy; 30 less where it is common, 50 less where it is
/// compromised, 10 less for a rising run, 15 less for a repeated character;
/// from 0 to 100.
pub open spec fn strength_score(info: StrengthModel, password: Seq<char>) -> nat {
    let earned = earned_points(info);
    let scored = lowered(
        lowered(
            lowered(lowered(earned, info.is_common, 30), info.is_compromised, 50),
            has_sequential(password),
            10,
        ),
        has_repeated(password),
        15,
    );
    if scored > 100 {
        100
    } else {
        scored
    }
}

/// The name of the level that a score belongs to.
pub open spec fn level_name(score: nat) -> Seq<char> {
    if score <= 30 {
        "Weak"@
    } else if score <= 60 {
        "Fair"@
    } else if score <= 80 {
        "Good"@
    } else if score <= 100 {
        "Strong"@
    } else {
        "Unknown"@
    }
}

/// One piece of advice where it applies, none where it does not.
pub open spec fn advice_where(applies: bool, advice: Seq<char>) -> Seq<Seq<char>> {
    if applies {
        seq![advice]
    } else {
        Seq::empty()
    }
}

/// The advice on a password, from what an assessment has found, in the
/// order in which it is given.
pub open spec fn password_feedback(info: StrengthModel, password: Seq<char>) -> Seq<Seq<char>> {
    advice_where(info.length < 12, "Use at least 12 characters for better security"@)
        + advice_where(
        !info.has_lowercase || !info.has_uppercase,
        "Include both uppercase and lowercase letters"@,
    ) + advice_where(!info.has_numbers, "Add numbers to increase complexity"@) + advice_where(
        !info.has_symbols,
        "Include special characters (!@#$%^&*)"@,
    ) + advice_where(info.is_common, "Avoid common passwords - use a unique combination"@)
        + advice_where(
        info.is_compromised,
        "⚠️ This password appears in data breaches - change immediately!"@,
    ) + advice_where(has_sequential(password), "Avoid sequential characters (abc, 123)"@)
        + advice_where(has_repeated(password), "Avoid repeated characters (aaa, 111)"@)
}

/// What an assessment first finds in a password: its length and the
/// classes of its characters.
pub open spec fn first_findings(password: Seq<char>, now: i64) -> StrengthModel {
    let classes = classes_of(password);
    StrengthModel {
        length: byte_len(password),
        has_lowercase: classes.lowercase,
        has_uppercase: classes.uppercase,
        has_numbers: classes.digits,
        has_symbols: classes.symbols,
        charset_size: classes.charset_size_spec() as u32,
        last_checked: now,
        ..StrengthModel::blank()
    }
}

/// The assessment of a password at `now`. The score does not yet take into
/// account whether the password is common; the advice does.
pub open spec fn assessment(password: Seq<char>, now: i64) -> StrengthModel {
    let found = first_findings(password, now);
    let score = strength_score(found, password);
    let judged = StrengthModel {
        score: score as u32,
        level: level_name(score),
        is_common: is_common(password),
        ..found
    };
    StrengthModel { feedback: password_feedback(judged, password), ..judged }
}

/// The points that a password earns before any penalty.
pub open spec fn earned_points(info: StrengthModel) -> nat {
    length_score(info.length) + 10 * info.classes().variety_spec() + entropy_bonus(
        info.length,
        info.charset_size as nat,
    )
}

/// The points that a password earns before any penalty: for its length,
/// for the classes of its characters and for its entropy.
fn points_earned(info: &PasswordStrengthInfo) -> (points: u32)
    ensures
        points == earned_points(info@),
        points <= 110,
{
    let by_length: u32 = if info.length <= 7 {
        0
    } else if info.length <= 11 {
        20
    } else if info.length <= 15 {
        35
    } else {
        50
    };
    let classes = CharClasses {
        lowercase: info.has_lowercase,
        uppercase: info.has_uppercase,
        digits: info.has_numbers,
        symbols: info.has_symbols,
    };
    assert(classes == info@.classes());
    let by_variety: u32 = classes.variety() * 10;
    let by_entropy: u32 = if entropy_at_least(info.length, info.charset_size, ENTROPY_60_BITS) {
        20
    } else if entropy_at_least(info.length, info.charset_size, ENTROPY_40_BITS) {
        10
    } else {
        0
    };
    by_length + by_variety + by_entropy
}

/// The score of a password, from what an assessment has found so far.
pub fn calculate_strength_score(info: &PasswordStrengthInfo, password: &str) -> (score: u32)
    ensures
        score == strength_score(info@, password@),
        score <= 100,
{
    let earned = points_earned(info);
    let after_common = if info.is_common {
        lower_by(earned, 30)
    } else {
        earned
    };
    let after_breach = if info.is_compromised {
        lower_by(after_common, 50)
    } else {
        after_common
    };
    let after_run = if has_sequential_chars(password) {
        lower_by(after_breach, 10)
    } else {
        after_breach
    };
    let after_repeat = if has_repeated_chars(password) {
        lower_by(after_run, 15)
    } else {
        after_run
    };
    if after_repeat > 100 {
        100
    } else {
        after_repeat
    }
}

/// Lowers a score by a penalty, not below 0.
fn lower_by(score: u32, penalty: u32) -> (less: u32)
    ensures
        less == lowered(score as nat, true, penalty as nat),
{
    if score >= penalty {
        score - penalty
    } else {
        0
    }
}

/// Names the level that a score belongs to.
pub fn level_for(score: u32) -> (level: String)
    ensures
        level@ == level_name(score as nat),
{
    if score <= 30 {
        String::from_str("Weak")
    } else if score <= 60 {
        String::from_str("Fair")
    } else if score <= 80 {
        String::from_str("Good")
    } else if score <= 100 {
        String::from_str("Strong")
    } else {
        String::from_str("Unknown")
    }
}

/// Adds a piece of advice to a list where it applies.
fn advise(feedback: &mut Vec<String>, applies: bool, advice: &str)
    ensures
        texts(final(feedback)@) == texts(old(feedback)@) + advice_where(applies, advice@),
{
    if applies {
        feedback.push(String::from_str(advice));
    }
    assert(texts(feedback@) =~= texts(old(feedback)@) + advice_where(applies, advice@));
}

/// The advice on a password, from what an assessment has found.
pub fn generate_password_feedback(info: &PasswordStrengthInfo, password: &str) -> (feedback: Vec<
    String,
>)
    ensures
        texts(feedback@) == password_feedback(info@, password@),
{
    let mut feedback: Vec<String> = Vec::new();
    assert(texts(feedback@) =~= Seq::<Seq<char>>::empty());
    advise(&mut feedback, info.length < 12, "Use at least 12 characters for better security");
    advise(
        &mut feedback,
        !info.has_lowercase || !info.has_uppercase,
        "Include both uppercase and lowercase letters",
    );
    advise(&mut feedback, !info.has_numbers, "Add numbers to increase complexity");
    advise(&mut feedback, !info.has_symbols, "Include special characters (!@#$%^&*)");
    advise(&mut feedback, info.is_common, "Avoid common passwords - use a unique combination");
    advise(
        &mut feedback,
        info.is_compromised,
        "⚠️ This password appears in data breaches - change immediately!",
    );
    advise(&mut feedback, has_sequential_chars(password), "Avoid sequential characters (abc, 123)");
    advise(&mut feedback, has_repeated_chars(password), "Avoid repeated characters (aaa, 111)");
    assert(texts(feedback@) =~= password_feedback(info@, password@));
    feedback
}

/// Assesses a password at `now`.
pub fn assess_password_strength_at(password: &str, now: i64) -> (info: PasswordStrengthInfo)
    ensures
        info@ == assessment(password@, now),
        info.score <= 100,
{
    let classes = char_classes(password);
    let mut info = PasswordStrengthInfo {
        score: 0,
        level: String::new(),
        charset_size: classes.charset_size(),
        has_lowercase: classes.lowercase,
        has_uppercase: classes.uppercase,
        has_numbers: classes.digits,
        has_symbols: classes.symbols,
        length: byte_length(password),
        is_common: false,
        is_compromised: false,
        feedback: Vec::new(),
        last_checked: now,
    };
    assert(texts(info.feedback@) =~= Seq::<Seq<char>>::empty());
    assert(info@ == first_findings(password@, now));
    info.score = calculate_strength_score(&info, password);
    info.level = level_for(info.score);
    info.is_common = is_common_password(password);
    info.feedback = generate_password_feedback(&info, password);
    info
}

/// What an entry says.
pub struct EntryModel {
    pub id: Seq<char>,
    pub service: Seq<char>,
    pub username: Seq<char>,
    pub password: Seq<char>,
    pub url: Option<Seq<char>>,
    pub notes: Option<Seq<char>>,
    pub category: CategoryModel,
    pub tags: Seq<Seq<char>>,
    pub custom_fields: Map<Seq<char>, Seq<char>>,
    pub password_strength: StrengthModel,
    pub created_at: i64,
    pub modified_at: i64,
    pub last_accessed: Option<i64>,
    pub expiration: Option<ExpirationModel>,
    pub password_history: Seq<HistoryModel>,
    pub security_info: SecurityInfo,
    pub settings: EntrySettings,
    pub is_favorite: bool,
    pub is_deleted: bool,
    pub deleted_at: Option<i64>,
}

/// The risk points that a strength score stands for.
pub open spec fn strength_risk(score: u32) -> nat {
    if score <= 30 {
        40
    } else if score <= 60 {
        20
    } else if score <= 80 {
        10
    } else {
        0
    }
}

/// The risk points that the age of a password in days stands for.
pub open spec fn age_risk(days: int) -> nat {
    if days > 365 {
        20
    } else if days > 180 {
        10
    } else {
        0
    }
}

/// The level that risk points stand for.
pub open spec fn risk_level_for(points: nat) -> RiskLevel {
    if points <= 20 {
        RiskLevel::Low
    } else if points <= 40 {
        RiskLevel::Medium
    } else if points <= 70 {
        RiskLevel::High
    } else {
        RiskLevel::Critical
    }
}

/// The later of a time and the time of creation.
pub open spec fn not_before(now: i64, created_at: i64) -> i64 {
    if now >= created_at {
        now
    } else {
        created_at
    }
}

impl EntryModel {
    /// What holds of every entry: it was not modified before it was
    /// created, and it remembers ten password changes at most.
    pub open spec fn wf(self) -> bool {
        &&& self.modified_at >= self.created_at
        &&& self.password_history.len() <= 10
    }

    /// The risk points of the entry at `now`: for the strength of its
    /// password, 50 for a breach, for the age of the password, and 15 where
    /// a second factor is known to be off.
    pub open spec fn risk_points(self, now: i64) -> nat {
        strength_risk(self.password_strength.score) + (if self.security_info.breach_check_status.is_compromised {
            50nat
        } else {
            0nat
        }) + age_risk(days_between(now, self.modified_at)) + (if self.security_info.two_factor_enabled
            == Some(false) {
            15nat
        } else {
            0nat
        })
    }

    /// The entry with its risk level assessed anew at `now`.
    pub open spec fn reassessed(self, now: i64) -> EntryModel {
        EntryModel {
            security_info: self.security_info.with_risk(risk_level_for(self.risk_points(now))),
            ..self
        }
    }

    /// The entry modified at `now`.
    pub open spec fn touched(self, now: i64) -> EntryModel {
        EntryModel { modified_at: not_before(now, self.created_at), ..self }
    }

    /// The entry with the assessment of `password` at `now`, and the risk
    /// level that follows from it.
    pub open spec fn with_strength(self, password: Seq<char>, now: i64) -> EntryModel {
        (EntryModel { password_strength: assessment(password, now), ..self }).reassessed(now)
    }

    /// The history once the present password has been replaced at `now`:
    /// with a record of it, unless it was empty, and without the oldest
    /// records beyond ten.
    pub open spec fn history_after_change(self, reason: Seq<char>, now: i64) -> Seq<HistoryModel> {
        if self.password.len() == 0 {
            self.password_history
        } else {
            keep_last(
                self.password_history.push(
                    HistoryModel {
                        password_hash: password_hash_text(self.password),
                        changed_at: now,
                        changed_reason: reason,
                        strength_score: self.password_strength.score,
                    },
                ),
                10,
            )
        }
    }

    /// The entry once its password has been changed at `now`: the old one
    /// is recorded, the new one assessed, the risk level follows, and the
    /// mark of a breach is taken off.
    pub open spec fn after_password_update(self, new_password: Seq<char>, reason: Seq<char>, now: i64) -> EntryModel {
        let changed = (EntryModel {
            password: new_password,
            password_history: self.history_after_change(reason, now),
            ..self
        }).touched(now).with_strength(new_password, now);
        EntryModel { security_info: changed.security_info.cleared(), ..changed }
    }

    /// The entry accessed at `now`.
    pub open spec fn accessed(self, now: i64) -> EntryModel {
        EntryModel { last_accessed: Some(now), ..self }
    }

    /// The entry with a custom field set at `now`.
    pub open spec fn with_custom_field(self, key: Seq<char>, value: Seq<char>, now: i64) -> EntryModel {
        (EntryModel { custom_fields: self.custom_fields.insert(key, value), ..self }).touched(now)
    }

    /// The entry with a tag added at `now`, unless it has the tag.
    pub open spec fn with_tag(self, tag: Seq<char>, now: i64) -> EntryModel {
        if self.tags.contains(tag) {
            self
        } else {
            (EntryModel { tags: self.tags.push(tag), ..self }).touched(now)
        }
    }

    /// The entry with an expiration set at `now`, `days_from_now` days
    /// ahead.
    pub open spec fn with_expiration(self, days_from_now: u32, warning_days: u32, now: i64) -> EntryModel {
        (EntryModel {
            expiration: Some(
                ExpirationModel {
                    expires_at: (now + days_from_now * MILLIS_PER_DAY) as i64,
                    warning_days,
                    auto_remind: true,
                    policy_source: "User Set"@,
                },
            ),
            ..self
        }).touched(now)
    }

    /// Where the password stands at `now` with regard to its expiration:
    /// expired from the time of expiration on, in the warning period from
    /// `warning_days` days before, valid before that.
    pub open spec fn expiration_status(self, now: i64) -> ExpirationStatus {
        match self.expiration {
            None => ExpirationStatus::NoExpiration,
            Some(expiration) => {
                if now >= expiration.expires_at {
                    ExpirationStatus::Expired
                } else if now >= expiration.expires_at - expiration.warning_days * MILLIS_PER_DAY {
                    ExpirationStatus::Warning(
                        (days_between(expiration.expires_at, now) % 0x1_0000_0000) as u32,
                    )
                } else {
                    ExpirationStatus::Valid
                }
            },
        }
    }

    /// The entry deleted at `now`, so that it can be restored.
    pub open spec fn soft_deleted(self, now: i64) -> EntryModel {
        (EntryModel { is_deleted: true, deleted_at: Some(now), ..self }).touched(now)
    }

    /// The entry restored at `now`.
    pub open spec fn restored(self, now: i64) -> EntryModel {
        (EntryModel { is_deleted: false, deleted_at: None, ..self }).touched(now)
    }

    /// `password` is one that the history remembers.
    pub open spec fn remembers(self, password: Seq<char>) -> bool {
        exists|i: int|
            0 <= i < self.password_history.len() && (#[trigger] self.password_history[i]).password_hash
                == password_hash_text(password)
    }

    /// The entry is one that was made at `now` for a service, a user and a
    /// password: service and user without the white space around them,
    /// everything else empty or off, the password assessed.
    pub open spec fn is_new(
        self,
        id: Seq<char>,
        service: Seq<char>,
        username: Seq<char>,
        password: Seq<char>,
        now: i64,
    ) -> bool {
        &&& self.id == id
        &&& self.service == trimmed_text(service)
        &&& self.username == trimmed_text(username)
        &&& self.password == password
        &&& self.url is None
        &&& self.notes is None
        &&& self.category == CategoryModel::Personal
        &&& self.tags == Seq::<Seq<char>>::empty()
        &&& self.custom_fields == Map::<Seq<char>, Seq<char>>::empty()
        &&& self.password_strength == assessment(password, now)
        &&& self.created_at == now
        &&& self.modified_at == now
        &&& self.last_accessed is None
        &&& self.expiration is None
        &&& self.password_history == Seq::<HistoryModel>::empty()
        &&& self.security_info.with_risk(RiskLevel::Unknown).is_blank()
        &&& self.security_info.risk_level == risk_level_for(
            strength_risk(assessment(password, now).score),
        )
        &&& self.settings == EntrySettings::off()
        &&& !self.is_favorite
        &&& !self.is_deleted
        &&& self.deleted_at is None
    }
}

/// A credential with its metadata.
#[derive(Debug, Clone)]
pub struct Entry {
    /// The identifier, which never changes.
    pub id: String,
    pub service: String,
    pub username: String,
    pub password: String,
    pub url: Option<String>,
    pub notes: Option<String>,
    pub category: EntryCategory,
    pub tags: Vec<String>,
    /// Keys and values, each key once.
    pub custom_fields: Vec<(String, String)>,
    pub password_strength: PasswordStrengthInfo,
    /// Milliseconds since 1970-01-01 00:00:00 UTC.
    pub created_at: i64,
    pub modified_at: i64,
    pub last_accessed: Option<i64>,
    pub expiration: Option<PasswordExpiration>,
    /// The last password changes, oldest first, ten at most.
    pub password_history: Vec<PasswordHistoryEntry>,
    pub security_info: SecurityInfo,
    pub settings: EntrySettings,
    pub is_favorite: bool,
    pub is_deleted: bool,
    pub deleted_at: Option<i64>,
}

impl View for Entry {
    type V = EntryModel;

    open spec fn view(&self) -> EntryModel {
        EntryModel {
            id: self.id@,
            service: self.service@,
            username: self.username@,
            password: self.password@,
            url: text_of(self.url),
            notes: text_of(self.notes),
            category: self.category@,
            tags: texts(self.tags@),
            custom_fields: pairs_as_map(self.custom_fields@),
            password_strength: self.password_strength@,
            created_at: self.created_at,
            modified_at: self.modified_at,
            last_accessed: self.last_accessed,
            expiration: match self.expiration {
                Some(expiration) => Some(expiration@),
                None => None,
            },
            password_history: history_models(self.password_history@),
            security_info: self.security_info,
            settings: self.settings,
            is_favorite: self.is_favorite,
            is_deleted: self.is_deleted,
            deleted_at: self.deleted_at,
        }
    }
}

/// What each of a list of entries says.
pub open spec fn entry_models(entries: Seq<Entry>) -> Seq<EntryModel> {
    entries.map_values(|e: Entry| e@)
}

/// The level that risk points stand for.
fn risk_level_of(points: u32) -> (level: RiskLevel)
    ensures
        level == risk_level_for(points as nat),
{
    if points <= 20 {
        RiskLevel::Low
    } else if points <= 40 {
        RiskLevel::Medium
    } else if points <= 70 {
        RiskLevel::High
    } else {
        RiskLevel::Critical
    }
}

/// The later of a time and the time of creation.
fn later_of(now: i64, created_at: i64) -> (time: i64)
    ensures
        time == not_before(now, created_at),
{
    if now >= created_at {
        now
    } else {
        created_at
    }
}

impl Entry {
    /// A new entry, made now under a fresh identifier; it fails only where
    /// the random source does.
    pub fn new(service: String, username: String, password: String) -> (r: Result<
        Self,
        CryptoError,
    >)
        ensures
            match r {
                Ok(entry) => {
                    &&& entry@.is_new(entry.id@, service@, username@, password@, entry.created_at)
                    &&& entry.id@.len() == 36
                    &&& is_entry_id(entry.id@)
                    &&& is_clock_time(entry.created_at)
                    &&& entry@.wf()
                },
                Err(e) => e is RandomSource,
            },
    {
        let id = generate_entry_id()?;
        Ok(Self::new_with(id, service, username, password, utc_now_millis()))
    }

    /// A new entry, made at `now` under the identifier given.
    pub fn new_with(id: String, service: String, username: String, password: String, now: i64) -> (entry:
        Self)
        ensures
            entry@.is_new(id@, service@, username@, password@, now),
            entry@.wf(),
    {
        let strength = assess_password_strength_at(password.as_str(), now);
        let mut entry = Self {
            id,
            service: String::from_str(service.as_str().trim()),
            username: String::from_str(username.as_str().trim()),
            password,
            url: None,
            notes: None,
            category: EntryCategory::Personal,
            tags: Vec::new(),
            custom_fields: Vec::new(),
            password_strength: strength,
            created_at: now,
            modified_at: now,
            last_accessed: None,
            expiration: None,
            password_history: Vec::new(),
            security_info: SecurityInfo::default(),
            settings: EntrySettings::default(),
            is_favorite: false,
            is_deleted: false,
            deleted_at: None,
        };
        entry.update_risk_level_at(now);
        proof {
            assert(entry@.tags =~= Seq::<Seq<char>>::empty());
            assert(entry@.custom_fields =~= Map::<Seq<char>, Seq<char>>::empty());
            assert(entry@.password_history =~= Seq::<HistoryModel>::empty());
        }
        entry
    }

    /// Changes the password now.
    pub fn update_password(&mut self, new_password: String, reason: &str)
        ensures
            exists|now: i64|
                is_clock_time(now) && final(self)@ == #[trigger] old(self)@.after_password_update(
                    new_password@,
                    reason@,
                    now,
                ),
            old(self)@.wf() ==> final(self)@.wf(),
    {
        let now = utc_now_millis();
        self.update_password_at(new_password, reason, now);
    }

    /// Changes the password at `now`, and keeps a record of the old one.
    pub fn update_password_at(&mut self, new_password: String, reason: &str, now: i64)
        ensures
            final(self)@ == old(self)@.after_password_update(new_password@, reason@, now),
            old(self)@.wf() ==> final(self)@.wf(),
    {
        if !self.password.as_str().is_empty() {
            let record = PasswordHistoryEntry {
                password_hash: hash_password(self.password.as_str()),
                changed_at: now,
                changed_reason: String::from_str(reason),
                strength_score: self.password_strength.score,
            };
            let ghost before = history_models(self.password_history@);
            self.password_history.push(record);
            let ghost all = before.push(record@);
            let ghost mut evicted: int = 0;
            assert(history_models(self.password_history@) =~= all.subrange(0, all.len() as int));
            while self.password_history.len() > MAX_PASSWORD_HISTORY
                invariant
                    0 <= evicted <= all.len(),
                    history_models(self.password_history@) == all.subrange(
                        evicted,
                        all.len() as int,
                    ),
                    evicted > 0 ==> self.password_history@.len() >= 10,
                    self.id == old(self).id,
                    self.service == old(self).service,
                    self.username == old(self).username,
                    self.password == old(self).password,
                    self.url == old(self).url,
                    self.notes == old(self).notes,
                    self.category == old(self).category,
                    self.tags == old(self).tags,
                    self.custom_fields == old(self).custom_fields,
                    self.password_strength == old(self).password_strength,
                    self.created_at == old(self).created_at,
                    self.modified_at == old(self).modified_at,
                    self.last_accessed == old(self).last_accessed,
                    self.expiration == old(self).expiration,
                    self.security_info == old(self).security_info,
                    self.settings == old(self).settings,
                    self.is_favorite == old(self).is_favorite,
                    self.is_deleted == old(self).is_deleted,
                    self.deleted_at == old(self).deleted_at,
                decreases self.password_history@.len(),
            {
                let ghost held = history_models(self.password_history@);
                self.password_history.remove(0);
                assert(history_models(self.password_history@) =~= held.remove(0));
                assert(held.remove(0) =~= all.subrange(evicted + 1, all.len() as int));
                proof {
                    evicted = evicted + 1;
                }
            }
            assert(history_models(self.password_history@) =~= keep_last(all, 10));
        }
        assert(history_models(self.password_history@) == old(self)@.history_after_change(
            reason@,
            now,
        ));
        self.password = new_password;
        self.modified_at = later_of(now, self.created_at);
        self.password_strength = assess_password_strength_at(self.password.as_str(), now);
        self.update_risk_level_at(now);
        self.security_info.breach_check_status.is_compromised = false;
    }

    /// Assesses `password` now and takes the result for the entry's.
    pub fn update_password_strength(&mut self, password: &str)
        ensures
            exists|now: i64|
                is_clock_time(now) && final(self)@ == #[trigger] old(self)@.with_strength(
                    password@,
                    now,
                ),
    {
        let now = utc_now_millis();
        self.update_password_strength_at(password, now);
    }

    /// Assesses `password` at `now` and takes the result for the entry's.
    pub fn update_password_strength_at(&mut self, password: &str, now: i64)
        ensures
            final(self)@ == old(self)@.with_strength(password@, now),
    {
        self.password_strength = assess_password_strength_at(password, now);
        self.update_risk_level_at(now);
    }

    /// Assesses a password now.
    pub fn assess_password_strength(password: &str) -> (info: PasswordStrengthInfo)
        ensures
            is_clock_time(info.last_checked),
            info@ == assessment(password@, info.last_checked),
            info.score <= 100,
    {
        assess_password_strength_at(password, utc_now_millis())
    }

    /// Assesses the risk level anew, now.
    pub fn update_risk_level(&mut self)
        ensures
            exists|now: i64| is_clock_time(now) && final(self)@ == #[trigger] old(self)@.reassessed(now),
    {
        let now = utc_now_millis();
        self.update_risk_level_at(now);
    }

    /// Assesses the risk level anew, at `now`.
    pub fn update_risk_level_at(&mut self, now: i64)
        ensures
            final(self)@ == old(self)@.reassessed(now),
    {
        let mut points: u32 = if self.password_strength.score <= 30 {
            40
        } else if self.password_strength.score <= 60 {
            20
        } else if self.password_strength.score <= 80 {
            10
        } else {
            0
        };
        if self.security_info.breach_check_status.is_compromised {
            points = points + 50;
        }
        let age = whole_days_between(now, self.modified_at);
        if age > 365 {
            points = points + 20;
        } else if age > 180 {
            points = points + 10;
        }
        match self.security_info.two_factor_enabled {
            Some(enabled) => {
                if !enabled {
                    points = points + 15;
                }
            },
            None => {},
        }
        self.security_info.risk_level = risk_level_of(points);
    }

    /// Notes that the entry is accessed now.
    pub fn mark_accessed(&mut self)
        ensures
            exists|now: i64| is_clock_time(now) && final(self)@ == #[trigger] old(self)@.accessed(now),
    {
        let now = utc_now_millis();
        self.mark_accessed_at(now);
    }

    /// Notes that the entry is accessed at `now`.
    pub fn mark_accessed_at(&mut self, now: i64)
        ensures
            final(self)@ == old(self)@.accessed(now),
    {
        self.last_accessed = Some(now);
    }

    /// Sets a custom field now.
    pub fn add_custom_field(&mut self, key: String, value: String)
        ensures
            exists|now: i64|
                is_clock_time(now) && final(self)@ == #[trigger] old(self)@.with_custom_field(
                    key@,
                    value@,
                    now,
                ),
    {
        let now = utc_now_millis();
        self.add_custom_field_at(key, value, now);
    }

    /// Sets a custom field at `now`, in place of what the key held.
    pub fn add_custom_field_at(&mut self, key: String, value: String, now: i64)
        ensures
            final(self)@ == old(self)@.with_custom_field(key@, value@, now),
    {
        set_pair(&mut self.custom_fields, key, value);
        self.modified_at = later_of(now, self.created_at);
    }

    /// Adds a tag now, unless the entry has it.
    pub fn add_tag(&mut self, tag: String)
        ensures
            exists|now: i64|
                is_clock_time(now) && final(self)@ == #[trigger] old(self)@.with_tag(tag@, now),
    {
        let now = utc_now_millis();
        self.add_tag_at(tag, now);
    }

    /// Adds a tag at `now`, unless the entry has it.
    pub fn add_tag_at(&mut self, tag: String, now: i64)
        ensures
            final(self)@ == old(self)@.with_tag(tag@, now),
    {
        let ghost tags = texts(self.tags@);
        let mut i: usize = 0;
        while i < self.tags.len()
            invariant
                i <= self.tags@.len(),
                *self == *old(self),
                tags == texts(self.tags@),
                forall|k: int| 0 <= k < i ==> tags[k] != tag@,
            decreases self.tags@.len() - i,
        {
            if str_eq(self.tags[i].as_str(), tag.as_str()) {
                assert(tags[i as int] == tag@);
                return ;
            }
            i = i + 1;
        }
        self.tags.push(tag);
        assert(texts(self.tags@) =~= tags.push(tag@));
        self.modified_at = later_of(now, self.created_at);
    }

    /// Sets the password to expire `days_from_now` days from now.
    pub fn set_expiration(&mut self, days_from_now: u32, warning_days: u32)
        ensures
            exists|now: i64|
                is_clock_time(now) && final(self)@ == #[trigger] old(self)@.with_expiration(
                    days_from_now,
                    warning_days,
                    now,
                ),
    {
        let now = utc_now_millis();
        assert(days_from_now * MILLIS_PER_DAY <= 0xFFFF_FFFF * 86_400_000) by (nonlinear_arith)
            requires
                days_from_now <= 0xFFFF_FFFF,
                MILLIS_PER_DAY == 86_400_000,
        ;
        self.set_expiration_at(days_from_now, warning_days, now);
    }

    /// Sets the password to expire `days_from_now` days from `now`.
    pub fn set_expiration_at(&mut self, days_from_now: u32, warning_days: u32, now: i64)
        requires
            now + days_from_now * MILLIS_PER_DAY <= i64::MAX,
        ensures
            final(self)@ == old(self)@.with_expiration(days_from_now, warning_days, now),
    {
        let span: i128 = (days_from_now as i128) * 86_400_000;
        self.expiration = Some(
            PasswordExpiration {
                expires_at: ((now as i128) + span) as i64,
                warning_days,
                auto_remind: true,
                policy_source: String::from_str("User Set"),
            },
        );
        self.modified_at = later_of(now, self.created_at);
    }

    /// Tells where the password stands now with regard to its expiration.
    pub fn check_expiration_status(&self) -> (status: ExpirationStatus)
        ensures
            exists|now: i64| is_clock_time(now) && status == #[trigger] self@.expiration_status(now),
    {
        let now = utc_now_millis();
        self.check_expiration_status_at(now)
    }

    /// Tells where the password stands at `now` with regard to its
    /// expiration.
    pub fn check_expiration_status_at(&self, now: i64) -> (status: ExpirationStatus)
        ensures
            status == self@.expiration_status(now),
    {
        match &self.expiration {
            Some(expiration) => {
                let warning_time: i128 = (expiration.expires_at as i128) - (
                expiration.warning_days as i128) * 86_400_000;
                if now >= expiration.expires_at {
                    ExpirationStatus::Expired
                } else if (now as i128) >= warning_time {
                    let days = whole_days_between(expiration.expires_at, now);
                    ExpirationStatus::Warning((days % 0x1_0000_0000) as u32)
                } else {
                    ExpirationStatus::Valid
                }
            },
            None => ExpirationStatus::NoExpiration,
        }
    }

    /// Deletes the entry now, so that it can be restored.
    pub fn soft_delete(&mut self)
        ensures
            exists|now: i64|
                is_clock_time(now) && final(self)@ == #[trigger] old(self)@.soft_deleted(now),
    {
        let now = utc_now_millis();
        self.soft_delete_at(now);
    }

    /// Deletes the entry at `now`, so that it can be restored.
    pub fn soft_delete_at(&mut self, now: i64)
        ensures
            final(self)@ == old(self)@.soft_deleted(now),
    {
        self.is_deleted = true;
        self.deleted_at = Some(now);
        self.modified_at = later_of(now, self.created_at);
    }

    /// Restores the entry now.
    pub fn restore(&mut self)
        ensures
            exists|now: i64| is_clock_time(now) && final(self)@ == #[trigger] old(self)@.restored(now),
    {
        let now = utc_now_millis();
        self.restore_at(now);
    }

    /// Restores the entry at `now`.
    pub fn restore_at(&mut self, now: i64)
        ensures
            final(self)@ == old(self)@.restored(now),
    {
        self.is_deleted = false;
        self.deleted_at = None;
        self.modified_at = later_of(now, self.created_at);
    }

    /// The age of the entry in whole days, now.
    pub fn get_age_days(&self) -> (days: i64)
        ensures
            exists|now: i64| is_clock_time(now) && days == #[trigger] days_between(now, self.created_at),
    {
        let now = utc_now_millis();
        whole_days_between(now, self.created_at)
    }

    /// The age of the password in whole days, now.
    pub fn get_password_age_days(&self) -> (days: i64)
        ensures
            exists|now: i64|
                is_clock_time(now) && days == #[trigger] days_between(now, self.modified_at),
    {
        let now = utc_now_millis();
        whole_days_between(now, self.modified_at)
    }

    /// Tells whether `password` is one that the history remembers.
    pub fn is_password_reused(&self, password: &str) -> (reused: bool)
        ensures
            reused == self@.remembers(password@),
    {
        let new_hash = hash_password(password);
        let ghost history = history_models(self.password_history@);
        let mut i: usize = 0;
        while i < self.password_history.len()
            invariant
                i <= self.password_history@.len(),
                history == history_models(self.password_history@),
                new_hash@ == password_hash_text(password@),
                forall|k: int| 0 <= k < i ==> (#[trigger] history[k]).password_hash != new_hash@,
            decreases self.password_history@.len() - i,
        {
            if str_eq(self.password_history[i].password_hash.as_str(), new_hash.as_str()) {
                assert(self@.password_history[i as int].password_hash == password_hash_text(
                    password@,
                ));
                return true;
            }
            i = i + 1;
        }
        false
    }

    /// The entry in the form in which it is exported, with its password or
    /// with eight asterisks in its place.
    pub fn to_export_format(&self, include_password: bool) -> (export: ExportEntry)
        ensures
            export@ == exported(self@, include_password),
    {
        let mut tags: Vec<String> = Vec::new();
        let mut i: usize = 0;
        while i < self.tags.len()
            invariant
                i <= self.tags@.len(),
                texts(tags@) == texts(self.tags@).subrange(0, i as int),
            decreases self.tags@.len() - i,
        {
            let ghost copied = texts(tags@);
            let tag = self.tags[i].clone();
            tags.push(tag);
            assert(texts(tags@) =~= copied.push(tag@));
            assert(texts(tags@) =~= texts(self.tags@).subrange(0, i + 1));
            i = i + 1;
        }
        assert(texts(self.tags@).subrange(0, i as int) =~= texts(self.tags@));
        ExportEntry {
            service: self.service.clone(),
            username: self.username.clone(),
            password: if include_password {
                self.password.clone()
            } else {
                String::from_str("********")
            },
            url: crate::security::event::copy_text(&self.url),
            notes: crate::security::event::copy_text(&self.notes),
            category: self.category.duplicate(),
            tags,
            created_at: self.created_at,
            modified_at: self.modified_at,
        }
    }
}

/// What an exported entry says.
pub struct ExportModel {
    pub service: Seq<char>,
    pub username: Seq<char>,
    pub password: Seq<char>,
    pub url: Option<Seq<char>>,
    pub notes: Option<Seq<char>>,
    pub category: CategoryModel,
    pub tags: Seq<Seq<char>>,
    pub created_at: i64,
    pub modified_at: i64,
}

/// An entry in the form in which it is exported.
#[derive(Debug, Clone)]
pub struct ExportEntry {
    pub service: String,
    pub username: String,
    pub password: String,
    pub url: Option<String>,
    pub notes: Option<String>,
    pub category: EntryCategory,
    pub tags: Vec<String>,
    pub created_at: i64,
    pub modified_at: i64,
}

impl View for ExportEntry {
    type V = ExportModel;

    open spec fn view(&self) -> ExportModel {
        ExportModel {
            service: self.service@,
            username: self.username@,
            password: self.password@,
            url: text_of(self.url),
            notes: text_of(self.notes),
            category: self.category@,
            tags: texts(self.tags@),
            created_at: self.created_at,
            modified_at: self.modified_at,
        }
    }
}

/// An entry as it is exported.
pub open spec fn exported(entry: EntryModel, include_password: bool) -> ExportModel {
    ExportModel {
        service: entry.service,
        username: entry.username,
        password: if include_password {
            entry.password
        } else {
            "********"@
        },
        url: entry.url,
        notes: entry.notes,
        category: entry.category,
        tags: entry.tags,
        created_at: entry.created_at,
        modified_at: entry.modified_at,
    }
}

/// Every change keeps an entry well formed, not modified before it was
/// created and with ten remembered passwords at most, and leaves it its
/// identifier.
pub proof fn changes_keep_entries_well_formed(
    entry: EntryModel,
    now: i64,
    text: Seq<char>,
    other: Seq<char>,
    days: u32,
    warning_days: u32,
)
    requires
        entry.wf(),
    ensures
        entry.after_password_update(text, other, now).wf(),
        entry.with_strength(text, now).wf(),
        entry.reassessed(now).wf(),
        entry.accessed(now).wf(),
        entry.with_custom_field(text, other, now).wf(),
        entry.with_tag(text, now).wf(),
        entry.with_expiration(days, warning_days, now).wf(),
        entry.soft_deleted(now).wf(),
        entry.restored(now).wf(),
        entry.after_password_update(text, other, now).id == entry.id,
        entry.with_strength(text, now).id == entry.id,
        entry.reassessed(now).id == entry.id,
        entry.accessed(now).id == entry.id,
        entry.with_custom_field(text, other, now).id == entry.id,
        entry.with_tag(text, now).id == entry.id,
        entry.with_expiration(days, warning_days, now).id == entry.id,
        entry.soft_deleted(now).id == entry.id,
        entry.restored(now).id == entry.id,
{
}

} // verus!
