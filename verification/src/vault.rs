//! The vault: the entries, the access guard that gates them, the audit
//! trail that records what is done to them, and the salt of the vault's key.

use crate::clock::{is_clock_time, utc_now_millis, MAX_ELAPSED_NANOS};
use crate::crypto::{
    default_config, generate_salt, is_derivation_advice, Argon2Config, CryptoError,
};
use crate::entry::{entry_models, generate_entry_id, is_entry_id, Entry, EntryModel};
use crate::envelope::{
    is_envelope_of, is_opening, open_envelope, open_legacy_envelope, opened, opened_as_legacy,
    seal_envelope, sealable, Opened, VaultError,
};
use crate::security::audit::{
    action_models, message_event, message_event_at, ActionModel, AuditAction, AuditLog,
    AuditModel,
};
use crate::security::{LockState, VaultLock};
use crate::text::{
    decimal_text, is_blank, lowercase_text, occurs_in, str_contains, str_eq, to_decimal,
    trimmed_text,
};
use vstd::prelude::*;
use vstd::string::{StrSliceExecFns, StringExecFns};

verus! {

/// The idle time-out of a vault that is loaded or made anew: 15 minutes.
pub const DEFAULT_TIMEOUT_SECS: u64 = 900;

/// The length of the salt that a vault is given when it is first saved.
pub const VAULT_SALT_SIZE: usize = 32;

/// What a vault holds.
pub struct VaultModel {
    /// The entries, in the order in which they were added.
    pub entries: Seq<EntryModel>,
    pub lock: Option<LockState>,
    pub audit: Option<AuditModel>,
    /// The salt of the vault's key, once the vault has been saved or loaded.
    pub vault_salt: Option<Seq<u8>>,
    /// What the audit trail has asked of the vault's surroundings and is
    /// not done yet.
    pub pending: Seq<ActionModel>,
}

impl VaultModel {
    /// The vault is locked at `lock_now` on the guard's clock. A vault
    /// without a guard is never locked.
    pub open spec fn locked_at(self, lock_now: nat) -> bool {
        self.lock matches Some(lock) && lock.locked_at(lock_now)
    }

    /// The vault after a successful access at `lock_now`.
    pub open spec fn refreshed(self, lock_now: nat) -> VaultModel {
        VaultModel {
            lock: match self.lock {
                Some(lock) => Some(lock.refreshed(lock_now)),
                None => None,
            },
            ..self
        }
    }

    /// `after` is the vault once `message` has been logged at `now`: the
    /// trail holds the event, and what it asks for is pending. A vault
    /// without a trail stays as it is.
    pub open spec fn notes(self, after: VaultModel, message: Seq<char>, now: i64) -> bool {
        match self.audit {
            None => after == self,
            Some(trail) => after == (VaultModel {
                audit: Some(trail.after_log(message_event(now, message), now)),
                pending: self.pending + trail.actions_on(message_event(now, message), now),
                ..self
            }),
        }
    }

    /// `refusal` is what a vault that is locked at `lock_now` refuses with:
    /// that it is locked out where a lock-out is in force, that it is
    /// locked where it is only idle.
    pub open spec fn refuses_with(self, refusal: VaultError, lock_now: nat) -> bool {
        if self.lock matches Some(lock) && lock.locked_out_at(lock_now) {
            refusal is LockedOut
        } else {
            refusal is VaultLocked
        }
    }

    /// The vault with one more entry.
    pub open spec fn with_entry(self, entry: EntryModel) -> VaultModel {
        VaultModel { entries: self.entries.push(entry), ..self }
    }
}

/// One of the entries bears the identifier.
pub open spec fn holds_id(entries: Seq<EntryModel>, id: Seq<char>) -> bool {
    exists|i: int| 0 <= i < entries.len() && (#[trigger] entries[i]).id == id
}

/// No two of the entries bear the same identifier.
pub open spec fn distinct_ids(entries: Seq<EntryModel>) -> bool {
    forall|i: int, j: int|
        0 <= i < j < entries.len() ==> (#[trigger] entries[i]).id != (#[trigger] entries[j]).id
}

/// The message that refuses an identifier that an entry already bears.
pub open spec fn id_in_use_message() -> Seq<char> {
    "Entry identifier already in use"@
}

/// The message that records a lock.
pub open spec fn locked_message() -> Seq<char> {
    "Vault auto-locked due to inactivity timeout"@
}

/// The message that records a new entry.
pub open spec fn added_message(service: Seq<char>) -> Seq<char> {
    "Entry added for service: "@ + service
}

/// The message that records a removal.
pub open spec fn removed_message(count: nat, filter: Seq<char>) -> Seq<char> {
    "Removed "@ + decimal_text(count) + " entries matching '"@ + filter + "'"@
}

/// An entry is for a service that `filter` does not name: the filter does
/// not occur in the service, whatever the case of either.
pub open spec fn spares_service(filter: Seq<char>) -> spec_fn(EntryModel) -> bool {
    |e: EntryModel| !occurs_in(lowercase_text(filter), lowercase_text(e.service))
}

/// The vault.
#[derive(Debug)]
pub struct Vault {
    pub entries: Vec<Entry>,
    pub lock: Option<VaultLock>,
    pub audit: Option<AuditLog>,
    pub vault_salt: Option<Vec<u8>>,
    /// What the audit trail has asked for and is not done yet.
    pub pending: Vec<AuditAction>,
}

impl View for Vault {
    type V = VaultModel;

    open spec fn view(&self) -> VaultModel {
        VaultModel {
            entries: entry_models(self.entries@),
            lock: match self.lock {
                Some(lock) => Some(lock@),
                None => None,
            },
            audit: match self.audit {
                Some(audit) => Some(audit@),
                None => None,
            },
            vault_salt: match self.vault_salt {
                Some(salt) => Some(salt@),
                None => None,
            },
            pending: action_models(self.pending@),
        }
    }
}

/// Figures on a vault.
#[derive(Debug, Clone, Copy, PartialEq, Eq, Structural)]
pub struct VaultStats {
    pub total_entries: usize,
    pub unique_services: usize,
    pub has_duplicates: bool,
}

/// The services of a list of entries.
pub open spec fn services(entries: Seq<EntryModel>) -> Seq<Seq<char>> {
    entries.map_values(|e: EntryModel| e.service)
}

/// The figures on a list of entries: how many there are, how many
/// different services they are for, and whether two are for the same.
pub open spec fn stats_of(entries: Seq<EntryModel>) -> VaultStats {
    VaultStats {
        total_entries: entries.len() as usize,
        unique_services: services(entries).to_set().len() as usize,
        has_duplicates: !services(entries).no_duplicates(),
    }
}

/// A text with a backslash before each comma.
pub open spec fn escape_commas(text: Seq<char>) -> Seq<char>
    decreases text.len(),
{
    if text.len() == 0 {
        Seq::empty()
    } else if text.last() == ',' {
        escape_commas(text.drop_last()) + seq!['\\', ',']
    } else {
        escape_commas(text.drop_last()).push(text.last())
    }
}

/// The line of an entry in a CSV export.
pub open spec fn csv_line(entry: EntryModel) -> Seq<char> {
    escape_commas(entry.service) + seq![','] + escape_commas(entry.username) + seq![',']
        + escape_commas(entry.password) + seq!['\n']
}

/// The lines of the entries in a CSV export.
pub open spec fn csv_lines(entries: Seq<EntryModel>) -> Seq<char>
    decreases entries.len(),
{
    if entries.len() == 0 {
        Seq::empty()
    } else {
        csv_lines(entries.drop_last()) + csv_line(entries.last())
    }
}

/// The CSV export of a list of entries: a header, and a line for each.
pub open spec fn csv_export(entries: Seq<EntryModel>) -> Seq<char> {
    "Service,Username,Password\n"@ + csv_lines(entries)
}

/// Appends a text with a backslash before each comma.
fn append_escaped(out: &mut String, text: &str)
    ensures
        final(out)@ == old(out)@ + escape_commas(text@),
{
    let count = text.unicode_len();
    let mut i: usize = 0;
    assert(escape_commas(text@.subrange(0, 0)) =~= Seq::<char>::empty());
    assert(out@ =~= old(out)@ + escape_commas(text@.subrange(0, 0)));
    while i < count
        invariant
            i <= count,
            count == text@.len(),
            out@ == old(out)@ + escape_commas(text@.subrange(0, i as int)),
        decreases count - i,
    {
        let c = text.get_char(i);
        proof {
            let next = text@.subrange(0, i + 1);
            assert(next.drop_last() =~= text@.subrange(0, i as int));
            assert(next.last() == c);
            reveal_strlit("\\,");
        }
        if c == ',' {
            out.append("\\,");
            assert(out@ =~= old(out)@ + escape_commas(text@.subrange(0, i + 1)));
        } else {
            let one = text.substring_char(i, i + 1);
            assert(one@ =~= seq![c]);
            out.append(one);
            assert(out@ =~= old(out)@ + escape_commas(text@.subrange(0, i + 1)));
        }
        i = i + 1;
    }
    assert(text@.subrange(0, i as int) =~= text@);
}

/// What an export comes to.
pub enum Exported {
    /// The entries are to be serialized as JSON.
    Json,
    /// The entries as CSV.
    Csv(String),
}

impl Vault {
    /// An empty vault with a guard of the idle time-out given and an empty
    /// audit trail, not yet saved.
    pub fn new(timeout_secs: u64) -> (vault: Self)
        ensures
            vault@.entries == Seq::<EntryModel>::empty(),
            vault@.lock == Some(VaultLock::new_state(timeout_secs)),
            vault@.audit == Some(AuditLog::new_state()),
            vault@.vault_salt is None,
            vault@.pending == Seq::<ActionModel>::empty(),
    {
        let vault = Self {
            entries: Vec::new(),
            lock: Some(VaultLock::new(timeout_secs)),
            audit: Some(AuditLog::new()),
            vault_salt: None,
            pending: Vec::new(),
        };
        assert(vault@.entries =~= Seq::<EntryModel>::empty());
        assert(vault@.pending =~= Seq::<ActionModel>::empty());
        vault
    }

    /// The time on the guard's clock; 0 where the vault has no guard.
    pub fn lock_now(&self) -> (lock_now: u128)
        ensures
            lock_now <= MAX_ELAPSED_NANOS,
            self@.lock is None ==> lock_now == 0,
    {
        match &self.lock {
            Some(lock) => lock.now(),
            None => 0,
        }
    }

    /// Logs a message at `now`, and keeps what the trail asks for.
    fn note(&mut self, message: &str, now: i64)
        ensures
            old(self)@.notes(final(self)@, message@, now),
    {
        let ghost before = self@;
        match &mut self.audit {
            Some(audit) => {
                let ghost trail = audit@;
                let mut actions = audit.log_event_at(message_event_at(now, message), now);
                let ghost asked = action_models(actions@);
                let ghost held = action_models(self.pending@);
                self.pending.append(&mut actions);
                assert(action_models(self.pending@) =~= held + asked);
            },
            None => {},
        }
    }

    /// Takes what the audit trail has asked for, to be done outside.
    pub fn take_pending(&mut self) -> (actions: Vec<AuditAction>)
        ensures
            action_models(actions@) == old(self)@.pending,
            final(self)@ == (VaultModel { pending: Seq::empty(), ..old(self)@ }),
    {
        let mut actions: Vec<AuditAction> = Vec::new();
        let ghost held = action_models(self.pending@);
        actions.append(&mut self.pending);
        assert(action_models(actions@) =~= held);
        assert(action_models(self.pending@) =~= Seq::<ActionModel>::empty());
        actions
    }

    /// Tells whether the vault is locked now, and records it where it is.
    pub fn check_and_handle_lock(&mut self) -> (locked: bool)
        ensures
            exists|lock_now: nat, now: i64|
                lock_now <= MAX_ELAPSED_NANOS && is_clock_time(now) && #[trigger] old(self)@.checks_lock(final(self)@, locked, lock_now, now),
    {
        let lock_now = self.lock_now();
        let now = utc_now_millis();
        let locked = self.check_and_handle_lock_at(lock_now, now);
        assert(old(self)@.checks_lock(self@, locked, lock_now as nat, now));
        locked
    }

    /// Tells whether the vault is locked at `lock_now` on the guard's
    /// clock, and records it at `now` where it is.
    pub fn check_and_handle_lock_at(&mut self, lock_now: u128, now: i64) -> (locked: bool)
        ensures
            old(self)@.checks_lock(final(self)@, locked, lock_now as nat, now),
    {
        let locked = match &self.lock {
            Some(lock) => lock.is_locked_at(lock_now),
            None => false,
        };
        if locked {
            self.note("Vault auto-locked due to inactivity timeout", now);
        }
        locked
    }

    /// The refusal of a vault that is locked at `lock_now`.
    fn refusal_at(&self, lock_now: u128) -> (refusal: VaultError)
        ensures
            self@.refuses_with(refusal, lock_now as nat),
    {
        let locked_out = match &self.lock {
            Some(lock) => lock.is_locked_out_at(lock_now),
            None => false,
        };
        if locked_out {
            VaultError::LockedOut
        } else {
            VaultError::VaultLocked
        }
    }

    /// Notes a successful access at `lock_now`.
    fn refresh_at(&mut self, lock_now: u128)
        ensures
            final(self)@ == old(self)@.refreshed(lock_now as nat),
    {
        match &mut self.lock {
            Some(lock) => {
                lock.refresh_at(lock_now);
            },
            None => {},
        }
    }

    /// Adds an entry now, under a fresh identifier. The identifier is drawn
    /// from the random source; where that fails, a vault that would have
    /// taken the entry reports the failure and stays as it is.
    pub fn add_entry(&mut self, service: String, username: String, password: String) -> (r: Result<
        (),
        VaultError,
    >)
        ensures
            exists|id: Option<Seq<char>>, lock_now: nat, now: i64|
                lock_now <= MAX_ELAPSED_NANOS && is_clock_time(now) && #[trigger] old(self)@.adds_drawn(
                    final(self)@,
                    r,
                    id,
                    service@,
                    username@,
                    password@,
                    lock_now,
                    now,
                ),
    {
        let lock_now = self.lock_now();
        let now = utc_now_millis();
        match generate_entry_id() {
            Ok(id) => {
                let r = self.add_entry_at(id, service, username, password, lock_now, now);
                assert(old(self)@.adds_drawn(
                    self@,
                    r,
                    Some(id@),
                    service@,
                    username@,
                    password@,
                    lock_now as nat,
                    now,
                ));
                r
            },
            Err(e) => {
                let r = self.add_entry_undrawn(e, service, username, lock_now, now);
                assert(old(self)@.adds_drawn(
                    self@,
                    r,
                    None,
                    service@,
                    username@,
                    password@,
                    lock_now as nat,
                    now,
                ));
                r
            },
        }
    }

    /// What adding an entry at `now` comes to where no identifier could be
    /// drawn: a locked vault refuses, and records that; a service or a user
    /// name that is empty but for white space is refused; otherwise the
    /// failure of the random source is reported.
    fn add_entry_undrawn(
        &mut self,
        failure: CryptoError,
        service: String,
        username: String,
        lock_now: u128,
        now: i64,
    ) -> (r: Result<(), VaultError>)
        requires
            failure is RandomSource,
        ensures
            old(self)@.fails_to_add(final(self)@, r, service@, username@, lock_now as nat, now),
    {
        if self.check_and_handle_lock_at(lock_now, now) {
            return Err(self.refusal_at(lock_now));
        }
        if is_blank(service.as_str()) || is_blank(username.as_str()) {
            return Err(
                VaultError::InvalidInput(String::from_str("Service and username cannot be empty!")),
            );
        }
        Err(VaultError::Crypto(failure))
    }

    /// Tells whether one of the entries bears the identifier.
    fn has_id(&self, id: &str) -> (held: bool)
        ensures
            held == holds_id(self@.entries, id@),
    {
        let ghost all = entry_models(self.entries@);
        let mut i: usize = 0;
        while i < self.entries.len()
            invariant
                i <= self.entries@.len(),
                all == entry_models(self.entries@),
                forall|k: int| 0 <= k < i ==> (#[trigger] all[k]).id != id@,
            decreases self.entries@.len() - i,
        {
            if str_eq(self.entries[i].id.as_str(), id) {
                assert(all[i as int].id == id@);
                return true;
            }
            i = i + 1;
        }
        false
    }

    /// Adds an entry at `now`, under the identifier given. A locked vault
    /// refuses, and records that; a service or a user name that is empty
    /// but for white space is refused, and so is an identifier that an
    /// entry already bears. Otherwise the entry joins the vault, the trail
    /// records it, and the idle timer starts again.
    pub fn add_entry_at(
        &mut self,
        id: String,
        service: String,
        username: String,
        password: String,
        lock_now: u128,
        now: i64,
    ) -> (r: Result<(), VaultError>)
        ensures
            old(self)@.adds(
                final(self)@,
                r,
                id@,
                service@,
                username@,
                password@,
                lock_now as nat,
                now,
            ),
    {
        if self.check_and_handle_lock_at(lock_now, now) {
            return Err(self.refusal_at(lock_now));
        }
        if is_blank(service.as_str()) || is_blank(username.as_str()) {
            return Err(
                VaultError::InvalidInput(String::from_str("Service and username cannot be empty!")),
            );
        }
        if self.has_id(id.as_str()) {
            return Err(VaultError::InvalidInput(String::from_str("Entry identifier already in use")));
        }
        let mut message = String::from_str("Entry added for service: ");
        message.append(service.as_str());
        let entry = Entry::new_with(id, service, username, password, now);
        let ghost added = entry@;
        self.entries.push(entry);
        assert(entry_models(self.entries@) =~= old(self)@.entries.push(added));
        self.refresh_at(lock_now);
        let ghost mid = self@;
        assert(mid == old(self)@.with_entry(added).refreshed(lock_now as nat));
        self.note(message.as_str(), now);
        assert(old(self)@.adds_entry(self@, added, service@, lock_now as nat, now));
        Ok(())
    }

    /// The entries, where the vault is not locked now.
    pub fn get_entries(&mut self) -> (found: Option<&Vec<Entry>>)
        ensures
            exists|lock_now: nat, now: i64|
                lock_now <= MAX_ELAPSED_NANOS && is_clock_time(now) && #[trigger] old(self)@.reads(final(self)@, found is Some, lock_now, now),
            found matches Some(entries) ==> entry_models(entries@) == old(self)@.entries,
    {
        let lock_now = self.lock_now();
        let now = utc_now_millis();
        self.get_entries_at(lock_now, now)
    }

    /// Opens the entries for reading at `now`: a locked vault refuses, and
    /// records that; otherwise the idle timer starts again, and the
    /// entries can be read from the vault.
    pub fn get_entries_at(&mut self, lock_now: u128, now: i64) -> (found: Option<&Vec<Entry>>)
        ensures
            old(self)@.reads(final(self)@, found is Some, lock_now as nat, now),
            found matches Some(entries) ==> entry_models(entries@) == old(self)@.entries,
    {
        if self.check_and_handle_lock_at(lock_now, now) {
            return None;
        }
        self.refresh_at(lock_now);
        Some(&self.entries)
    }

    /// Removes now the entries for the services that `service_filter`
    /// names, and tells how many they were.
    pub fn remove_entries(&mut self, service_filter: &str) -> (removed: usize)
        ensures
            exists|lock_now: nat, now: i64|
                lock_now <= MAX_ELAPSED_NANOS && is_clock_time(now) && #[trigger] old(self)@.removes(final(self)@, removed as nat, service_filter@, lock_now, now),
    {
        let lock_now = self.lock_now();
        let now = utc_now_millis();
        let removed = self.remove_entries_at(service_filter, lock_now, now);
        assert(old(self)@.removes(self@, removed as nat, service_filter@, lock_now as nat, now));
        removed
    }

    /// Removes at `now` the entries for the services in which
    /// `service_filter` occurs, whatever the case. A locked vault removes
    /// nothing, and records that it is locked. Otherwise the idle timer
    /// starts again, whether or not anything matched, and where entries
    /// were removed the trail records how many.
    pub fn remove_entries_at(&mut self, service_filter: &str, lock_now: u128, now: i64) -> (removed:
        usize)
        ensures
            old(self)@.removes(final(self)@, removed as nat, service_filter@, lock_now as nat, now),
    {
        if self.check_and_handle_lock_at(lock_now, now) {
            return 0;
        }
        let filter = service_filter.to_lowercase();
        let ghost keep = spares_service(service_filter@);
        let ghost initial = entry_models(self.entries@);
        let ghost mut j: int = 0;
        let mut removed: usize = 0;
        let mut i: usize = 0;
        let total = self.entries.len();
        proof {
            reveal(Seq::filter);
            assert(initial.subrange(0, 0) =~= Seq::<EntryModel>::empty());
            assert(entry_models(self.entries@).subrange(0, 0) =~= Seq::<EntryModel>::empty());
            assert(entry_models(self.entries@).subrange(0, self.entries@.len() as int)
                =~= initial.subrange(0, initial.len() as int));
        }
        while i < self.entries.len()
            invariant
                keep == spares_service(service_filter@),
                filter@ == lowercase_text(service_filter@),
                initial == old(self)@.entries,
                initial.len() == total,
                0 <= i <= self.entries@.len(),
                0 <= j <= initial.len(),
                self.entries@.len() - i == initial.len() - j,
                removed == j - i,
                entry_models(self.entries@).subrange(0, i as int) == initial.subrange(0, j).filter(
                    keep,
                ),
                entry_models(self.entries@).subrange(i as int, self.entries@.len() as int)
                    == initial.subrange(j, initial.len() as int),
                self@.lock == old(self)@.lock,
                self@.audit == old(self)@.audit,
                self@.vault_salt == old(self)@.vault_salt,
                self@.pending == old(self)@.pending,
            decreases self.entries@.len() - i,
        {
            let ghost before = entry_models(self.entries@);
            let ghost rest = before.subrange(i as int, before.len() as int);
            assert(before[i as int] == rest[0]);
            assert(rest[0] == initial[j]);
            assert(initial.subrange(0, j + 1) =~= initial.subrange(0, j).push(initial[j]));
            proof {
                initial.subrange(0, j).lemma_filter_push(initial[j], keep);
            }
            let service = self.entries[i].service.as_str().to_lowercase();
            if !str_contains(service.as_str(), filter.as_str()) {
                assert(keep(initial[j]));
                assert(before.subrange(0, i + 1) =~= before.subrange(0, i as int).push(
                    before[i as int],
                ));
                assert(before.subrange(i + 1, before.len() as int) =~= initial.subrange(
                    j + 1,
                    initial.len() as int,
                )) by {
                    assert(before.subrange(i + 1, before.len() as int) =~= rest.subrange(
                        1,
                        rest.len() as int,
                    ));
                }
                i = i + 1;
            } else {
                assert(!keep(initial[j]));
                self.entries.remove(i);
                let ghost after = entry_models(self.entries@);
                assert(after =~= before.remove(i as int));
                assert(after.subrange(0, i as int) =~= before.subrange(0, i as int));
                assert(after.subrange(i as int, after.len() as int) =~= initial.subrange(
                    j + 1,
                    initial.len() as int,
                )) by {
                    assert(after.subrange(i as int, after.len() as int) =~= rest.subrange(
                        1,
                        rest.len() as int,
                    ));
                }
                removed = removed + 1;
            }
            proof {
                j = j + 1;
            }
        }
        assert(entry_models(self.entries@).subrange(0, i as int) =~= entry_models(self.entries@));
        assert(initial.subrange(0, j) =~= initial);
        self.refresh_at(lock_now);
        if removed > 0 {
            let mut message = String::from_str("Removed ");
            message.append(to_decimal(removed as u64).as_str());
            message.append(" entries matching '");
            message.append(service_filter);
            message.append("'");
            self.note(message.as_str(), now);
        }
        removed
    }

    /// Seals the vault under a master password for writing to its file,
    /// with the default cost of the key derivation.
    pub fn save(&mut self, master_password: &str, entries: &[u8]) -> (r: Result<Vec<u8>, VaultError>)
        ensures
            old(self)@.saves(final(self)@, r, master_password@, entries@, default_config()),
    {
        let config = Argon2Config::default();
        self.save_with(master_password, entries, &config)
    }

    /// Seals the vault under a master password for writing to its file.
    /// A vault that has no salt yet is given one of 32 random bytes; a
    /// vault that has one keeps it. `entries` is the serialization of the
    /// vault's entries.
    pub fn save_with(&mut self, master_password: &str, entries: &[u8], config: &Argon2Config) -> (r:
        Result<Vec<u8>, VaultError>)
        ensures
            old(self)@.saves(final(self)@, r, master_password@, entries@, *config),
    {
        if self.vault_salt.is_none() {
            match generate_salt(VAULT_SALT_SIZE) {
                Ok(salt) => {
                    self.vault_salt = Some(salt);
                },
                Err(e) => {
                    return Err(VaultError::Crypto(e));
                },
            }
        }
        let outcome = match &self.vault_salt {
            Some(salt) => seal_envelope(master_password, salt.as_slice(), entries, config),
            None => Err(VaultError::Crypto(CryptoError::RandomSource)),
        };
        match outcome {
            Ok(sealed) => {
                match sealed.warning {
                    Some(text) => {
                        let ghost held = action_models(self.pending@);
                        self.pending.push(AuditAction::Warn(text));
                        assert(action_models(self.pending@) =~= held.push(
                            ActionModel::Warn(text@),
                        ));
                    },
                    None => {},
                }
                Ok(sealed.blob)
            },
            Err(e) => Err(e),
        }
    }

    /// Records now that the vault has been written to its file.
    pub fn record_saved(&mut self)
        ensures
            exists|now: i64|
                is_clock_time(now) && #[trigger] old(self)@.notes(final(self)@, "Vault saved to disk securely"@, now),
    {
        let now = utc_now_millis();
        self.note("Vault saved to disk securely", now);
    }

    /// Opens a vault file with the default cost of the key derivation: as
    /// the current format, and where that fails as the legacy format.
    /// Every failure is the same: nothing tells a wrong password from a
    /// corrupted file.
    pub fn load(master_password: &str, blob: &[u8]) -> (r: Result<Opened, VaultError>)
        ensures
            is_opening(r, opened(master_password@, blob@, default_config())),
    {
        let config = Argon2Config::default();
        open_envelope(master_password, blob, &config)
    }

    /// Opens a vault file under a cost of the key derivation.
    pub fn load_with(master_password: &str, blob: &[u8], config: &Argon2Config) -> (r: Result<
        Opened,
        VaultError,
    >)
        ensures
            is_opening(r, opened(master_password@, blob@, *config)),
    {
        open_envelope(master_password, blob, config)
    }

    /// Opens a vault file as the legacy format alone, with the default cost
    /// of the key derivation.
    pub fn load_legacy(master_password: &str, blob: &[u8]) -> (r: Result<Opened, VaultError>)
        ensures
            is_opening(r, opened_as_legacy(master_password@, blob@, default_config())),
    {
        let config = Argon2Config::default();
        open_legacy_envelope(master_password, blob, &config)
    }

    /// Opens a vault file as the legacy format alone.
    pub fn load_legacy_with(master_password: &str, blob: &[u8], config: &Argon2Config) -> (r:
        Result<Opened, VaultError>)
        ensures
            is_opening(r, opened_as_legacy(master_password@, blob@, *config)),
    {
        open_legacy_envelope(master_password, blob, config)
    }

    /// The vault that stands for a file that does not exist yet: empty,
    /// with the default idle time-out, and with a record of its creation.
    pub fn created() -> (vault: Self)
        ensures
            exists|now: i64|
                is_clock_time(now) && #[trigger] Vault::new_state().notes(vault@, "New vault created"@, now),
    {
        let now = utc_now_millis();
        let mut vault = Self::new(DEFAULT_TIMEOUT_SECS);
        vault.note("New vault created", now);
        vault
    }

    /// The vault that a file opened to: the entries that were read from
    /// it, the salt that it was sealed with, the default idle time-out, and
    /// a record of the loading.
    pub fn loaded(entries: Vec<Entry>, salt: Vec<u8>) -> (vault: Self)
        ensures
            exists|now: i64|
                is_clock_time(now) && #[trigger] Vault::loaded_state(entry_models(entries@), salt@).notes(
                    vault@,
                    "Vault loaded from disk successfully"@,
                    now,
                ),
    {
        let now = utc_now_millis();
        let fresh = Self::new(DEFAULT_TIMEOUT_SECS);
        let mut vault = Self {
            entries,
            lock: fresh.lock,
            audit: fresh.audit,
            vault_salt: Some(salt),
            pending: fresh.pending,
        };
        vault.note("Vault loaded from disk successfully", now);
        vault
    }

    /// The nanoseconds left now until the vault locks for idleness; `None`
    /// where the vault has no guard.
    pub fn get_lock_status(&self) -> (left: Option<u128>)
        ensures
            match left {
                Some(nanos) => self@.lock matches Some(lock) && exists|lock_now: nat|
                    lock_now <= MAX_ELAPSED_NANOS && nanos == #[trigger] lock.time_until_lock(
                        lock_now,
                    ),
                None => self@.lock is None,
            },
    {
        match &self.lock {
            Some(lock) => Some(lock.time_until_lock()),
            None => None,
        }
    }

    /// Figures on the vault, where it is not locked now.
    pub fn get_vault_stats(&mut self) -> (r: Result<VaultStats, VaultError>)
        ensures
            exists|lock_now: nat, now: i64|
                lock_now <= MAX_ELAPSED_NANOS && is_clock_time(now) && #[trigger] old(self)@.counts(final(self)@, r, lock_now, now),
    {
        let lock_now = self.lock_now();
        let now = utc_now_millis();
        let r = self.get_vault_stats_at(lock_now, now);
        assert(old(self)@.counts(self@, r, lock_now as nat, now));
        r
    }

    /// Figures on the vault at `now`. A locked vault refuses, and records
    /// that; otherwise the idle timer starts again.
    pub fn get_vault_stats_at(&mut self, lock_now: u128, now: i64) -> (r: Result<
        VaultStats,
        VaultError,
    >)
        ensures
            old(self)@.counts(final(self)@, r, lock_now as nat, now),
    {
        if self.check_and_handle_lock_at(lock_now, now) {
            return Err(self.refusal_at(lock_now));
        }
        self.refresh_at(lock_now);
        Ok(self.stats())
    }

    /// Figures on the entries.
    fn stats(&self) -> (stats: VaultStats)
        ensures
            stats == stats_of(self@.entries),
    {
        let ghost all = services(entry_models(self.entries@));
        let mut firsts: Vec<usize> = Vec::new();
        let ghost mut distinct: Seq<Seq<char>> = Seq::empty();
        let mut has_duplicates = false;
        let mut i: usize = 0;
        assert(all.subrange(0, 0).to_set() =~= distinct.to_set());
        while i < self.entries.len()
            invariant
                i <= self.entries@.len(),
                all == services(entry_models(self.entries@)),
                firsts@.len() == distinct.len(),
                firsts@.len() <= i,
                forall|k: int|
                    0 <= k < firsts@.len() ==> (#[trigger] firsts@[k]) < i && all[firsts@[k] as int]
                        == distinct[k],
                distinct.no_duplicates(),
                distinct.to_set() == all.subrange(0, i as int).to_set(),
                has_duplicates == !all.subrange(0, i as int).no_duplicates(),
            decreases self.entries@.len() - i,
        {
            let service = self.entries[i].service.as_str();
            let ghost prefix = all.subrange(0, i as int);
            let ghost next = all.subrange(0, i + 1);
            assert(service@ == all[i as int]);
            assert(next =~= prefix.push(service@));
            let mut seen = false;
            let mut k: usize = 0;
            while k < firsts.len()
                invariant
                    k <= firsts@.len(),
                    i < self.entries@.len(),
                    all == services(entry_models(self.entries@)),
                    service@ == all[i as int],
                    firsts@.len() == distinct.len(),
                    forall|m: int|
                        0 <= m < firsts@.len() ==> (#[trigger] firsts@[m]) < i && all[firsts@[m] as int]
                            == distinct[m],
                    seen == (exists|m: int| 0 <= m < k && distinct[m] == service@),
                decreases firsts@.len() - k,
            {
                let at = firsts[k];
                if str_eq(self.entries[at].service.as_str(), service) {
                    assert(distinct[k as int] == service@);
                    seen = true;
                }
                k = k + 1;
            }
            proof {
                prefix.lemma_push_to_set_commute(service@);
                if seen {
                    let m = choose|m: int| 0 <= m < distinct.len() && distinct[m] == service@;
                    assert(distinct.contains(service@));
                    assert(distinct.to_set().contains(service@));
                    assert(prefix.contains(service@));
                    let w = choose|w: int| 0 <= w < prefix.len() && prefix[w] == service@;
                    assert(next[w] == next[i as int]);
                    assert(!next.no_duplicates());
                    assert(distinct.to_set() =~= next.to_set());
                } else {
                    assert(!distinct.contains(service@));
                    assert(!prefix.to_set().contains(service@));
                    assert(!prefix.contains(service@));
                    if prefix.no_duplicates() {
                        assert(next.no_duplicates());
                    } else {
                        let (a, b) = choose|a: int, b: int|
                            0 <= a < prefix.len() && 0 <= b < prefix.len() && a != b && prefix[a]
                                == prefix[b];
                        assert(next[a] == next[b]);
                    }
                }
            }
            if seen {
                has_duplicates = true;
            } else {
                firsts.push(i);
                proof {
                    distinct.lemma_push_to_set_commute(service@);
                    distinct = distinct.push(service@);
                }
            }
            i = i + 1;
        }
        proof {
            assert(all.subrange(0, i as int) =~= all);
            distinct.unique_seq_to_set();
        }
        VaultStats {
            total_entries: self.entries.len(),
            unique_services: firsts.len(),
            has_duplicates,
        }
    }

    /// The entries as CSV: a header, then a line for each entry with its
    /// service, user name and password, a backslash before each comma in
    /// them.
    fn csv(&self) -> (csv: String)
        ensures
            csv@ == csv_export(self@.entries),
    {
        let mut csv = String::from_str("Service,Username,Password\n");
        let ghost all = entry_models(self.entries@);
        let mut i: usize = 0;
        assert(csv_lines(all.subrange(0, 0)) =~= Seq::<char>::empty());
        assert(csv@ =~= csv_export(all.subrange(0, 0)));
        while i < self.entries.len()
            invariant
                i <= self.entries@.len(),
                all == entry_models(self.entries@),
                csv@ == csv_export(all.subrange(0, i as int)),
            decreases self.entries@.len() - i,
        {
            let entry = &self.entries[i];
            let ghost before = csv@;
            append_escaped(&mut csv, entry.service.as_str());
            csv.append(",");
            append_escaped(&mut csv, entry.username.as_str());
            csv.append(",");
            append_escaped(&mut csv, entry.password.as_str());
            csv.append("\n");
            proof {
                reveal_strlit(",");
                reveal_strlit("\n");
                assert(","@ =~= seq![',']);
                assert("\n"@ =~= seq!['\n']);
                let next = all.subrange(0, i + 1);
                assert(next.drop_last() =~= all.subrange(0, i as int));
                assert(next.last() == entry@);
                assert(csv@ =~= before + csv_line(entry@));
                assert(csv@ =~= csv_export(next));
            }
            i = i + 1;
        }
        assert(all.subrange(0, i as int) =~= all);
        csv
    }

    /// Exports the entries now in a format, `json` or `csv` in any case.
    pub fn export_entries(&mut self, format: &str) -> (r: Result<Exported, VaultError>)
        ensures
            exists|lock_now: nat, now: i64|
                lock_now <= MAX_ELAPSED_NANOS && is_clock_time(now) && #[trigger] old(self)@.exports(final(self)@, r, format@, lock_now, now),
    {
        let lock_now = self.lock_now();
        let now = utc_now_millis();
        let r = self.export_entries_at(format, lock_now, now);
        assert(old(self)@.exports(self@, r, format@, lock_now as nat, now));
        r
    }

    /// Exports the entries at `now` in a format, `json` or `csv` in any
    /// case. A locked vault refuses, and records that; another format is
    /// refused. Otherwise the idle timer starts again; CSV is made here,
    /// JSON is left to be made of the entries outside.
    pub fn export_entries_at(&mut self, format: &str, lock_now: u128, now: i64) -> (r: Result<
        Exported,
        VaultError,
    >)
        ensures
            old(self)@.exports(final(self)@, r, format@, lock_now as nat, now),
    {
        if self.check_and_handle_lock_at(lock_now, now) {
            return Err(self.refusal_at(lock_now));
        }
        let lower = format.to_lowercase();
        if str_eq(lower.as_str(), "json") {
            self.refresh_at(lock_now);
            Ok(Exported::Json)
        } else if str_eq(lower.as_str(), "csv") {
            self.refresh_at(lock_now);
            Ok(Exported::Csv(self.csv()))
        } else {
            Err(
                VaultError::InvalidInput(
                    String::from_str("Unsupported format. Use 'json' or 'csv'"),
                ),
            )
        }
    }

    /// The state of a vault that was just made with the default idle
    /// time-out.
    pub open spec fn new_state() -> VaultModel {
        VaultModel {
            entries: Seq::empty(),
            lock: Some(VaultLock::new_state(DEFAULT_TIMEOUT_SECS)),
            audit: Some(AuditLog::new_state()),
            vault_salt: None,
            pending: Seq::empty(),
        }
    }

    /// The state of a vault that a file opened to, before the loading is
    /// recorded.
    pub open spec fn loaded_state(entries: Seq<EntryModel>, salt: Seq<u8>) -> VaultModel {
        VaultModel { entries, vault_salt: Some(salt), ..Vault::new_state() }
    }
}

impl VaultModel {
    /// `after` and `r` are what saving the vault comes to. A vault that has
    /// a salt keeps it; one that has none is given one of 32 bytes, unless
    /// the random source fails. The file is an envelope of that salt and
    /// the entries; it is refused as invalid input exactly where they
    /// cannot be sealed, before any random byte of the cipher is drawn. A
    /// key derivation that was too fast leaves a warning to show. Nothing
    /// else changes.
    pub open spec fn saves(
        self,
        after: VaultModel,
        r: Result<Vec<u8>, VaultError>,
        password: Seq<char>,
        entries: Seq<u8>,
        config: Argon2Config,
    ) -> bool {
        &&& after.entries == self.entries
        &&& after.lock == self.lock
        &&& after.audit == self.audit
        &&& after.pending == self.pending || exists|text: Seq<char>|
            #[trigger] is_derivation_advice(text) && after.pending == self.pending.push(
                ActionModel::Warn(text),
            )
        &&& self.vault_salt is Some ==> after.vault_salt == self.vault_salt
        &&& self.vault_salt is None ==> (match after.vault_salt {
            Some(salt) => salt.len() == 32,
            None => r matches Err(VaultError::Crypto(e)) && e is RandomSource,
        })
        &&& match r {
            Ok(blob) => {
                &&& after.vault_salt matches Some(salt)
                &&& sealable(password, salt, entries, config)
                &&& is_envelope_of(blob@, password, salt, entries, config)
            },
            Err(VaultError::InvalidInput(_)) => {
                &&& after.vault_salt matches Some(salt)
                &&& !sealable(password, salt, entries, config)
            },
            Err(VaultError::Crypto(e)) => {
                &&& e is RandomSource
                &&& after.vault_salt matches Some(salt) ==> sealable(
                    password,
                    salt,
                    entries,
                    config,
                )
            },
            Err(_) => false,
        }
    }

    /// `after` and `locked` are what checking the lock at `now` comes to:
    /// a locked vault has a record of it, another stays as it is.
    pub open spec fn checks_lock(self, after: VaultModel, locked: bool, lock_now: nat, now: i64) -> bool {
        &&& locked == self.locked_at(lock_now)
        &&& locked ==> self.notes(after, locked_message(), now)
        &&& !locked ==> after == self
    }

    /// `after` is the vault once `entry` has been added at `now`: it is the
    /// last entry, the idle timer has started again, and the trail has a
    /// record of it.
    pub open spec fn adds_entry(
        self,
        after: VaultModel,
        entry: EntryModel,
        service: Seq<char>,
        lock_now: nat,
        now: i64,
    ) -> bool {
        self.with_entry(entry).refreshed(lock_now).notes(after, added_message(service), now)
    }

    /// `after` and `r` are what adding an entry at `now` comes to.
    pub open spec fn adds(
        self,
        after: VaultModel,
        r: Result<(), VaultError>,
        id: Seq<char>,
        service: Seq<char>,
        username: Seq<char>,
        password: Seq<char>,
        lock_now: nat,
        now: i64,
    ) -> bool {
        if self.locked_at(lock_now) {
            self.refuses(after, r, lock_now, now)
        } else if trimmed_text(service).len() == 0 || trimmed_text(username).len() == 0 {
            &&& r matches Err(VaultError::InvalidInput(message)) && message@
                == "Service and username cannot be empty!"@
            &&& after == self
        } else if holds_id(self.entries, id) {
            &&& r matches Err(VaultError::InvalidInput(message)) && message@
                == id_in_use_message()
            &&& after == self
        } else {
            &&& r is Ok
            &&& exists|entry: EntryModel|
                {
                    &&& entry.is_new(id, service, username, password, now)
                    &&& #[trigger] self.adds_entry(after, entry, service, lock_now, now)
                }
        }
    }

    /// `after` and `r` are what a locked vault makes of a request at `now`:
    /// it refuses, and has a record of it.
    pub open spec fn refuses<T>(
        self,
        after: VaultModel,
        r: Result<T, VaultError>,
        lock_now: nat,
        now: i64,
    ) -> bool {
        &&& r matches Err(refusal) && self.refuses_with(refusal, lock_now)
        &&& self.notes(after, locked_message(), now)
    }

    /// `after` and `r` are what counting the entries at `now` comes to.
    pub open spec fn counts(
        self,
        after: VaultModel,
        r: Result<VaultStats, VaultError>,
        lock_now: nat,
        now: i64,
    ) -> bool {
        if self.locked_at(lock_now) {
            self.refuses(after, r, lock_now, now)
        } else {
            &&& r matches Ok(stats) && stats == stats_of(self.entries)
            &&& after == self.refreshed(lock_now)
        }
    }

    /// `after` and `r` are what exporting the entries at `now` comes to.
    pub open spec fn exports(
        self,
        after: VaultModel,
        r: Result<Exported, VaultError>,
        format: Seq<char>,
        lock_now: nat,
        now: i64,
    ) -> bool {
        if self.locked_at(lock_now) {
            self.refuses(after, r, lock_now, now)
        } else if lowercase_text(format) == "json"@ {
            &&& r matches Ok(Exported::Json)
            &&& after == self.refreshed(lock_now)
        } else if lowercase_text(format) == "csv"@ {
            &&& r matches Ok(Exported::Csv(csv)) && csv@ == csv_export(self.entries)
            &&& after == self.refreshed(lock_now)
        } else {
            &&& r matches Err(VaultError::InvalidInput(message)) && message@
                == "Unsupported format. Use 'json' or 'csv'"@
            &&& after == self
        }
    }

    /// `after` and `r` are what adding an entry at `now` comes to where no
    /// identifier could be drawn.
    pub open spec fn fails_to_add(
        self,
        after: VaultModel,
        r: Result<(), VaultError>,
        service: Seq<char>,
        username: Seq<char>,
        lock_now: nat,
        now: i64,
    ) -> bool {
        if self.locked_at(lock_now) {
            self.refuses(after, r, lock_now, now)
        } else if trimmed_text(service).len() == 0 || trimmed_text(username).len() == 0 {
            &&& r matches Err(VaultError::InvalidInput(message)) && message@
                == "Service and username cannot be empty!"@
            &&& after == self
        } else {
            &&& r matches Err(VaultError::Crypto(e)) && e is RandomSource
            &&& after == self
        }
    }

    /// `after` and `r` are what adding an entry at `now` comes to, under
    /// the identifier that was drawn, if one was.
    pub open spec fn adds_drawn(
        self,
        after: VaultModel,
        r: Result<(), VaultError>,
        id: Option<Seq<char>>,
        service: Seq<char>,
        username: Seq<char>,
        password: Seq<char>,
        lock_now: nat,
        now: i64,
    ) -> bool {
        match id {
            Some(id) => is_entry_id(id) && self.adds(
                after,
                r,
                id,
                service,
                username,
                password,
                lock_now,
                now,
            ),
            None => self.fails_to_add(after, r, service, username, lock_now, now),
        }
    }

    /// `after` and `found` are what opening the entries for reading at
    /// `now` comes to.
    pub open spec fn reads(self, after: VaultModel, found: bool, lock_now: nat, now: i64) -> bool {
        if self.locked_at(lock_now) {
            !found && self.notes(after, locked_message(), now)
        } else {
            found && after == self.refreshed(lock_now)
        }
    }

    /// `after` and `removed` are what removing at `now` the entries that
    /// `filter` names comes to.
    pub open spec fn removes(
        self,
        after: VaultModel,
        removed: nat,
        filter: Seq<char>,
        lock_now: nat,
        now: i64,
    ) -> bool {
        if self.locked_at(lock_now) {
            removed == 0 && self.notes(after, locked_message(), now)
        } else {
            let kept = self.entries.filter(spares_service(filter));
            &&& removed == self.entries.len() - kept.len()
            &&& if removed == 0 {
                after == (VaultModel { entries: kept, ..self }).refreshed(lock_now)
            } else {
                (VaultModel { entries: kept, ..self }).refreshed(lock_now).notes(
                    after,
                    removed_message(removed, filter),
                    now,
                )
            }
        }
    }
}

/// A locked vault refuses every request, whether it is idle or locked out,
/// and keeps its entries and its salt as they are.
pub proof fn locked_vault_refuses(
    vault: VaultModel,
    after: VaultModel,
    lock_now: nat,
    now: i64,
    text: Seq<char>,
    added: Result<(), VaultError>,
    found: bool,
    removed: nat,
    counted: Result<VaultStats, VaultError>,
    exported: Result<Exported, VaultError>,
)
    requires
        vault.locked_at(lock_now),
    ensures
        vault.adds(after, added, text, text, text, text, lock_now, now) ==> added is Err
            && after.entries == vault.entries && after.vault_salt == vault.vault_salt,
        vault.reads(after, found, lock_now, now) ==> !found && after.entries == vault.entries,
        vault.removes(after, removed, text, lock_now, now) ==> removed == 0 && after.entries
            == vault.entries,
        vault.counts(after, counted, lock_now, now) ==> counted is Err && after.entries
            == vault.entries,
        vault.exports(after, exported, text, lock_now, now) ==> exported is Err && after.entries
            == vault.entries,
{
}

/// Identifiers stay unique in the vault: an entry is taken only under an
/// identifier that none bears, so that entries with distinct identifiers
/// stay so when one is added.
pub proof fn adding_keeps_identifiers_distinct(
    vault: VaultModel,
    after: VaultModel,
    r: Result<(), VaultError>,
    id: Seq<char>,
    service: Seq<char>,
    username: Seq<char>,
    password: Seq<char>,
    lock_now: nat,
    now: i64,
)
    requires
        distinct_ids(vault.entries),
        vault.adds(after, r, id, service, username, password, lock_now, now),
    ensures
        distinct_ids(after.entries),
        r is Ok ==> !holds_id(vault.entries, id) && after.entries.len() == vault.entries.len() + 1
            && after.entries.last().id == id,
        r is Err ==> after.entries == vault.entries,
{
    if r is Ok {
        let entry = choose|entry: EntryModel|
            entry.is_new(id, service, username, password, now) && #[trigger] vault.adds_entry(
                after,
                entry,
                service,
                lock_now,
                now,
            );
        assert(after.entries == vault.entries.push(entry));
        assert forall|i: int, j: int| 0 <= i < j < after.entries.len() implies (
        #[trigger] after.entries[i]).id != (#[trigger] after.entries[j]).id by {
            if j == after.entries.len() - 1 {
                assert(vault.entries[i].id != id);
            } else {
                assert(vault.entries[i].id != vault.entries[j].id);
            }
        }
    }
}

/// The entries that are kept of entries with distinct identifiers have
/// distinct identifiers.
pub proof fn kept_entries_keep_distinct_ids(entries: Seq<EntryModel>, keep: spec_fn(EntryModel) -> bool)
    requires
        distinct_ids(entries),
    ensures
        distinct_ids(entries.filter(keep)),
        forall|k: int|
            0 <= k < entries.filter(keep).len() ==> holds_id(
                entries,
                (#[trigger] entries.filter(keep)[k]).id,
            ),
    decreases entries.len(),
{
    reveal(Seq::filter);
    if entries.len() > 0 {
        let front = entries.drop_last();
        let last = entries.last();
        assert forall|i: int, j: int| 0 <= i < j < front.len() implies (#[trigger] front[i]).id != (
        #[trigger] front[j]).id by {
            assert(entries[i].id != entries[j].id);
        }
        kept_entries_keep_distinct_ids(front, keep);
        let kept = front.filter(keep);
        assert forall|k: int| 0 <= k < kept.len() implies holds_id(entries, (#[trigger] kept[k]).id)
            && kept[k].id != last.id by {
            assert(holds_id(front, kept[k].id));
            let at = choose|at: int| 0 <= at < front.len() && (#[trigger] front[at]).id == kept[k].id;
            assert(entries[at].id == kept[k].id);
            assert(entries[at].id != entries[entries.len() - 1].id);
        }
        if keep(last) {
            assert(entries.filter(keep) == kept.push(last));
            assert(entries[entries.len() - 1].id == last.id);
        } else {
            assert(entries.filter(keep) == kept);
        }
    }
}

/// Removing entries keeps the identifiers of the others distinct.
pub proof fn removing_keeps_identifiers_distinct(
    vault: VaultModel,
    after: VaultModel,
    removed: nat,
    filter: Seq<char>,
    lock_now: nat,
    now: i64,
)
    requires
        distinct_ids(vault.entries),
        vault.removes(after, removed, filter, lock_now, now),
    ensures
        distinct_ids(after.entries),
{
    kept_entries_keep_distinct_ids(vault.entries, spares_service(filter));
}

/// After five failed attempts in a row the vault refuses every request
/// until the lock-out has run, however recently it was used.
pub proof fn five_failures_lock_the_vault(vault: VaultModel, times: Seq<nat>, lock_now: nat)
    requires
        vault.lock matches Some(lock) && lock.failed_attempts == 0 && lock.max_failed_attempts
            == 5,
        times.len() == 5,
        lock_now < times.last() + vault.lock.unwrap().lockout_duration,
    ensures
        (VaultModel {
            lock: Some(vault.lock.unwrap().after_failures(times)),
            ..vault
        }).locked_at(lock_now),
{
    crate::security::lockout_after_repeated_failures(vault.lock.unwrap(), times, lock_now);
}

} // verus!
