//! Versioned configuration storage.
//!
//! Configuration lives in two tiers: the long-lived tier (written from
//! schema version 3 on) and the legacy tier that earlier versions used.
//! Reads prefer the long-lived tier and fall back to the legacy tier only
//! while the stored schema version is below 3; migration moves every key
//! over.
use crate::types::Addr;
use vstd::prelude::*;

verus! {

/// The schema version that this code writes.
pub const STORAGE_VERSION: u32 = 3;

/// The configuration keys that live in either tier.
#[derive(Debug, Clone, Copy, PartialEq, Eq, Structural)]
pub enum ConfigKey {
    Token,
    Admin,
    MinTopup,
    NextId,
    EmergencyStop,
    Treasury,
    FeeBps,
    Operator,
    SchemaVersion,
}

/// A stored configuration value.
#[derive(Debug, Clone, Copy, PartialEq, Eq, Structural)]
pub enum ConfigValue {
    Address(Addr),
    Amount(i128),
    Count(u32),
    Flag(bool),
}

/// Whether `value` has the kind that `key` holds.
pub open spec fn kind_fits(key: ConfigKey, value: ConfigValue) -> bool {
    match key {
        ConfigKey::Token | ConfigKey::Admin | ConfigKey::Treasury | ConfigKey::Operator => value is Address,
        ConfigKey::MinTopup => value is Amount,
        ConfigKey::NextId | ConfigKey::FeeBps | ConfigKey::SchemaVersion => value is Count,
        ConfigKey::EmergencyStop => value is Flag,
    }
}

/// One storage tier's configuration entries.
#[derive(Debug, Clone, Copy)]
pub struct ConfigTier {
    pub token: Option<Addr>,
    pub admin: Option<Addr>,
    pub min_topup: Option<i128>,
    pub next_id: Option<u32>,
    pub emergency_stop: Option<bool>,
    pub treasury: Option<Addr>,
    pub fee_bps: Option<u32>,
    pub operator: Option<Addr>,
    pub schema_version: Option<u32>,
}

pub open spec fn address_value(o: Option<Addr>) -> Option<ConfigValue> {
    match o {
        Some(a) => Some(ConfigValue::Address(a)),
        None => None,
    }
}

pub open spec fn amount_value(o: Option<i128>) -> Option<ConfigValue> {
    match o {
        Some(a) => Some(ConfigValue::Amount(a)),
        None => None,
    }
}

pub open spec fn count_value(o: Option<u32>) -> Option<ConfigValue> {
    match o {
        Some(a) => Some(ConfigValue::Count(a)),
        None => None,
    }
}

pub open spec fn flag_value(o: Option<bool>) -> Option<ConfigValue> {
    match o {
        Some(a) => Some(ConfigValue::Flag(a)),
        None => None,
    }
}

impl ConfigTier {
    /// A tier that holds nothing.
    pub fn empty() -> (t: Self)
        ensures
            forall|k: ConfigKey| t.lookup(k) is None,
    {
        ConfigTier {
            token: None,
            admin: None,
            min_topup: None,
            next_id: None,
            emergency_stop: None,
            treasury: None,
            fee_bps: None,
            operator: None,
            schema_version: None,
        }
    }

    /// The value stored under `key`, if any.
    pub open spec fn lookup(self, key: ConfigKey) -> Option<ConfigValue> {
        match key {
            ConfigKey::Token => address_value(self.token),
            ConfigKey::Admin => address_value(self.admin),
            ConfigKey::MinTopup => amount_value(self.min_topup),
            ConfigKey::NextId => count_value(self.next_id),
            ConfigKey::EmergencyStop => flag_value(self.emergency_stop),
            ConfigKey::Treasury => address_value(self.treasury),
            ConfigKey::FeeBps => count_value(self.fee_bps),
            ConfigKey::Operator => address_value(self.operator),
            ConfigKey::SchemaVersion => count_value(self.schema_version),
        }
    }

    /// The value stored under `key`, if any.
    pub fn get(&self, key: ConfigKey) -> (r: Option<ConfigValue>)
        ensures
            r == self.lookup(key),
    {
        match key {
            ConfigKey::Token => match self.token {
                Some(a) => Some(ConfigValue::Address(a)),
                None => None,
            },
            ConfigKey::Admin => match self.admin {
                Some(a) => Some(ConfigValue::Address(a)),
                None => None,
            },
            ConfigKey::MinTopup => match self.min_topup {
                Some(a) => Some(ConfigValue::Amount(a)),
                None => None,
            },
            ConfigKey::NextId => match self.next_id {
                Some(a) => Some(ConfigValue::Count(a)),
                None => None,
            },
            ConfigKey::EmergencyStop => match self.emergency_stop {
                Some(a) => Some(ConfigValue::Flag(a)),
                None => None,
            },
            ConfigKey::Treasury => match self.treasury {
                Some(a) => Some(ConfigValue::Address(a)),
                None => None,
            },
            ConfigKey::FeeBps => match self.fee_bps {
                Some(a) => Some(ConfigValue::Count(a)),
                None => None,
            },
            ConfigKey::Operator => match self.operator {
                Some(a) => Some(ConfigValue::Address(a)),
                None => None,
            },
            ConfigKey::SchemaVersion => match self.schema_version {
                Some(a) => Some(ConfigValue::Count(a)),
                None => None,
            },
        }
    }

    /// Whether a value is stored under `key`.
    pub fn has(&self, key: ConfigKey) -> (r: bool)
        ensures
            r == self.lookup(key) is Some,
    {
        self.get(key).is_some()
    }

    /// Stores `value` under `key`, leaving every other key as it was.
    pub fn set(&mut self, key: ConfigKey, value: ConfigValue)
        requires
            kind_fits(key, value),
        ensures
            final(self).lookup(key) == Some(value),
            forall|k: ConfigKey| k != key ==> final(self).lookup(k) == old(self).lookup(k),
    {
        match (key, value) {
            (ConfigKey::Token, ConfigValue::Address(a)) => self.token = Some(a),
            (ConfigKey::Admin, ConfigValue::Address(a)) => self.admin = Some(a),
            (ConfigKey::MinTopup, ConfigValue::Amount(a)) => self.min_topup = Some(a),
            (ConfigKey::NextId, ConfigValue::Count(a)) => self.next_id = Some(a),
            (ConfigKey::EmergencyStop, ConfigValue::Flag(a)) => self.emergency_stop = Some(a),
            (ConfigKey::Treasury, ConfigValue::Address(a)) => self.treasury = Some(a),
            (ConfigKey::FeeBps, ConfigValue::Count(a)) => self.fee_bps = Some(a),
            (ConfigKey::Operator, ConfigValue::Address(a)) => self.operator = Some(a),
            (ConfigKey::SchemaVersion, ConfigValue::Count(a)) => self.schema_version = Some(a),
            _ => {},
        }
    }

    /// Removes whatever is stored under `key`, leaving every other key as it was.
    pub fn remove(&mut self, key: ConfigKey)
        ensures
            final(self).lookup(key) is None,
            forall|k: ConfigKey| k != key ==> final(self).lookup(k) == old(self).lookup(k),
    {
        match key {
            ConfigKey::Token => self.token = None,
            ConfigKey::Admin => self.admin = None,
            ConfigKey::MinTopup => self.min_topup = None,
            ConfigKey::NextId => self.next_id = None,
            ConfigKey::EmergencyStop => self.emergency_stop = None,
            ConfigKey::Treasury => self.treasury = None,
            ConfigKey::FeeBps => self.fee_bps = None,
            ConfigKey::Operator => self.operator = None,
            ConfigKey::SchemaVersion => self.schema_version = None,
        }
    }
}

/// Both configuration tiers.
#[derive(Debug, Clone, Copy)]
pub struct ConfigStore {
    /// The long-lived tier.
    pub persistent: ConfigTier,
    /// The legacy tier.
    pub instance: ConfigTier,
}

/// The stored schema version: the long-lived tier's, else the legacy
/// tier's, else 0.
pub open spec fn schema_version_of(store: ConfigStore) -> u32 {
    match store.persistent.schema_version {
        Some(v) => v,
        None => match store.instance.schema_version {
            Some(v) => v,
            None => 0,
        },
    }
}

/// What a configuration read returns: the long-lived value, else, below
/// schema version 3, the legacy value.
pub open spec fn config_read(store: ConfigStore, key: ConfigKey) -> Option<ConfigValue> {
    if store.persistent.lookup(key) is Some {
        store.persistent.lookup(key)
    } else if schema_version_of(store) < 3 {
        store.instance.lookup(key)
    } else {
        None
    }
}

/// The keys that migration moves into the long-lived tier (the schema
/// version itself is handled on its own).
pub open spec fn is_migrated_key(key: ConfigKey) -> bool {
    key != ConfigKey::SchemaVersion
}

/// The store after moving every configuration key into the long-lived tier
/// and recording schema version 3 there.
pub open spec fn migrated_store_spec(before: ConfigStore, after: ConfigStore) -> bool {
    &&& forall|k: ConfigKey| #![trigger after.persistent.lookup(k)] is_migrated_key(k) ==> {
        after.persistent.lookup(k) == if before.instance.lookup(k) is Some {
            before.instance.lookup(k)
        } else {
            before.persistent.lookup(k)
        }
    }
    &&& forall|k: ConfigKey| #[trigger] after.instance.lookup(k) is None
    &&& after.persistent.schema_version == Some(3u32)
}

impl ConfigStore {
    /// A store with both tiers empty.
    pub fn empty() -> (s: Self)
        ensures
            forall|k: ConfigKey| s.persistent.lookup(k) is None && s.instance.lookup(k) is None,
    {
        ConfigStore { persistent: ConfigTier::empty(), instance: ConfigTier::empty() }
    }
}

/// The stored schema version (0 when none was ever written).
pub fn get_schema_version(store: &ConfigStore) -> (v: u32)
    ensures
        v == schema_version_of(*store),
{
    if let Some(v) = store.persistent.schema_version {
        v
    } else if let Some(v) = store.instance.schema_version {
        v
    } else {
        0
    }
}

/// Reads a configuration value, falling back to the legacy tier below
/// schema version 3.
pub fn read_config(store: &ConfigStore, key: ConfigKey) -> (r: Option<ConfigValue>)
    ensures
        r == config_read(*store, key),
{
    if let Some(v) = store.persistent.get(key) {
        return Some(v);
    }
    if get_schema_version(store) < 3 {
        if let Some(v) = store.instance.get(key) {
            return Some(v);
        }
    }
    None
}

/// The store after writing `value` under `key`: into the long-lived tier
/// (clearing the legacy copy) from schema version 3 on, into the legacy
/// tier before; every other entry unchanged.
pub open spec fn config_written(before: ConfigStore, after: ConfigStore, key: ConfigKey, value: ConfigValue) -> bool {
    if schema_version_of(before) >= 3 {
        &&& after.persistent.lookup(key) == Some(value)
        &&& after.instance.lookup(key) is None
        &&& forall|k: ConfigKey|
            k != key ==> after.persistent.lookup(k) == before.persistent.lookup(k)
                && after.instance.lookup(k) == before.instance.lookup(k)
    } else {
        &&& after.persistent == before.persistent
        &&& after.instance.lookup(key) == Some(value)
        &&& forall|k: ConfigKey| k != key ==> after.instance.lookup(k) == before.instance.lookup(k)
    }
}

/// Writes a configuration value: into the long-lived tier (clearing the
/// legacy copy) from schema version 3 on, into the legacy tier before.
pub fn write_config(store: &mut ConfigStore, key: ConfigKey, value: ConfigValue)
    requires
        kind_fits(key, value),
    ensures
        config_written(*old(store), *final(store), key, value),
{
    let version = get_schema_version(store);
    if version >= 3 {
        store.persistent.set(key, value);
        store.instance.remove(key);
    } else {
        store.instance.set(key, value);
    }
}

/// Whether a configuration read would find a value.
pub fn has_config(store: &ConfigStore, key: ConfigKey) -> (r: bool)
    ensures
        r == config_read(*store, key) is Some,
{
    if store.persistent.has(key) {
        return true;
    }
    if get_schema_version(store) < 3 {
        if store.instance.has(key) {
            return true;
        }
    }
    false
}

/// Removes a configuration value from both tiers.
pub fn remove_config(store: &mut ConfigStore, key: ConfigKey)
    ensures
        final(store).persistent.lookup(key) is None,
        final(store).instance.lookup(key) is None,
        forall|k: ConfigKey|
            k != key ==> final(store).persistent.lookup(k) == old(store).persistent.lookup(k)
                && final(store).instance.lookup(k) == old(store).instance.lookup(k),
{
    store.persistent.remove(key);
    store.instance.remove(key);
}

/// Moves one key from the legacy tier into the long-lived tier, when the
/// legacy tier holds it.
fn move_to_persistent(store: &mut ConfigStore, key: ConfigKey)
    requires
        is_migrated_key(key),
    ensures
        final(store).persistent.lookup(key) == if old(store).instance.lookup(key) is Some {
            old(store).instance.lookup(key)
        } else {
            old(store).persistent.lookup(key)
        },
        final(store).instance.lookup(key) is None,
        forall|k: ConfigKey|
            k != key ==> final(store).persistent.lookup(k) == old(store).persistent.lookup(k)
                && final(store).instance.lookup(k) == old(store).instance.lookup(k),
{
    if let Some(v) = store.instance.get(key) {
        store.persistent.set(key, v);
        store.instance.remove(key);
    }
}

/// Moves every configuration key from the legacy tier into the long-lived
/// tier and records schema version 3 there. A key that only the long-lived
/// tier holds is kept; one that the legacy tier holds wins.
pub fn do_migrate_config_to_persistent_internal(store: &mut ConfigStore) -> (r: Result<
    (),
    crate::error::Error,
>)
    ensures
        r is Ok,
        migrated_store_spec(*old(store), *final(store)),
{
    move_to_persistent(store, ConfigKey::Token);
    move_to_persistent(store, ConfigKey::Admin);
    move_to_persistent(store, ConfigKey::MinTopup);
    move_to_persistent(store, ConfigKey::NextId);
    move_to_persistent(store, ConfigKey::EmergencyStop);
    move_to_persistent(store, ConfigKey::Treasury);
    move_to_persistent(store, ConfigKey::FeeBps);
    move_to_persistent(store, ConfigKey::Operator);
    store.persistent.set(ConfigKey::SchemaVersion, ConfigValue::Count(3));
    store.instance.remove(ConfigKey::SchemaVersion);
    Ok(())
}

/// Read after write: once a value is written under a key other than the
/// schema version, reading that key gives the value back, unless the write
/// went to the legacy tier while the long-lived tier still holds an older
/// copy of the key (which reads keep preferring).
pub proof fn lemma_read_after_write(
    before: ConfigStore,
    after: ConfigStore,
    key: ConfigKey,
    value: ConfigValue,
)
    requires
        key != ConfigKey::SchemaVersion,
        config_written(before, after, key, value),
        schema_version_of(before) >= 3 || before.persistent.lookup(key) is None,
    ensures
        config_read(after, key) == Some(value),
        schema_version_of(after) == schema_version_of(before),
{
    assert(after.persistent.lookup(ConfigKey::SchemaVersion) == before.persistent.lookup(ConfigKey::SchemaVersion));
    assert(after.instance.lookup(ConfigKey::SchemaVersion) == before.instance.lookup(ConfigKey::SchemaVersion));
}

/// A write below schema version 3 survives the migration to version 3:
/// writing `value` under a key and then migrating leaves reads of that key
/// returning `value`, whatever either tier held for it before.
pub proof fn lemma_write_survives_migration(
    s1: ConfigStore,
    s2: ConfigStore,
    s3: ConfigStore,
    key: ConfigKey,
    value: ConfigValue,
)
    requires
        schema_version_of(s1) < 3,
        is_migrated_key(key),
        config_written(s1, s2, key, value),
        migrated_store_spec(s2, s3),
    ensures
        config_read(s3, key) == Some(value),
        schema_version_of(s3) == 3,
{
    assert(s3.persistent.lookup(key) == if s2.instance.lookup(key) is Some {
        s2.instance.lookup(key)
    } else {
        s2.persistent.lookup(key)
    });
}

/// A write under one key (other than the schema version) leaves what every
/// other key reads unchanged.
pub proof fn lemma_write_leaves_other_keys(
    before: ConfigStore,
    after: ConfigStore,
    key: ConfigKey,
    value: ConfigValue,
    other: ConfigKey,
)
    requires
        key != ConfigKey::SchemaVersion,
        other != key,
        config_written(before, after, key, value),
    ensures
        config_read(after, other) == config_read(before, other),
{
    assert(after.persistent.lookup(ConfigKey::SchemaVersion) == before.persistent.lookup(ConfigKey::SchemaVersion));
    assert(after.instance.lookup(ConfigKey::SchemaVersion) == before.instance.lookup(ConfigKey::SchemaVersion));
}

/// Migration loses no configuration: every key that only one tier held
/// before a migration from a version below 3 reads the same value after it.
/// (When both tiers held a key, the legacy copy wins, so the read may change.)
pub proof fn lemma_migration_preserves_reads(before: ConfigStore, after: ConfigStore, key: ConfigKey)
    requires
        migrated_store_spec(before, after),
        schema_version_of(before) < 3,
        is_migrated_key(key),
        !(before.persistent.lookup(key) is Some && before.instance.lookup(key) is Some),
    ensures
        config_read(after, key) == config_read(before, key),
        schema_version_of(after) == 3,
{
    assert(after.persistent.lookup(key) == if before.instance.lookup(key) is Some {
        before.instance.lookup(key)
    } else {
        before.persistent.lookup(key)
    });
}

/// Migrating a second time changes nothing: the legacy tier is empty after
/// the first run.
pub proof fn lemma_migration_idempotent(s1: ConfigStore, s2: ConfigStore, s3: ConfigStore, key: ConfigKey)
    requires
        migrated_store_spec(s1, s2),
        migrated_store_spec(s2, s3),
    ensures
        s3.persistent.lookup(key) == s2.persistent.lookup(key),
        s3.instance.lookup(key) == s2.instance.lookup(key),
{
    assert(s2.instance.lookup(key) is None);
    assert(s3.instance.lookup(key) is None);
    if is_migrated_key(key) {
        assert(s3.persistent.lookup(key) == s2.persistent.lookup(key));
    }
}

} // verus!
