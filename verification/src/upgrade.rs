//! Protocol upgrades: their configuration, their results, and the new versions that they give to the
//! system contracts.

use crate::collections::{MapKey, VecMap, VecSet};
use crate::hash::{same_bytes, Digest};
use crate::keys::{Key, URef};
use crate::ordered::{OrdKey, OrderedMap};
use crate::types::{EraId, ProtocolVersion};
use num_rational::Ratio;
use std::rc::Rc;
use vstd::prelude::*;
use vstd::string::StringExecFns;

verus! {

/// Declares the rational numbers of `num_rational`. They are handed through and never looked into.
#[verifier::external_type_specification]
#[verifier::external_body]
#[verifier::reject_recursive_types(T)]
pub struct ExRatio<T>(Ratio<T>);

/// The first block to which an upgrade applies.
pub type ActivationPoint = u64;

/// The hash of a contract or of a contract package.
pub type ContractHash = [u8; 32];

/// A value was not of the type that it should have been.
#[derive(Debug)]
pub struct TypeMismatch {
    pub expected: String,
    pub found: String,
}

/// Why bytes could not be read or written.
#[derive(Clone, Copy, Debug, PartialEq, Eq, Structural)]
pub enum BytesreprError {
    /// Early end of stream while deserializing.
    EarlyEndOfStream,
    /// Formatting error while deserializing.
    Formatting,
    /// Not all input bytes were consumed.
    LeftOverBytes,
    /// Out of memory error.
    OutOfMemory,
}

/// What came of committing changes to the global state.
#[derive(Debug)]
pub enum CommitResult {
    RootNotFound,
    KeyNotFound(Key),
    TypeMismatch(TypeMismatch),
    Serialization(BytesreprError),
    Success {
        state_root: Digest,
    },
}

/// What came of an upgrade with the effect `E`.
#[derive(Debug)]
pub enum UpgradeResult<E> {
    RootNotFound,
    KeyNotFound(Key),
    TypeMismatch(TypeMismatch),
    Serialization(BytesreprError),
    Success {
        post_state_hash: Digest,
        effect: E,
    },
}

impl<E> UpgradeResult<E> {
    /// Returns the result of an upgrade whose effect was committed with the given result.
    pub fn from_commit_result(commit_result: CommitResult, effect: E) -> (r: UpgradeResult<E>)
        ensures
            r == match commit_result {
                CommitResult::RootNotFound => UpgradeResult::<E>::RootNotFound,
                CommitResult::KeyNotFound(key) => UpgradeResult::<E>::KeyNotFound(key),
                CommitResult::TypeMismatch(type_mismatch) => UpgradeResult::<E>::TypeMismatch(type_mismatch),
                CommitResult::Serialization(error) => UpgradeResult::<E>::Serialization(error),
                CommitResult::Success { state_root } => UpgradeResult::<E>::Success {
                    post_state_hash: state_root,
                    effect,
                },
            },
    {
        match commit_result {
            CommitResult::RootNotFound => UpgradeResult::RootNotFound,
            CommitResult::KeyNotFound(key) => UpgradeResult::KeyNotFound(key),
            CommitResult::TypeMismatch(type_mismatch) => UpgradeResult::TypeMismatch(type_mismatch),
            CommitResult::Serialization(error) => UpgradeResult::Serialization(error),
            CommitResult::Success { state_root } => UpgradeResult::Success { post_state_hash: state_root, effect },
        }
    }

    /// Returns the text of this result, given the text of what it carries.
    pub fn to_text(&self, detail: &str) -> (r: String)
        ensures
            r@ == match *self {
                UpgradeResult::RootNotFound => "Root not found"@,
                UpgradeResult::KeyNotFound(_) => "Key not found: "@ + detail@,
                UpgradeResult::TypeMismatch(_) => "Type mismatch: "@ + detail@,
                UpgradeResult::Serialization(_) => "Serialization error: "@ + detail@,
                UpgradeResult::Success { .. } => "Success: "@ + detail@,
            },
    {
        match self {
            UpgradeResult::RootNotFound => String::from_str("Root not found"),
            UpgradeResult::KeyNotFound(_) => String::from_str("Key not found: ").concat(detail),
            UpgradeResult::TypeMismatch(_) => String::from_str("Type mismatch: ").concat(detail),
            UpgradeResult::Serialization(_) => String::from_str("Serialization error: ").concat(detail),
            UpgradeResult::Success { .. } => String::from_str("Success: ").concat(detail),
        }
    }
}

/// What an upgrade changes. `W` are the costs and limits of contract code.
#[derive(Debug)]
pub struct UpgradeConfig<W> {
    pre_state_hash: Digest,
    current_protocol_version: ProtocolVersion,
    new_protocol_version: ProtocolVersion,
    wasm_config: Option<W>,
    activation_point: Option<ActivationPoint>,
    new_validator_slots: Option<u32>,
    new_auction_delay: Option<u64>,
    new_locked_funds_period: Option<EraId>,
    new_round_seigniorage_rate: Option<Ratio<u64>>,
    new_unbonding_delay: Option<EraId>,
    new_wasmless_transfer_cost: Option<u64>,
}

/// What an upgrade changes.
pub ghost struct ConfigModel<W> {
    pub pre_state_hash: Digest,
    pub current_protocol_version: ProtocolVersion,
    pub new_protocol_version: ProtocolVersion,
    pub wasm_config: Option<W>,
    pub activation_point: Option<ActivationPoint>,
    pub new_validator_slots: Option<u32>,
    pub new_auction_delay: Option<u64>,
    pub new_locked_funds_period: Option<EraId>,
    pub new_round_seigniorage_rate: Option<Ratio<u64>>,
    pub new_unbonding_delay: Option<EraId>,
    pub new_wasmless_transfer_cost: Option<u64>,
}

impl<W> View for UpgradeConfig<W> {
    type V = ConfigModel<W>;

    closed spec fn view(&self) -> ConfigModel<W> {
        ConfigModel {
            pre_state_hash: self.pre_state_hash,
            current_protocol_version: self.current_protocol_version,
            new_protocol_version: self.new_protocol_version,
            wasm_config: self.wasm_config,
            activation_point: self.activation_point,
            new_validator_slots: self.new_validator_slots,
            new_auction_delay: self.new_auction_delay,
            new_locked_funds_period: self.new_locked_funds_period,
            new_round_seigniorage_rate: self.new_round_seigniorage_rate,
            new_unbonding_delay: self.new_unbonding_delay,
            new_wasmless_transfer_cost: self.new_wasmless_transfer_cost,
        }
    }
}

impl<W> UpgradeConfig<W> {
    /// Creates a configuration of what is given.
    pub fn new(
        pre_state_hash: Digest,
        current_protocol_version: ProtocolVersion,
        new_protocol_version: ProtocolVersion,
        wasm_config: Option<W>,
        activation_point: Option<ActivationPoint>,
        new_validator_slots: Option<u32>,
        new_auction_delay: Option<u64>,
        new_locked_funds_period: Option<EraId>,
        new_round_seigniorage_rate: Option<Ratio<u64>>,
        new_unbonding_delay: Option<EraId>,
        new_wasmless_transfer_cost: Option<u64>,
    ) -> (r: UpgradeConfig<W>)
        ensures
            r@ == (ConfigModel {
                pre_state_hash,
                current_protocol_version,
                new_protocol_version,
                wasm_config,
                activation_point,
                new_validator_slots,
                new_auction_delay,
                new_locked_funds_period,
                new_round_seigniorage_rate,
                new_unbonding_delay,
                new_wasmless_transfer_cost,
            }),
    {
        UpgradeConfig {
            pre_state_hash,
            current_protocol_version,
            new_protocol_version,
            wasm_config,
            activation_point,
            new_validator_slots,
            new_auction_delay,
            new_locked_funds_period,
            new_round_seigniorage_rate,
            new_unbonding_delay,
            new_wasmless_transfer_cost,
        }
    }

    /// Returns the root hash of the global state before the upgrade.
    pub fn pre_state_hash(&self) -> (r: Digest)
        ensures
            r == self@.pre_state_hash,
    {
        self.pre_state_hash
    }

    /// Returns the version before the upgrade.
    pub fn current_protocol_version(&self) -> (r: ProtocolVersion)
        ensures
            r == self@.current_protocol_version,
    {
        self.current_protocol_version
    }

    /// Returns the version after the upgrade.
    pub fn new_protocol_version(&self) -> (r: ProtocolVersion)
        ensures
            r == self@.new_protocol_version,
    {
        self.new_protocol_version
    }

    /// Returns the new costs and limits of contract code.
    pub fn wasm_config(&self) -> (r: Option<&W>)
        ensures
            match r {
                Some(config) => self@.wasm_config == Some(*config),
                None => self@.wasm_config is None,
            },
    {
        match &self.wasm_config {
            Some(config) => Some(config),
            None => None,
        }
    }

    /// Returns the first block to which the upgrade applies.
    pub fn activation_point(&self) -> (r: Option<u64>)
        ensures
            r == self@.activation_point,
    {
        self.activation_point
    }

    /// Returns the new number of validators.
    pub fn new_validator_slots(&self) -> (r: Option<u32>)
        ensures
            r == self@.new_validator_slots,
    {
        self.new_validator_slots
    }

    /// Returns the new number of eras between an auction and its era.
    pub fn new_auction_delay(&self) -> (r: Option<u64>)
        ensures
            r == self@.new_auction_delay,
    {
        self.new_auction_delay
    }

    /// Returns the new number of eras for which genesis funds are locked.
    pub fn new_locked_funds_period(&self) -> (r: Option<EraId>)
        ensures
            r == self@.new_locked_funds_period,
    {
        self.new_locked_funds_period
    }

    /// Returns the new share of new tokens per round.
    pub fn new_round_seigniorage_rate(&self) -> (r: Option<Ratio<u64>>)
        ensures
            r == self@.new_round_seigniorage_rate,
    {
        self.new_round_seigniorage_rate
    }

    /// Returns the new number of eras until unbonded stakes are paid out.
    pub fn new_unbonding_delay(&self) -> (r: Option<EraId>)
        ensures
            r == self@.new_unbonding_delay,
    {
        self.new_unbonding_delay
    }

    /// Returns the new cost of a transfer that runs no contract code.
    pub fn new_wasmless_transfer_cost(&self) -> (r: Option<u64>)
        ensures
            r == self@.new_wasmless_transfer_cost,
    {
        self.new_wasmless_transfer_cost
    }
}

/// Why an upgrade failed.
#[derive(Clone, Debug)]
pub enum ProtocolUpgradeError {
    /// Invalid upgrade config
    InvalidUpgradeConfig,
    /// Unable to retrieve the named system contract
    UnableToRetrieveSystemContract(String),
    /// Unable to retrieve the package of the named system contract
    UnableToRetrieveSystemContractPackage(String),
    /// Failed to disable the previous version of the named system contract
    FailedToDisablePreviousVersion(String),
}

impl ProtocolUpgradeError {
    /// Returns the text of this error.
    pub fn to_text(&self) -> (r: String)
        ensures
            r@ == match *self {
                ProtocolUpgradeError::InvalidUpgradeConfig => "Invalid upgrade config"@,
                ProtocolUpgradeError::UnableToRetrieveSystemContract(name) => "Unable to retrieve system contract: "@
                    + name@,
                ProtocolUpgradeError::UnableToRetrieveSystemContractPackage(name) =>
                    "Unable to retrieve system contract package: "@ + name@,
                ProtocolUpgradeError::FailedToDisablePreviousVersion(name) =>
                    "Failed to disable previous version of system contract: "@ + name@,
            },
    {
        match self {
            ProtocolUpgradeError::InvalidUpgradeConfig => String::from_str("Invalid upgrade config"),
            ProtocolUpgradeError::UnableToRetrieveSystemContract(name) => String::from_str(
                "Unable to retrieve system contract: ",
            ).concat(name.as_str()),
            ProtocolUpgradeError::UnableToRetrieveSystemContractPackage(name) => String::from_str(
                "Unable to retrieve system contract package: ",
            ).concat(name.as_str()),
            ProtocolUpgradeError::FailedToDisablePreviousVersion(name) => String::from_str(
                "Failed to disable previous version of system contract: ",
            ).concat(name.as_str()),
        }
    }
}

/// The number of a version of a contract: the major protocol version for which it was made, and a
/// running number.
#[derive(Clone, Copy, Debug, PartialEq, Eq, Structural)]
pub struct ContractVersionKey {
    pub major: u32,
    pub version: u32,
}

impl MapKey for ContractVersionKey {
    fn same(&self, other: &ContractVersionKey) -> (b: bool) {
        self.major == other.major && self.version == other.version
    }
}

impl OrdKey for ContractVersionKey {
    open spec fn before(self, other: ContractVersionKey) -> bool {
        self.major < other.major || (self.major == other.major && self.version < other.version)
    }

    proof fn lemma_order(a: ContractVersionKey, b: ContractVersionKey, c: ContractVersionKey) {
    }

    fn precedes(&self, other: &ContractVersionKey) -> (b: bool) {
        self.major < other.major || (self.major == other.major && self.version < other.version)
    }
}

/// A contract.
#[derive(Debug)]
pub struct Contract {
    /// The hash of the package to which the contract belongs.
    pub contract_package_hash: ContractHash,
    /// The hash of the code.
    pub contract_wasm_hash: ContractHash,
    /// The keys that the contract knows by name.
    pub named_keys: Rc<Vec<(String, Key)>>,
    /// The entry points, serialized.
    pub entry_points: Rc<Vec<u8>>,
    /// The version for which the contract was made.
    pub protocol_version: ProtocolVersion,
}

impl Contract {
    /// Returns a copy for another version.
    pub fn with_protocol_version(&self, protocol_version: ProtocolVersion) -> (r: Contract)
        ensures
            r == (Contract { protocol_version, ..*self }),
    {
        Contract {
            contract_package_hash: self.contract_package_hash,
            contract_wasm_hash: self.contract_wasm_hash,
            named_keys: self.named_keys.clone(),
            entry_points: self.entry_points.clone(),
            protocol_version,
        }
    }
}

/// All versions of a contract.
pub struct ContractPackage {
    /// The key that allows to change the package.
    pub access_key: URef,
    /// The versions, in order.
    pub versions: OrderedMap<ContractVersionKey, ContractHash>,
    /// The versions that cannot be called any more.
    pub disabled_versions: VecSet<ContractVersionKey>,
    /// The groups of keys that may call certain entry points, serialized.
    pub groups: Rc<Vec<u8>>,
}

/// All versions of a contract.
#[verifier::ext_equal]
pub ghost struct PackageModel {
    pub access_key: URef,
    pub versions: Seq<(ContractVersionKey, ContractHash)>,
    pub disabled_versions: Set<ContractVersionKey>,
    pub groups: Seq<u8>,
}

impl View for ContractPackage {
    type V = PackageModel;

    open spec fn view(&self) -> PackageModel {
        PackageModel {
            access_key: self.access_key,
            versions: self.versions@,
            disabled_versions: self.disabled_versions@,
            groups: self.groups@,
        }
    }
}

/// The first version with the given hash is at position `i`.
pub open spec fn first_with_hash(versions: Seq<(ContractVersionKey, ContractHash)>, hash: ContractHash, i: int) -> bool {
    &&& 0 <= i < versions.len()
    &&& versions[i].1 == hash
    &&& forall|j: int| 0 <= j < i ==> (#[trigger] versions[j]).1 != hash
}

/// The latest running number for a major protocol version, or zero.
pub open spec fn latest_version(versions: Seq<(ContractVersionKey, ContractHash)>, major: u32) -> u32
    decreases versions.len(),
{
    if versions.len() == 0 {
        0
    } else if versions.last().0.major == major {
        versions.last().0.version
    } else {
        latest_version(versions.drop_last(), major)
    }
}

impl PackageModel {
    /// Some version has the given hash.
    pub open spec fn has_hash(self, hash: ContractHash) -> bool {
        exists|i: int| 0 <= i < self.versions.len() && (#[trigger] self.versions[i]).1 == hash
    }

    /// The number of the first version with the given hash.
    pub open spec fn key_of(self, hash: ContractHash) -> ContractVersionKey {
        self.versions[choose|i: int| #[trigger] first_with_hash(self.versions, hash, i)].0
    }

    /// The package after the version with the given hash was disabled.
    pub open spec fn disabled(self, hash: ContractHash) -> PackageModel {
        PackageModel { disabled_versions: self.disabled_versions.insert(self.key_of(hash)), ..self }
    }

    /// The number of the next version for a major protocol version.
    pub open spec fn next_key(self, major: u32) -> ContractVersionKey {
        ContractVersionKey { major, version: (latest_version(self.versions, major) + 1) as u32 }
    }

    /// The package with one more version.
    pub open spec fn with_version(self, major: u32, hash: ContractHash) -> PackageModel {
        PackageModel { versions: crate::ordered::with_entry(self.versions, self.next_key(major), hash), ..self }
    }
}

impl ContractPackage {
    /// The collections are well-formed.
    pub open spec fn wf(&self) -> bool {
        self.versions.wf() && self.disabled_versions.wf()
    }

    /// Returns a copy.
    pub fn duplicate(&self) -> (r: ContractPackage)
        requires
            self.wf(),
        ensures
            r.wf(),
            r@ == self@,
    {
        let mut versions: OrderedMap<ContractVersionKey, ContractHash> = OrderedMap::new();
        let mut i: usize = 0;
        while i < self.versions.len()
            invariant
                i <= self.versions@.len(),
                self.wf(),
                versions.wf(),
                versions@ == self.versions@.take(i as int),
            decreases self.versions@.len() - i,
        {
            assert(i > 0 ==> self.versions@[i - 1].0.before(self.versions@[i as int].0));
            versions.push(self.versions.key_at(i), *self.versions.value_at(i));
            assert(versions@ =~= self.versions@.take(i + 1));
            i += 1;
        }
        assert(versions@ =~= self.versions@);
        let mut disabled_versions: VecSet<ContractVersionKey> = VecSet::new();
        let ghost disabled = self.disabled_versions.seq();
        let mut j: usize = 0;
        assert(disabled.take(0).to_set() =~= Set::empty());
        while j < self.disabled_versions.len()
            invariant
                j <= disabled.len(),
                disabled == self.disabled_versions.seq(),
                self.wf(),
                disabled_versions.wf(),
                disabled_versions@ == disabled.take(j as int).to_set(),
            decreases disabled.len() - j,
        {
            let key = self.disabled_versions.item_at(j);
            let _ = disabled_versions.insert(key);
            proof {
                let s = disabled.take(j as int);
                let t = disabled.take(j + 1);
                assert(t =~= s.push(key));
                assert forall|k: ContractVersionKey| #[trigger] t.to_set().contains(k) == s.to_set().insert(key).contains(k) by {
                    if t.contains(k) {
                        let x = t.index_of(k);
                        assert(t[x] == k);
                        if x < s.len() {
                            assert(s[x] == k);
                        }
                    }
                    if s.contains(k) {
                        let x = s.index_of(k);
                        assert(t[x] == k);
                    }
                    assert(t[s.len() as int] == key);
                }
                assert(t.to_set() =~= s.to_set().insert(key));
            }
            j += 1;
        }
        assert(disabled.take(disabled.len() as int) =~= disabled);
        ContractPackage { access_key: self.access_key, versions, disabled_versions, groups: self.groups.clone() }
    }

    /// Disables the version with the given hash. Returns `false` if there is none.
    pub fn disable_contract_version(&mut self, contract_hash: ContractHash) -> (r: bool)
        requires
            old(self).wf(),
        ensures
            final(self).wf(),
            r == old(self)@.has_hash(contract_hash),
            final(self)@ == if r {
                old(self)@.disabled(contract_hash)
            } else {
                old(self)@
            },
    {
        let ghost versions = self.versions@;
        let mut i: usize = 0;
        while i < self.versions.len()
            invariant
                i <= self.versions@.len(),
                self.wf(),
                *self == *old(self),
                versions == self.versions@,
                forall|j: int| 0 <= j < i ==> (#[trigger] versions[j]).1 != contract_hash,
            decreases self.versions@.len() - i,
        {
            if same_bytes(self.versions.value_at(i), &contract_hash) {
                let key = self.versions.key_at(i);
                proof {
                    assert(first_with_hash(versions, contract_hash, i as int));
                    let k = choose|k: int| #[trigger] first_with_hash(versions, contract_hash, k);
                    assert(k == i) by {
                        if k < i {
                            assert(versions[k].1 != contract_hash);
                        } else if k > i {
                            assert(versions[i as int].1 != contract_hash);
                        }
                    }
                    assert(old(self)@.versions[i as int].1 == contract_hash);
                }
                let _ = self.disabled_versions.insert(key);
                assert(self@ =~= old(self)@.disabled(contract_hash));
                return true;
            }
            i += 1;
        }
        false
    }

    /// Adds a version for the given major protocol version, and returns its number.
    pub fn insert_contract_version(&mut self, major: u32, contract_hash: ContractHash) -> (r: ContractVersionKey)
        requires
            old(self).wf(),
            latest_version(old(self)@.versions, major) < u32::MAX,
        ensures
            final(self).wf(),
            r == old(self)@.next_key(major),
            final(self)@ == old(self)@.with_version(major, contract_hash),
    {
        let ghost versions = self.versions@;
        let mut version: u32 = 0;
        let mut i = self.versions.len();
        assert(versions.take(i as int) =~= versions);
        while i > 0
            invariant_except_break
                version == 0,
                latest_version(versions, major) == latest_version(versions.take(i as int), major),
            invariant
                i <= versions.len(),
                versions == self.versions@,
                *self == *old(self),
            ensures
                version == latest_version(versions, major),
            decreases i,
        {
            i -= 1;
            let key = self.versions.key_at(i);
            proof {
                assert(versions.take(i + 1).last() == versions[i as int]);
                assert(versions.take(i + 1).drop_last() =~= versions.take(i as int));
            }
            if key.major == major {
                version = key.version;
                break;
            }
        }
        let key = ContractVersionKey { major, version: version + 1 };
        let _ = self.versions.insert(key, contract_hash);
        key
    }
}

/// A value of the global state, as far as upgrades look at it.
pub enum StoredValue {
    Contract(Rc<Contract>),
    ContractPackage(Rc<ContractPackage>),
    /// Anything else, serialized.
    Other(Rc<Vec<u8>>),
}

impl StoredValue {
    /// Packages are well-formed.
    pub open spec fn wf(self) -> bool {
        self matches StoredValue::ContractPackage(package) ==> package.wf()
    }

    /// Returns another handle to the same value.
    pub fn share(&self) -> (r: StoredValue)
        ensures
            r == *self,
    {
        match self {
            StoredValue::Contract(contract) => StoredValue::Contract(contract.clone()),
            StoredValue::ContractPackage(package) => StoredValue::ContractPackage(package.clone()),
            StoredValue::Other(bytes) => StoredValue::Other(bytes.clone()),
        }
    }
}

/// The global state could not be read.
#[derive(Clone, Copy, Debug, PartialEq, Eq, Structural)]
pub struct ReadError;

/// What reading a key gives: a value, nothing, or an error.
pub type Lookup = Result<Option<StoredValue>, ReadError>;

/// A global state that can be read.
pub trait StateReader {
    /// What reading a key gives.
    spec fn lookup(&self, key: Key) -> Lookup;

    /// Reads a key.
    fn read(&self, key: &Key) -> (r: Lookup)
        ensures
            r == self.lookup(*key),
            r matches Ok(Some(value)) ==> value.wf(),
    ;
}

/// A global state that is held in memory.
pub struct InMemoryState {
    entries: VecMap<Key, StoredValue>,
}

impl InMemoryState {
    /// The state is well-formed, and so are the values.
    #[verifier::type_invariant]
    spec fn inv(self) -> bool {
        &&& self.entries.wf()
        &&& forall|k: Key| #[trigger] self.entries@.contains_key(k) ==> self.entries@[k].wf()
    }

    /// Creates an empty state.
    pub fn new() -> (r: InMemoryState)
        ensures
            forall|k: Key| #[trigger] r.lookup(k) == Ok::<Option<StoredValue>, ReadError>(None),
    {
        InMemoryState { entries: VecMap::new() }
    }

    /// Returns the state with one more entry.
    pub fn with(self, key: Key, value: StoredValue) -> (r: InMemoryState)
        requires
            value.wf(),
        ensures
            forall|k: Key| #[trigger]
                r.lookup(k) == if k == key {
                    Ok::<Option<StoredValue>, ReadError>(Some(value))
                } else {
                    self.lookup(k)
                },
    {
        proof {
            use_type_invariant(&self);
        }
        let mut entries = self.entries;
        let _ = entries.insert(key, value);
        InMemoryState { entries }
    }
}

impl StateReader for InMemoryState {
    closed spec fn lookup(&self, key: Key) -> Lookup {
        if self.entries@.contains_key(key) {
            Ok(Some(self.entries@[key]))
        } else {
            Ok(None)
        }
    }

    fn read(&self, key: &Key) -> (r: Lookup) {
        proof {
            use_type_invariant(self);
        }
        match self.entries.get(key) {
            Some(value) => Ok(Some(value.share())),
            None => Ok(None),
        }
    }
}

/// A global state and changes to it that are not committed yet.
pub struct TrackingCopy<R> {
    reader: R,
    changes: VecMap<Key, StoredValue>,
}

impl<R: StateReader> View for TrackingCopy<R> {
    type V = Map<Key, Lookup>;

    /// What reading each key gives.
    closed spec fn view(&self) -> Map<Key, Lookup> {
        Map::new(
            |k: Key| true,
            |k: Key|
                if self.changes@.contains_key(k) {
                    Ok(Some(self.changes@[k]))
                } else {
                    self.reader.lookup(k)
                },
        )
    }
}

impl<R: StateReader> TrackingCopy<R> {
    /// Every key can be looked up, and changed values are well-formed.
    pub closed spec fn wf(&self) -> bool {
        &&& self.changes.wf()
        &&& forall|k: Key| #[trigger] self.changes@.contains_key(k) ==> self.changes@[k].wf()
    }

    /// Creates a copy without changes.
    pub fn new(reader: R) -> (r: TrackingCopy<R>)
        ensures
            r.wf(),
            forall|k: Key| #[trigger] r@.contains_key(k) && r@[k] == reader.lookup(k),
    {
        TrackingCopy { reader, changes: VecMap::new() }
    }

    /// Reads a key.
    pub fn read(&self, key: &Key) -> (r: Lookup)
        requires
            self.wf(),
        ensures
            r == self@[*key],
            r matches Ok(Some(value)) ==> value.wf(),
    {
        match self.changes.get(key) {
            Some(value) => Ok(Some(value.share())),
            None => self.reader.read(key),
        }
    }

    /// Writes a value.
    pub fn write(&mut self, key: Key, value: StoredValue)
        requires
            old(self).wf(),
            value.wf(),
        ensures
            final(self).wf(),
            final(self)@ == old(self)@.insert(key, Ok(Some(value))),
    {
        let _ = self.changes.insert(key, value);
        assert(self@ =~= old(self)@.insert(key, Ok(Some(value))));
    }
}

/// The system contracts.
#[derive(Clone, Copy, Debug)]
pub struct ProtocolData {
    pub mint: ContractHash,
    pub auction: ContractHash,
    pub proof_of_stake: ContractHash,
    pub standard_payment: ContractHash,
}

/// The system contracts to upgrade, in order, with their names.
pub open spec fn system_contracts(data: ProtocolData) -> Seq<(ContractHash, Seq<char>)> {
    seq![
        (data.mint, "mint"@),
        (data.auction, "auction"@),
        (data.proof_of_stake, "proof of stake"@),
        (data.standard_payment, "standard payment"@),
    ]
}

/// What stands in the way of upgrading a contract.
pub ghost enum Obstacle {
    /// The contract cannot be read.
    NoContract,
    /// Its package cannot be read.
    NoPackage,
    /// The package does not know the contract.
    NotInPackage,
}

/// The error tells of the obstacle with the named contract.
pub open spec fn error_for(e: ProtocolUpgradeError, obstacle: Obstacle, name: Seq<char>) -> bool {
    match obstacle {
        Obstacle::NoContract => e matches ProtocolUpgradeError::UnableToRetrieveSystemContract(n) && n@ == name,
        Obstacle::NoPackage => e matches ProtocolUpgradeError::UnableToRetrieveSystemContractPackage(n) && n@ == name,
        Obstacle::NotInPackage => e matches ProtocolUpgradeError::FailedToDisablePreviousVersion(n) && n@ == name,
    }
}

/// The contract that a key leads to.
pub open spec fn contract_at(state: Map<Key, Lookup>, hash: ContractHash) -> Option<Rc<Contract>> {
    match state[Key::Hash(hash)] {
        Ok(Some(StoredValue::Contract(contract))) => Some(contract),
        _ => None,
    }
}

/// The package that a key leads to.
pub open spec fn package_at(state: Map<Key, Lookup>, hash: ContractHash) -> Option<Rc<ContractPackage>> {
    match state[Key::Hash(hash)] {
        Ok(Some(StoredValue::ContractPackage(package))) => Some(package),
        _ => None,
    }
}

/// What stands in the way of upgrading a contract, if anything does.
pub open spec fn obstacle(state: Map<Key, Lookup>, hash: ContractHash) -> Option<Obstacle> {
    match contract_at(state, hash) {
        None => Some(Obstacle::NoContract),
        Some(contract) => match package_at(state, contract.contract_package_hash) {
            None => Some(Obstacle::NoPackage),
            Some(package) => if package@.has_hash(hash) {
                None
            } else {
                Some(Obstacle::NotInPackage)
            },
        },
    }
}

/// There is room for one more version, if a contract can be upgraded at all.
pub open spec fn has_room(state: Map<Key, Lookup>, hash: ContractHash, major: u32) -> bool {
    obstacle(state, hash) is None ==> latest_version(
        package_at(state, contract_at(state, hash)->0.contract_package_hash)->0@.versions,
        major,
    ) < u32::MAX
}

/// `after` is the state after a contract was upgraded: the contract has the new version, its package
/// has a new entry for it in place of the old one, and nothing else has changed.
pub open spec fn upgraded(state: Map<Key, Lookup>, hash: ContractHash, version: ProtocolVersion, after: Map<Key, Lookup>) -> bool {
    let before = contract_at(state, hash)->0;
    exists|contract: Rc<Contract>, package: Rc<ContractPackage>|
        {
            &&& *contract == (Contract { protocol_version: version, ..*before })
            &&& package@ == package_at(state, before.contract_package_hash)->0@.disabled(hash).with_version(
                version.major,
                hash,
            )
            &&& package.wf()
            &&& after == #[trigger] with_contract(state, hash, contract, before.contract_package_hash, package)
        }
}

/// The state with a contract and its package written to it.
pub open spec fn with_contract(
    state: Map<Key, Lookup>,
    hash: ContractHash,
    contract: Rc<Contract>,
    package_hash: ContractHash,
    package: Rc<ContractPackage>,
) -> Map<Key, Lookup> {
    state.insert(Key::Hash(hash), Ok(Some(StoredValue::Contract(contract)))).insert(
        Key::Hash(package_hash),
        Ok(Some(StoredValue::ContractPackage(package))),
    )
}

/// Gives new versions to the system contracts.
pub struct SystemUpgrader<R> {
    new_protocol_version: ProtocolVersion,
    protocol_data: ProtocolData,
    tracking_copy: TrackingCopy<R>,
}

impl<R: StateReader> SystemUpgrader<R> {
    /// The state as it is now.
    pub closed spec fn state(&self) -> Map<Key, Lookup> {
        self.tracking_copy@
    }

    /// The version to which contracts are upgraded.
    pub closed spec fn version(&self) -> ProtocolVersion {
        self.new_protocol_version
    }

    /// The system contracts.
    pub closed spec fn data(&self) -> ProtocolData {
        self.protocol_data
    }

    /// The tracking copy is well-formed.
    pub closed spec fn wf(&self) -> bool {
        self.tracking_copy.wf()
    }

    /// Creates an upgrader.
    pub fn new(new_protocol_version: ProtocolVersion, protocol_data: ProtocolData, tracking_copy: TrackingCopy<R>) -> (r:
        SystemUpgrader<R>)
        requires
            tracking_copy.wf(),
        ensures
            r.wf(),
            r.state() == tracking_copy@,
            r.version() == new_protocol_version,
            r.data() == protocol_data,
    {
        SystemUpgrader { new_protocol_version, protocol_data, tracking_copy }
    }

    /// Returns the tracking copy with what was written to it.
    pub fn into_tracking_copy(self) -> (r: TrackingCopy<R>)
        requires
            self.wf(),
        ensures
            r.wf(),
            r@ == self.state(),
    {
        self.tracking_copy
    }

    /// Upgrades one contract.
    pub fn store_contract(&mut self, contract_hash: ContractHash, contract_name: &str) -> (r: Result<(), ProtocolUpgradeError>)
        requires
            old(self).wf(),
            has_room(old(self).state(), contract_hash, old(self).version().major),
        ensures
            final(self).wf(),
            final(self).version() == old(self).version(),
            final(self).data() == old(self).data(),
            match r {
                Ok(()) => obstacle(old(self).state(), contract_hash) is None && upgraded(
                    old(self).state(),
                    contract_hash,
                    old(self).version(),
                    final(self).state(),
                ),
                Err(e) => {
                    &&& obstacle(old(self).state(), contract_hash) is Some
                    &&& error_for(e, obstacle(old(self).state(), contract_hash)->0, contract_name@)
                    &&& final(self).state() == old(self).state()
                },
            },
    {
        let contract_key = Key::Hash(contract_hash);
        let contract = match self.tracking_copy.read(&contract_key) {
            Ok(Some(StoredValue::Contract(contract))) => contract,
            _ => {
                return Err(ProtocolUpgradeError::UnableToRetrieveSystemContract(String::from_str(contract_name)));
            },
        };
        let contract_package_key = Key::Hash(contract.contract_package_hash);
        let package = match self.tracking_copy.read(&contract_package_key) {
            Ok(Some(StoredValue::ContractPackage(package))) => package,
            _ => {
                return Err(ProtocolUpgradeError::UnableToRetrieveSystemContractPackage(String::from_str(contract_name)));
            },
        };
        let mut contract_package = package.duplicate();
        if !contract_package.disable_contract_version(contract_hash) {
            return Err(ProtocolUpgradeError::FailedToDisablePreviousVersion(String::from_str(contract_name)));
        }
        let new_contract = Rc::new(contract.with_protocol_version(self.new_protocol_version));
        let _ = contract_package.insert_contract_version(self.new_protocol_version.major, contract_hash);
        let new_package = Rc::new(contract_package);
        self.tracking_copy.write(contract_key, StoredValue::Contract(new_contract.clone()));
        self.tracking_copy.write(contract_package_key, StoredValue::ContractPackage(new_package.clone()));
        assert(self.state() == with_contract(
            old(self).state(),
            contract_hash,
            new_contract,
            contract.contract_package_hash,
            new_package,
        ));
        Ok(())
    }
}

/// Running numbers for a major protocol version are not greater than a limit.
pub open spec fn versions_within(versions: Seq<(ContractVersionKey, ContractHash)>, major: u32, limit: int) -> bool {
    forall|i: int| 0 <= i < versions.len() && (#[trigger] versions[i]).0.major == major ==> versions[i].0.version <= limit
}

/// In all packages there is room for `n` more versions.
pub open spec fn room_for(state: Map<Key, Lookup>, major: u32, n: int) -> bool {
    forall|hash: ContractHash| (#[trigger] package_at(state, hash)) is Some ==> versions_within(
        package_at(state, hash)->0@.versions,
        major,
        u32::MAX - n,
    )
}

/// `after` is the state after the first `n` of the contracts were upgraded one after the other.
pub open spec fn upgraded_all(
    state: Map<Key, Lookup>,
    contracts: Seq<(ContractHash, Seq<char>)>,
    n: int,
    version: ProtocolVersion,
    after: Map<Key, Lookup>,
) -> bool
    decreases n,
{
    if n <= 0 {
        after == state
    } else {
        exists|mid: Map<Key, Lookup>|
            {
                &&& upgraded_all(state, contracts, n - 1, version, mid)
                &&& obstacle(mid, contracts[n - 1].0) is None
                &&& #[trigger] upgraded(mid, contracts[n - 1].0, version, after)
            }
    }
}

/// The latest running number is within the limit.
proof fn lemma_latest_within(versions: Seq<(ContractVersionKey, ContractHash)>, major: u32, limit: int)
    requires
        versions_within(versions, major, limit),
        limit >= 0,
    ensures
        latest_version(versions, major) <= limit,
    decreases versions.len(),
{
    if versions.len() > 0 {
        assert(versions.last() == versions[versions.len() - 1]);
        assert forall|i: int|
            0 <= i < versions.drop_last().len() && (#[trigger] versions.drop_last()[i]).0.major == major implies versions.drop_last()[i].0.version
            <= limit by {
            assert(versions.drop_last()[i] == versions[i]);
        }
        lemma_latest_within(versions.drop_last(), major, limit);
    }
}

/// Where there is room for one more version, a contract can get one.
proof fn lemma_room(state: Map<Key, Lookup>, hash: ContractHash, major: u32, n: int)
    requires
        room_for(state, major, n),
        1 <= n <= u32::MAX,
    ensures
        has_room(state, hash, major),
{
    if obstacle(state, hash) is None {
        let package_hash = contract_at(state, hash)->0.contract_package_hash;
        assert(package_at(state, package_hash) is Some);
        lemma_latest_within(package_at(state, package_hash)->0@.versions, major, u32::MAX - n);
    }
}

/// Upgrading a contract takes room for one version.
proof fn lemma_room_after(state: Map<Key, Lookup>, hash: ContractHash, version: ProtocolVersion, after: Map<Key, Lookup>, n: int)
    requires
        room_for(state, version.major, n),
        1 <= n <= u32::MAX,
        obstacle(state, hash) is None,
        upgraded(state, hash, version, after),
    ensures
        room_for(after, version.major, n - 1),
{
    let before = contract_at(state, hash)->0;
    let package_hash = before.contract_package_hash;
    let (contract, package) = choose|contract: Rc<Contract>, package: Rc<ContractPackage>|
        {
            &&& *contract == (Contract { protocol_version: version, ..*before })
            &&& package@ == package_at(state, package_hash)->0@.disabled(hash).with_version(version.major, hash)
            &&& package.wf()
            &&& after == #[trigger] with_contract(state, hash, contract, package_hash, package)
        };
    assert forall|h: ContractHash| (#[trigger] package_at(after, h)) is Some implies versions_within(
        package_at(after, h)->0@.versions,
        version.major,
        u32::MAX - (n - 1),
    ) by {
        if Key::Hash(h) == Key::Hash(package_hash) {
            let old_versions = package_at(state, package_hash)->0@.versions;
            let key = package_at(state, package_hash)->0@.next_key(version.major);
            let new_versions = package@.versions;
            assert(package_at(after, h)->0 == package);
            assert(versions_within(old_versions, version.major, u32::MAX - n));
            lemma_latest_within(old_versions, version.major, u32::MAX - n);
            assert(new_versions == crate::ordered::with_entry(old_versions, key, hash));
            lemma_with_entry_within(old_versions, key, hash, version.major, u32::MAX - (n - 1));
        } else {
            assert(h != hash);
            assert(package_at(state, h) == package_at(after, h));
            assert(versions_within(package_at(state, h)->0@.versions, version.major, u32::MAX - n));
        }
    }
}

/// Entries within a limit stay so with one more that is within it.
proof fn lemma_with_entry_within(
    versions: Seq<(ContractVersionKey, ContractHash)>,
    key: ContractVersionKey,
    hash: ContractHash,
    major: u32,
    limit: int,
)
    requires
        versions_within(versions, major, limit),
        key.version <= limit,
    ensures
        versions_within(crate::ordered::with_entry(versions, key, hash), major, limit),
{
    let after = crate::ordered::with_entry(versions, key, hash);
    let r = crate::ordered::rank(versions, key);
    crate::ordered::lemma_rank_bounds(versions, key);
    assert forall|i: int| 0 <= i < after.len() && (#[trigger] after[i]).0.major == major implies after[i].0.version <= limit by {
        if i != r {
            if after.len() == versions.len() || i < r {
                assert(after[i] == versions[i]);
            } else {
                assert(after[i] == versions[i - 1]);
            }
        }
    }
}

impl<R: StateReader> SystemUpgrader<R> {
    /// Bump major version for system contracts.
    pub fn upgrade_system_contracts_major_version(&mut self) -> (r: Result<(), ProtocolUpgradeError>)
        requires
            old(self).wf(),
            room_for(old(self).state(), old(self).version().major, 4),
        ensures
            final(self).wf(),
            final(self).version() == old(self).version(),
            final(self).data() == old(self).data(),
            match r {
                Ok(()) => upgraded_all(
                    old(self).state(),
                    system_contracts(old(self).data()),
                    4,
                    old(self).version(),
                    final(self).state(),
                ),
                Err(e) => exists|n: int|
                    {
                        &&& 0 <= n < 4
                        &&& #[trigger] upgraded_all(
                            old(self).state(),
                            system_contracts(old(self).data()),
                            n,
                            old(self).version(),
                            final(self).state(),
                        )
                        &&& obstacle(final(self).state(), system_contracts(old(self).data())[n].0) is Some
                        &&& error_for(
                            e,
                            obstacle(final(self).state(), system_contracts(old(self).data())[n].0)->0,
                            system_contracts(old(self).data())[n].1,
                        )
                    },
            },
    {
        let ghost s0 = self.state();
        let ghost version = self.version();
        let ghost contracts = system_contracts(self.data());
        let data = self.protocol_data;
        let mut i: usize = 0;
        while i < 4
            invariant
                i <= 4,
                self.wf(),
                self.version() == version,
                self.data() == data,
                data == old(self).data(),
                version == old(self).version(),
                s0 == old(self).state(),
                contracts == system_contracts(data),
                upgraded_all(s0, contracts, i as int, version, self.state()),
                room_for(self.state(), version.major, 4 - i),
            decreases 4 - i,
        {
            let (hash, name): (ContractHash, &str) = if i == 0 {
                (data.mint, "mint")
            } else if i == 1 {
                (data.auction, "auction")
            } else if i == 2 {
                (data.proof_of_stake, "proof of stake")
            } else {
                (data.standard_payment, "standard payment")
            };
            let ghost mid = self.state();
            proof {
                assert(contracts[i as int] == (hash, name@));
                lemma_room(mid, hash, version.major, 4 - i);
            }
            match self.store_contract(hash, name) {
                Ok(()) => {},
                Err(e) => {
                    return Err(e);
                },
            }
            proof {
                lemma_room_after(mid, hash, version, self.state(), 4 - i);
                let n = i + 1;
                assert(contracts[n - 1].0 == hash);
                assert(upgraded_all(s0, contracts, n - 1, version, mid));
                assert(upgraded(mid, contracts[n - 1].0, version, self.state()));
                assert(upgraded_all(s0, contracts, n, version, self.state()));
            }
            i += 1;
        }
        Ok(())
    }
}

/// An upgraded contract has the new version, and the package lists it under a new number while the
/// old one is disabled.
pub proof fn law_contract_upgraded(state: Map<Key, Lookup>, hash: ContractHash, version: ProtocolVersion, after: Map<Key, Lookup>)
    requires
        obstacle(state, hash) is None,
        package_at(state, contract_at(state, hash)->0.contract_package_hash)->0.wf(),
        upgraded(state, hash, version, after),
    ensures
        contract_at(after, hash) is Some,
        contract_at(after, hash)->0.protocol_version == version,
        ({
            let package_hash = contract_at(state, hash)->0.contract_package_hash;
            let old_package = package_at(state, package_hash)->0@;
            let new_package = package_at(after, package_hash)->0@;
            &&& new_package.disabled_versions.contains(old_package.key_of(hash))
            &&& crate::ordered::value_of(new_package.versions, old_package.next_key(version.major)) == Some(hash)
        }),
        forall|k: Key|
            k != Key::Hash(hash) && k != Key::Hash(contract_at(state, hash)->0.contract_package_hash)
                ==> #[trigger] after[k] == state[k],
{
    let before = contract_at(state, hash)->0;
    let package_hash = before.contract_package_hash;
    let old_package = package_at(state, package_hash)->0@;
    assert(Key::Hash(hash) != Key::Hash(package_hash));
    crate::ordered::lemma_with_entry(old_package.versions, old_package.next_key(version.major), hash);
}

/// The latest version of a major one is the highest that there is, and zero if there is none.
pub proof fn law_latest_version_is_the_highest(versions: Seq<(ContractVersionKey, ContractHash)>, major: u32, i: int)
    requires
        crate::ordered::keys_increase(versions),
        0 <= i < versions.len(),
    ensures
        versions[i].0.major == major ==> versions[i].0.version <= latest_version(versions, major),
        latest_version(versions, major) == 0 || exists|j: int|
            0 <= j < versions.len() && (#[trigger] versions[j]).0.major == major && versions[j].0.version == latest_version(
                versions,
                major,
            ),
    decreases versions.len(),
{
    let front = versions.drop_last();
    let last = versions.len() - 1;
    assert(forall|j: int| 0 <= j < front.len() ==> #[trigger] front[j] == versions[j]);
    if versions.last().0.major == major {
        assert(versions[last].0.major == major);
        if i < last && versions[i].0.major == major {
            assert(versions[i].0.before(versions[last].0));
        }
    } else if front.len() > 0 {
        law_latest_version_is_the_highest(
            front,
            major,
            if i < last {
                i
            } else {
                0
            },
        );
        if latest_version(front, major) != 0 {
            let j = choose|j: int|
                0 <= j < front.len() && (#[trigger] front[j]).0.major == major && front[j].0.version == latest_version(front, major);
            assert(versions[j].0.major == major);
        }
    } else {
        assert(latest_version(front, major) == 0);
    }
}

/// An upgraded contract is as before but for its protocol version. Its package has, besides what it had,
/// one more version under the new major one, above all that it had under it, which is this contract; and
/// the first version that was this contract is disabled, besides those that were.
pub proof fn law_upgrade_adds_a_version(
    state: Map<Key, Lookup>,
    hash: ContractHash,
    before: Rc<Contract>,
    old_package: Rc<ContractPackage>,
    was: int,
    version: ProtocolVersion,
    after: Map<Key, Lookup>,
    i: int,
    other: ContractVersionKey,
) -> (out: (Rc<Contract>, Rc<ContractPackage>, ContractVersionKey))
    requires
        state[Key::Hash(hash)] == Ok::<Option<StoredValue>, ReadError>(Some(StoredValue::Contract(before))),
        state[Key::Hash(before.contract_package_hash)] == Ok::<Option<StoredValue>, ReadError>(
            Some(StoredValue::ContractPackage(old_package)),
        ),
        old_package.wf(),
        0 <= was < old_package.versions@.len(),
        old_package.versions@[was].1 == hash,
        forall|j: int| 0 <= j < was ==> (#[trigger] old_package.versions@[j]).1 != hash,
        forall|j: int| 0 <= j < old_package.versions@.len() ==> (#[trigger] old_package.versions@[j]).0.version < u32::MAX,
        upgraded(state, hash, version, after),
        0 <= i < old_package.versions@.len(),
    ensures
        ({
            let (contract, package, key) = out;
            &&& after[Key::Hash(hash)] == Ok::<Option<StoredValue>, ReadError>(Some(StoredValue::Contract(contract)))
            &&& after[Key::Hash(before.contract_package_hash)] == Ok::<Option<StoredValue>, ReadError>(
                Some(StoredValue::ContractPackage(package)),
            )
            &&& contract.protocol_version == version
            &&& contract.contract_package_hash == before.contract_package_hash
            &&& contract.contract_wasm_hash == before.contract_wasm_hash
            &&& contract.named_keys == before.named_keys
            &&& contract.entry_points == before.entry_points
            &&& package.access_key == old_package.access_key
            &&& package.groups@ == old_package.groups@
            &&& key.major == version.major
            &&& old_package.versions@[i].0.major == version.major ==> old_package.versions@[i].0.version < key.version
            &&& crate::ordered::value_of(package.versions@, key) == Some(hash)
            &&& other != key ==> crate::ordered::value_of(package.versions@, other) == crate::ordered::value_of(
                old_package.versions@,
                other,
            )
            &&& package.disabled_versions@ == old_package.disabled_versions@.insert(old_package.versions@[was].0)
        }),
{
    let versions = old_package.versions@;
    let (contract, package) = choose|contract: Rc<Contract>, package: Rc<ContractPackage>|
        {
            &&& *contract == (Contract { protocol_version: version, ..*before })
            &&& package@ == old_package@.disabled(hash).with_version(version.major, hash)
            &&& package.wf()
            &&& after == #[trigger] with_contract(state, hash, contract, before.contract_package_hash, package)
        };
    assert(first_with_hash(versions, hash, was));
    let k = choose|k: int| #[trigger] first_with_hash(versions, hash, k);
    assert(k == was);
    law_latest_version_is_the_highest(versions, version.major, i);
    let latest = latest_version(versions, version.major);
    if latest != 0 {
        let j = choose|j: int|
            0 <= j < versions.len() && (#[trigger] versions[j]).0.major == version.major && versions[j].0.version == latest;
        assert(versions[j].0.version < u32::MAX);
    }
    let key = ContractVersionKey { major: version.major, version: (latest + 1) as u32 };
    crate::ordered::lemma_with_entry(versions, key, hash);
    (contract, package, key)
}

/// The mint is upgraded first, then the auction, proof of stake and last the standard payment, each on
/// what the one before left.
pub proof fn law_all_system_contracts_upgraded(
    state: Map<Key, Lookup>,
    data: ProtocolData,
    version: ProtocolVersion,
    after: Map<Key, Lookup>,
) -> (mid: (Map<Key, Lookup>, Map<Key, Lookup>, Map<Key, Lookup>))
    requires
        upgraded_all(state, system_contracts(data), 4, version, after),
    ensures
        upgraded(state, data.mint, version, mid.0),
        upgraded(mid.0, data.auction, version, mid.1),
        upgraded(mid.1, data.proof_of_stake, version, mid.2),
        upgraded(mid.2, data.standard_payment, version, after),
{
    let contracts = system_contracts(data);
    let m3 = choose|m: Map<Key, Lookup>|
        {
            &&& upgraded_all(state, contracts, 3, version, m)
            &&& obstacle(m, contracts[3].0) is None
            &&& #[trigger] upgraded(m, contracts[3].0, version, after)
        };
    let m2 = choose|m: Map<Key, Lookup>|
        {
            &&& upgraded_all(state, contracts, 2, version, m)
            &&& obstacle(m, contracts[2].0) is None
            &&& #[trigger] upgraded(m, contracts[2].0, version, m3)
        };
    let m1 = choose|m: Map<Key, Lookup>|
        {
            &&& upgraded_all(state, contracts, 1, version, m)
            &&& obstacle(m, contracts[1].0) is None
            &&& #[trigger] upgraded(m, contracts[1].0, version, m2)
        };
    let m0 = choose|m: Map<Key, Lookup>|
        {
            &&& upgraded_all(state, contracts, 0, version, m)
            &&& obstacle(m, contracts[0].0) is None
            &&& #[trigger] upgraded(m, contracts[0].0, version, m1)
        };
    assert(m0 == state);
    (m1, m2, m3)
}

/// What stands in the way of an upgrade: there is no contract under the hash, or no package under the
/// contract's, or the package does not have the contract.
pub proof fn law_what_stands_in_the_way(state: Map<Key, Lookup>, hash: ContractHash, contract: Rc<Contract>, package: Rc<ContractPackage>)
    ensures
        !(state[Key::Hash(hash)] matches Ok(Some(StoredValue::Contract(_)))) <==> obstacle(state, hash) == Some(Obstacle::NoContract),
        state[Key::Hash(hash)] == Ok::<Option<StoredValue>, ReadError>(Some(StoredValue::Contract(contract))) && !(
        state[Key::Hash(contract.contract_package_hash)] matches Ok(Some(StoredValue::ContractPackage(_)))) ==> obstacle(state, hash)
            == Some(Obstacle::NoPackage),
        state[Key::Hash(hash)] == Ok::<Option<StoredValue>, ReadError>(Some(StoredValue::Contract(contract)))
            && state[Key::Hash(contract.contract_package_hash)] == Ok::<Option<StoredValue>, ReadError>(
            Some(StoredValue::ContractPackage(package)),
        ) ==> obstacle(state, hash) == (if exists|i: int|
            0 <= i < package.versions@.len() && (#[trigger] package.versions@[i]).1 == hash {
            None::<Obstacle>
        } else {
            Some(Obstacle::NotInPackage)
        }),
{
    if exists|i: int| 0 <= i < package.versions@.len() && (#[trigger] package.versions@[i]).1 == hash {
        let i = choose|i: int| 0 <= i < package.versions@.len() && (#[trigger] package.versions@[i]).1 == hash;
        assert(package@.versions[i].1 == hash);
    }
    if package@.has_hash(hash) {
        let i = choose|i: int| 0 <= i < package@.versions.len() && (#[trigger] package@.versions[i]).1 == hash;
        assert(package.versions@[i].1 == hash);
    }
}

} // verus!
