//! The Universal Contract Language (UCL) schema and configuration input.

use vstd::prelude::*;
use crate::amount::Amount;

verus! {

/// Free-text summary of a contract.
#[derive(Debug, Clone, PartialEq)]
pub struct ContractSummary {
    pub title: String,
    pub plain_english: String,
    pub what_it_does: String,
    pub who_its_for: String,
    pub when_it_executes: String,
}

/// One party to a contract.
#[derive(Debug, Clone, PartialEq)]
pub struct PartyInfo {
    pub role: String,
    pub identifier: String,
    pub name: Option<String>,
}

/// The dates governing a contract.
#[derive(Debug, Clone, PartialEq)]
pub struct DateInfo {
    pub effective: String,
    pub duration: String,
    pub renewal: String,
}

/// A loosely-typed metadata value carried through the schema.
#[derive(Debug, Clone, PartialEq)]
pub enum MetaValue {
    Text(String),
    Integer(i64),
    Decimal(Amount),
    Flag(bool),
    TextList(Vec<String>),
}

/// A keyed metadata value.
#[derive(Debug, Clone, PartialEq)]
pub struct MetaEntry {
    pub key: String,
    pub value: MetaValue,
}

/// Structured metadata of a contract. Unrecognized configuration keys are
/// preserved in `extra` rather than dropped.
#[derive(Debug, Clone, PartialEq)]
pub struct ContractMetadata {
    pub contract_type: String,
    pub category: String,
    pub parties: Vec<PartyInfo>,
    pub dates: DateInfo,
    pub extra: Vec<MetaEntry>,
}

/// The payment terms of a contract.
#[derive(Debug, Clone, PartialEq)]
pub struct PaymentTerms {
    pub structure: String,
    pub amount: Amount,
    pub currency: String,
    pub token: String,
    pub blockchain: String,
    pub frequency: String,
}

/// An oracle-checkable predicate gating execution.
#[derive(Debug, Clone, PartialEq)]
pub struct ConditionDefinition {
    pub id: String,
    pub description: String,
    pub source: String,
    pub operator: String,
    pub threshold: Option<Amount>,
}

/// The required and optional conditions of a contract. The order of
/// `required` matters for explanation rendering only; whether all are met is
/// order-independent.
#[derive(Debug, Clone, PartialEq)]
pub struct Conditions {
    pub required: Vec<ConditionDefinition>,
    pub optional: Option<Vec<ConditionDefinition>>,
}

/// A data source consulted when conditions are checked.
#[derive(Debug, Clone, PartialEq)]
pub struct OracleDefinition {
    pub id: String,
    pub oracle_type: String,
    pub endpoint: Option<String>,
    pub refresh_rate: String,
    pub required: bool,
}

/// An action a rule triggers, with its parameters.
#[derive(Debug, Clone, PartialEq)]
pub struct ActionDefinition {
    pub action: String,
    pub params: Vec<MetaEntry>,
}

/// The condition combinators of a rule.
#[derive(Debug, Clone, PartialEq)]
pub struct RuleConditions {
    pub all_of: Option<Vec<String>>,
    pub any_of: Option<Vec<String>>,
}

/// An automation rule of a contract.
#[derive(Debug, Clone, PartialEq)]
pub struct RuleDefinition {
    pub rule_id: String,
    pub name: String,
    pub trigger: String,
    pub conditions: RuleConditions,
    pub actions: Vec<ActionDefinition>,
}

/// A canonical UCL contract value. Immutable once constructed.
#[derive(Debug, Clone, PartialEq)]
pub struct UCLContract {
    pub contract_id: String,
    pub version: String,
    pub standard: String,
    pub summary: ContractSummary,
    pub metadata: ContractMetadata,
    pub payment: PaymentTerms,
    pub conditions: Conditions,
    pub oracles: Vec<OracleDefinition>,
    pub rules: Vec<RuleDefinition>,
}

/// The payment section of a configuration input.
#[derive(Debug, Clone, PartialEq)]
pub struct PaymentConfig {
    pub amount: Amount,
    pub token: String,
    pub frequency: String,
    pub blockchain: Option<String>,
    pub day_of_month: Option<u8>,
}

/// A condition in a configuration input.
#[derive(Debug, Clone, PartialEq)]
pub struct ConditionConfig {
    pub id: String,
    pub description: String,
    pub source: String,
    pub operator: String,
    pub threshold: Amount,
}

/// A loosely-typed configuration input from which a contract is built.
#[derive(Debug, Clone, PartialEq)]
pub struct ContractConfig {
    pub contract_type: String,
    pub parties: Vec<String>,
    pub payment: PaymentConfig,
    pub conditions: Option<Vec<ConditionConfig>>,
    pub metadata: Option<Vec<MetaEntry>>,
}

impl Default for PaymentConfig {
    /// Empty payment terms: zero amount and empty fields.
    fn default() -> (r: PaymentConfig)
        ensures
            r.amount@ == 0,
            r.token@ == Seq::<char>::empty(),
            r.frequency@ == Seq::<char>::empty(),
            r.blockchain is None,
            r.day_of_month is None,
    {
        PaymentConfig {
            amount: Amount::zero(),
            token: String::new(),
            frequency: String::new(),
            blockchain: None,
            day_of_month: None,
        }
    }
}

impl Default for ContractConfig {
    /// An empty configuration: no parties, no conditions, no metadata.
    fn default() -> (r: ContractConfig)
        ensures
            r.contract_type@ == Seq::<char>::empty(),
            r.parties@.len() == 0,
            r.payment.amount@ == 0,
            r.conditions is None,
            r.metadata is None,
    {
        ContractConfig {
            contract_type: String::new(),
            parties: Vec::new(),
            payment: PaymentConfig::default(),
            conditions: None,
            metadata: None,
        }
    }
}

/// The lifecycle status of a contract instance.
#[derive(Debug, Clone, Copy, PartialEq, Eq, Structural)]
pub enum ContractStatus {
    Draft,
    Deploying,
    Deployed,
    Active,
    Paused,
    Completed,
    Failed,
}

impl ContractStatus {
    /// The lower-case name of the status.
    pub fn as_text(&self) -> (r: String)
        ensures
            r@ == self.spec_text(),
    {
        match self {
            ContractStatus::Draft => String::from_str("draft"),
            ContractStatus::Deploying => String::from_str("deploying"),
            ContractStatus::Deployed => String::from_str("deployed"),
            ContractStatus::Active => String::from_str("active"),
            ContractStatus::Paused => String::from_str("paused"),
            ContractStatus::Completed => String::from_str("completed"),
            ContractStatus::Failed => String::from_str("failed"),
        }
    }

    /// The name of each status, as a sequence of characters.
    pub open spec fn spec_text(&self) -> Seq<char> {
        match self {
            ContractStatus::Draft => "draft"@,
            ContractStatus::Deploying => "deploying"@,
            ContractStatus::Deployed => "deployed"@,
            ContractStatus::Active => "active"@,
            ContractStatus::Paused => "paused"@,
            ContractStatus::Completed => "completed"@,
            ContractStatus::Failed => "failed"@,
        }
    }
}

/// What a chain adapter reports for a successful deployment.
#[derive(Debug, Clone, PartialEq)]
pub struct DeployResult {
    pub success: bool,
    pub address: String,
    pub transaction_hash: String,
    pub network: String,
    pub block_number: Option<u64>,
    pub contract_id: String,
}

/// What a payment adapter reports for an executed payment.
#[derive(Debug, Clone, PartialEq)]
pub struct PaymentResult {
    pub success: bool,
    pub transaction_hash: String,
    pub amount: Amount,
    pub token: String,
    pub network: String,
    pub from: String,
    pub to: String,
}

/// One oracle verdict on a condition.
#[derive(Debug, Clone, PartialEq)]
pub struct ConditionVerdict {
    pub id: String,
    pub met: bool,
}

/// The outcome of checking every condition of a contract.
#[derive(Debug, Clone, PartialEq)]
pub struct ConditionCheckResult {
    pub all_met: bool,
    pub conditions: Vec<ConditionVerdict>,
    pub timestamp: u64,
}

/// Field-wise equality of string lists, by view.
pub open spec fn strs_eq(a: Seq<String>, b: Seq<String>) -> bool {
    a.len() == b.len() && forall|i: int| 0 <= i < a.len() ==> #[trigger] a[i]@ == b[i]@
}

/// Field-wise equality of metadata values, by view.
pub open spec fn meta_value_eq(a: MetaValue, b: MetaValue) -> bool {
    match (a, b) {
        (MetaValue::Text(x), MetaValue::Text(y)) => x@ == y@,
        (MetaValue::Integer(x), MetaValue::Integer(y)) => x == y,
        (MetaValue::Decimal(x), MetaValue::Decimal(y)) => x@ == y@,
        (MetaValue::Flag(x), MetaValue::Flag(y)) => x == y,
        (MetaValue::TextList(x), MetaValue::TextList(y)) => strs_eq(x@, y@),
        _ => false,
    }
}

/// Field-wise equality of metadata entries, by view.
pub open spec fn meta_entry_eq(a: MetaEntry, b: MetaEntry) -> bool {
    a.key@ == b.key@ && meta_value_eq(a.value, b.value)
}

/// Field-wise equality of metadata entry lists, by view.
pub open spec fn meta_entries_eq(a: Seq<MetaEntry>, b: Seq<MetaEntry>) -> bool {
    a.len() == b.len() && forall|i: int|
        0 <= i < a.len() ==> meta_entry_eq(#[trigger] a[i], #[trigger] b[i])
}

/// Copy a list of strings, keeping every element's view.
pub fn copy_strings(v: &Vec<String>) -> (r: Vec<String>)
    ensures
        strs_eq(r@, v@),
{
    let mut r: Vec<String> = Vec::new();
    let mut i: usize = 0;
    while i < v.len()
        invariant
            0 <= i <= v@.len(),
            r@.len() == i,
            forall|j: int| 0 <= j < i ==> #[trigger] r@[j]@ == v@[j]@,
        decreases v@.len() - i,
    {
        r.push(v[i].clone());
        i = i + 1;
    }
    r
}

/// Copy a metadata value, keeping its view.
pub fn copy_meta_value(v: &MetaValue) -> (r: MetaValue)
    ensures
        meta_value_eq(r, *v),
{
    match v {
        MetaValue::Text(s) => MetaValue::Text(s.clone()),
        MetaValue::Integer(i) => MetaValue::Integer(*i),
        MetaValue::Decimal(a) => MetaValue::Decimal(*a),
        MetaValue::Flag(b) => MetaValue::Flag(*b),
        MetaValue::TextList(l) => MetaValue::TextList(copy_strings(l)),
    }
}

/// Copy a metadata entry, keeping its view.
pub fn copy_meta_entry(e: &MetaEntry) -> (r: MetaEntry)
    ensures
        meta_entry_eq(r, *e),
{
    MetaEntry { key: e.key.clone(), value: copy_meta_value(&e.value) }
}

} // verus!
