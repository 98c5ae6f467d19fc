//! Smart402: a verified SDK for AI-native smart contracts.
//!
//! The crate defines the Universal Contract Language (UCL) schema and three
//! engines over it: a discoverability scorer, a validator / explainer /
//! multi-target compiler, and a signed payment-negotiation header protocol,
//! together with a small contract lifecycle state machine.

use vstd::prelude::*;

pub mod amount;
pub mod clock;
pub mod codec;
pub mod error;
pub mod lifecycle;
pub mod json;
pub mod lines;
pub mod llmo;
pub mod model;
pub mod num;
pub mod parse;
pub mod score;
pub mod sdk;
pub mod text;
pub mod x402;

pub use amount::Amount;
pub use codec::{export_yaml, render_contract};
pub use error::Error;
pub use json::export_json;
pub use lifecycle::{ChainDeployment, Contract, PaymentOutcome, generate_contract_id};
pub use llmo::{LLMOEngine, ValidationResult};
pub use model::{
    ActionDefinition, ConditionCheckResult, ConditionConfig, ConditionDefinition,
    ConditionVerdict, Conditions, ContractConfig, ContractMetadata, ContractStatus,
    ContractSummary, DateInfo, DeployResult, MetaEntry, MetaValue, OracleDefinition, PartyInfo,
    PaymentConfig, PaymentResult, PaymentTerms, RuleConditions, RuleDefinition, UCLContract,
};
pub use parse::contract_from_text;
pub use score::{AEOEngine, AEOScore};
pub use sdk::Smart402;
pub use x402::{PaymentResponse, X402Client, X402Headers};

verus! {

/// SDK version string.
pub fn version() -> (r: String)
    ensures
        r@ == "0.1.0"@,
{
    String::from_str("0.1.0")
}

} // verus!
