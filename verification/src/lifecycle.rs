//! Contract construction and the lifecycle state machine.
//!
//! A [`Contract`] owns one immutable UCL value plus mutable deployment state.
//! Deployment and payment execution are boundary calls into external
//! adapters; the state machine takes the adapter's outcome as an argument and
//! is verified for every possible outcome.

use vstd::prelude::*;
use crate::amount::amount_text;
use crate::clock::now_unix_nanos;
use crate::error::Error;
use crate::model::{
    ConditionCheckResult, ConditionDefinition, ConditionVerdict, Conditions, ContractConfig,
    ContractMetadata, ContractStatus, ContractSummary, DateInfo, DeployResult, MetaEntry,
    MetaValue, PartyInfo, PaymentConfig, PaymentResult, PaymentTerms, UCLContract,
    copy_meta_entry, meta_entries_eq,
};
use crate::num::{dec_of, hex_of, push_dec_u64, push_hex_u64};
use crate::score::has_namespace_prefix;
use crate::text::str_eq;

verus! {

/// The text of a generated contract id: the namespace, the contract type,
/// and a clock-derived suffix in hexadecimal.
pub open spec fn contract_id_text(ty: Seq<char>, n: u64) -> Seq<char> {
    "smart402:"@ + ty + seq![':'] + hex_of(n as nat)
}

/// Generate a fresh contract id for a contract type. The suffix comes from
/// the microsecond clock; only the shape of the id is promised.
pub fn generate_contract_id(contract_type: &str) -> (r: String)
    ensures
        exists|n: u64| r@ == contract_id_text(contract_type@, n),
{
    let n = now_unix_nanos();
    let mut out = String::from_str("smart402:");
    out.append(contract_type);
    out.push(':');
    push_hex_u64(&mut out, n);
    proof {
        assert(out@ =~= contract_id_text(contract_type@, n));
    }
    out
}

/// Every generated contract id carries the recognized namespace prefix the
/// scorer looks for.
pub proof fn lemma_contract_id_prefixed(ty: Seq<char>, n: u64)
    ensures
        has_namespace_prefix(contract_id_text(ty, n)),
{
    reveal_strlit("smart402:");
    assert("smart402:"@.len() == 9);
    assert(contract_id_text(ty, n).take(9) =~= "smart402:"@);
}

/// The first metadata value under `key`, when it is text.
pub open spec fn meta_text(entries: Seq<MetaEntry>, key: Seq<char>) -> Option<Seq<char>>
    decreases entries.len(),
{
    if entries.len() == 0 {
        Option::None
    } else if entries[0].key@ == key {
        match entries[0].value {
            MetaValue::Text(s) => Option::Some(s@),
            _ => Option::None,
        }
    } else {
        meta_text(entries.subrange(1, entries.len() as int), key)
    }
}

/// The first text value under `key` in an optional metadata list.
pub open spec fn config_meta_text(m: Option<Vec<MetaEntry>>, key: Seq<char>) -> Option<Seq<char>> {
    match m {
        Option::None => Option::None,
        Option::Some(v) => meta_text(v@, key),
    }
}

/// The metadata keys that construction maps onto named schema fields.
pub open spec fn reserved_meta_key(k: Seq<char>) -> bool {
    k == "title"@ || k == "description"@ || k == "category"@
}

/// The metadata entries that are passed through into the contract's bag.
pub open spec fn extras_of(entries: Seq<MetaEntry>) -> Seq<MetaEntry>
    decreases entries.len(),
{
    if entries.len() == 0 {
        Seq::<MetaEntry>::empty()
    } else {
        extras_of(entries.drop_last()) + (if reserved_meta_key(entries.last().key@) {
            Seq::<MetaEntry>::empty()
        } else {
            seq![entries.last()]
        })
    }
}

/// The extra entries of an optional metadata list.
pub open spec fn config_extras(m: Option<Vec<MetaEntry>>) -> Seq<MetaEntry> {
    match m {
        Option::None => Seq::<MetaEntry>::empty(),
        Option::Some(v) => extras_of(v@),
    }
}

/// The blockchain a configuration settles on when none is given.
pub open spec fn effective_blockchain(p: PaymentConfig) -> Seq<char> {
    match p.blockchain {
        Option::Some(b) => b@,
        Option::None => "polygon"@,
    }
}

/// The payment structure derived from a frequency.
pub open spec fn structure_of(freq: Seq<char>) -> Seq<char> {
    if freq == "one-time"@ {
        "one-time"@
    } else {
        "recurring"@
    }
}

/// The generated plain-English summary when the configuration gives none.
pub open spec fn default_plain(config: ContractConfig) -> Seq<char> {
    "Pays "@ + amount_text(config.payment.amount@) + " "@ + config.payment.token@ + " "@
        + config.payment.frequency@ + " on "@ + effective_blockchain(config.payment) + "."@
}

/// Whether a configuration is accepted by construction: at least one party,
/// a payment token, no explicitly empty blockchain, and a non-negative
/// amount. Negative amounts are rejected here, at construction, rather than
/// deferred to explicit validation.
pub open spec fn config_ok(config: ContractConfig) -> bool {
    &&& config.parties@.len() > 0
    &&& config.payment.token@.len() > 0
    &&& !(config.payment.blockchain matches Option::Some(b) && b@.len() == 0)
    &&& config.payment.amount@ >= 0
}

/// What the contract built from an accepted configuration looks like, field
/// by field.
pub open spec fn built_ucl_matches(config: ContractConfig, c: UCLContract) -> bool {
    &&& exists|n: u64| c.contract_id@ == contract_id_text(config.contract_type@, n)
    &&& c.version@ == "1.0"@
    &&& c.standard@ == "UCL-1.0"@
    &&& c.summary.title@ == (match config_meta_text(config.metadata, "title"@) {
        Option::Some(t) => t,
        Option::None => "Contract"@,
    })
    &&& c.summary.plain_english@ == (match config_meta_text(config.metadata, "description"@) {
        Option::Some(d) => d,
        Option::None => default_plain(config),
    })
    &&& c.summary.what_it_does@.len() == 0
    &&& c.summary.who_its_for@.len() == 0
    &&& c.summary.when_it_executes@.len() == 0
    &&& c.metadata.contract_type@ == config.contract_type@
    &&& c.metadata.category@ == (match config_meta_text(config.metadata, "category"@) {
        Option::Some(t) => t,
        Option::None => "general"@,
    })
    &&& c.metadata.parties@.len() == config.parties@.len()
    &&& forall|i: int|
        0 <= i < config.parties@.len() ==> {
            &&& (#[trigger] c.metadata.parties@[i]).role@ == "party_"@ + dec_of((i + 1) as nat)
            &&& c.metadata.parties@[i].identifier@ == config.parties@[i]@
            &&& c.metadata.parties@[i].name is None
        }
    &&& c.metadata.dates.effective@ == "2024-01-01"@
    &&& c.metadata.dates.duration@ == "12 months"@
    &&& c.metadata.dates.renewal@ == "auto"@
    &&& meta_entries_eq(c.metadata.extra@, config_extras(config.metadata))
    &&& c.payment.structure@ == structure_of(config.payment.frequency@)
    &&& c.payment.amount@ == config.payment.amount@
    &&& c.payment.currency@ == "USD"@
    &&& c.payment.token@ == config.payment.token@
    &&& c.payment.blockchain@ == effective_blockchain(config.payment)
    &&& c.payment.frequency@ == config.payment.frequency@
    &&& c.conditions.required@.len() == (match config.conditions {
        Option::Some(cs) => cs@.len() as int,
        Option::None => 0int,
    })
    &&& (config.conditions matches Option::Some(cs) ==> forall|i: int|
        0 <= i < cs@.len() ==> {
            &&& (#[trigger] c.conditions.required@[i]).id@ == cs@[i].id@
            &&& c.conditions.required@[i].description@ == cs@[i].description@
            &&& c.conditions.required@[i].source@ == cs@[i].source@
            &&& c.conditions.required@[i].operator@ == cs@[i].operator@
            &&& c.conditions.required@[i].threshold matches Option::Some(t) && t@
                == cs@[i].threshold@
        })
    &&& c.conditions.optional is None
    &&& c.oracles@.len() == 0
    &&& c.rules@.len() == 0
}

/// Everything construction promises: which configurations are rejected,
/// with which error, and the exact shape of every accepted contract.
pub open spec fn from_config_post(config: ContractConfig, r: Result<Contract, Error>) -> bool {
    &&& (r is Ok <==> config_ok(config))
    &&& (config.parties@.len() == 0 ==> (r matches Err(Error::ConfigError(m)) && m@
        == "at least one party is required"@))
    &&& (config.parties@.len() > 0 && config.payment.token@.len() == 0 ==> (r matches Err(
        Error::ConfigError(m),
    ) && m@ == "payment token is required"@))
    &&& (config.parties@.len() > 0 && config.payment.token@.len() > 0 && (
    config.payment.blockchain matches Option::Some(b) && b@.len() == 0) ==> (r matches Err(
        Error::ConfigError(m),
    ) && m@ == "blockchain must not be empty"@))
    &&& (config.parties@.len() > 0 && config.payment.token@.len() > 0 && !(
    config.payment.blockchain matches Option::Some(b) && b@.len() == 0)
        && config.payment.amount@ < 0 ==> (r matches Err(Error::ConfigError(m)) && m@
        == "payment amount cannot be negative"@))
    &&& (r matches Ok(ct) ==> {
        &&& built_ucl_matches(config, ct.ucl)
        &&& ct.spec_status() == ContractStatus::Draft
        &&& ct.spec_address() is None
        &&& ct.spec_transaction_hash() is None
    })
}

/// What the chain adapter reports for a successful deployment.
#[derive(Debug, Clone, PartialEq)]
pub struct ChainDeployment {
    pub address: String,
    pub transaction_hash: String,
    pub block_number: Option<u64>,
}

/// What the payment adapter reports for a submitted payment.
#[derive(Debug, Clone, PartialEq)]
pub struct PaymentOutcome {
    pub transaction_hash: String,
    pub from: String,
    pub to: String,
}

/// A contract instance: one UCL value plus mutable deployment state.
#[derive(Debug, Clone, PartialEq)]
pub struct Contract {
    pub ucl: UCLContract,
    pub status: ContractStatus,
    pub deployed_address: Option<String>,
    pub transaction_hash: Option<String>,
}

impl Contract {
    /// The current lifecycle status.
    pub open spec fn spec_status(&self) -> ContractStatus {
        self.status
    }

    /// The stored deployment address, if deployed.
    pub open spec fn spec_address(&self) -> Option<Seq<char>> {
        match self.deployed_address {
            Option::Some(a) => Option::Some(a@),
            Option::None => Option::None,
        }
    }

    /// The stored deployment transaction hash, if deployed.
    pub open spec fn spec_transaction_hash(&self) -> Option<Seq<char>> {
        match self.transaction_hash {
            Option::Some(t) => Option::Some(t@),
            Option::None => Option::None,
        }
    }

    /// Build a contract from a configuration. A configuration without
    /// parties or without a payment token, with an explicitly empty
    /// blockchain, or with a negative amount is rejected with a
    /// `ConfigError`; every accepted configuration yields a draft contract
    /// whose fields are exactly the built ones.
    pub fn from_config(config: ContractConfig) -> (r: Result<Contract, Error>)
        ensures
            from_config_post(config, r),
    {
        if config.parties.len() == 0 {
            return Err(Error::ConfigError(String::from_str("at least one party is required")));
        }
        if config.payment.token.as_str().unicode_len() == 0 {
            return Err(Error::ConfigError(String::from_str("payment token is required")));
        }
        let blockchain: String = match &config.payment.blockchain {
            Some(b) => {
                if b.as_str().unicode_len() == 0 {
                    return Err(
                        Error::ConfigError(String::from_str("blockchain must not be empty")),
                    );
                }
                b.clone()
            },
            None => String::from_str("polygon"),
        };
        if config.payment.amount.is_negative() {
            return Err(Error::ConfigError(String::from_str("payment amount cannot be negative")));
        }
        let contract_id = generate_contract_id(config.contract_type.as_str());
        let title = match find_meta_text(&config.metadata, "title") {
            Some(t) => t,
            None => String::from_str("Contract"),
        };
        let plain_english = match find_meta_text(&config.metadata, "description") {
            Some(d) => d,
            None => {
                let mut p = String::from_str("Pays ");
                let amt = config.payment.amount.render();
                p.append(amt.as_str());
                p.append(" ");
                p.append(config.payment.token.as_str());
                p.append(" ");
                p.append(config.payment.frequency.as_str());
                p.append(" on ");
                p.append(blockchain.as_str());
                p.append(".");
                proof {
                    assert(p@ =~= default_plain(config));
                }
                p
            },
        };
        let category = match find_meta_text(&config.metadata, "category") {
            Some(c) => c,
            None => String::from_str("general"),
        };
        let mut parties: Vec<PartyInfo> = Vec::new();
        let mut i: usize = 0;
        while i < config.parties.len()
            invariant
                0 <= i <= config.parties@.len(),
                parties@.len() == i,
                forall|j: int|
                    0 <= j < i ==> {
                        &&& (#[trigger] parties@[j]).role@ == "party_"@ + dec_of((j + 1) as nat)
                        &&& parties@[j].identifier@ == config.parties@[j]@
                        &&& parties@[j].name is None
                    },
            decreases config.parties@.len() - i,
        {
            let mut role = String::from_str("party_");
            push_dec_u64(&mut role, (i + 1) as u64);
            parties.push(
                PartyInfo { role, identifier: config.parties[i].clone(), name: None },
            );
            i = i + 1;
        }
        let mut extra: Vec<MetaEntry> = Vec::new();
        match &config.metadata {
            Some(entries) => {
                let mut k: usize = 0;
                while k < entries.len()
                    invariant
                        0 <= k <= entries@.len(),
                        meta_entries_eq(extra@, extras_of(entries@.take(k as int))),
                    decreases entries@.len() - k,
                {
                    let key = &entries[k].key;
                    let reserved = str_eq(key.as_str(), "title") || str_eq(
                        key.as_str(),
                        "description",
                    ) || str_eq(key.as_str(), "category");
                    proof {
                        assert(entries@.take(k + 1).drop_last() =~= entries@.take(k as int));
                        assert(entries@.take(k + 1).last() == entries@[k as int]);
                    }
                    if !reserved {
                        extra.push(copy_meta_entry(&entries[k]));
                    }
                    proof {
                        assert(meta_entries_eq(extra@, extras_of(entries@.take(k + 1))));
                    }
                    k = k + 1;
                }
                proof {
                    assert(entries@.take(entries@.len() as int) =~= entries@);
                }
            },
            None => {},
        }
        let mut required: Vec<ConditionDefinition> = Vec::new();
        match &config.conditions {
            Some(cs) => {
                let mut k: usize = 0;
                while k < cs.len()
                    invariant
                        0 <= k <= cs@.len(),
                        required@.len() == k,
                        forall|j: int|
                            0 <= j < k ==> {
                                &&& (#[trigger] required@[j]).id@ == cs@[j].id@
                                &&& required@[j].description@ == cs@[j].description@
                                &&& required@[j].source@ == cs@[j].source@
                                &&& required@[j].operator@ == cs@[j].operator@
                                &&& required@[j].threshold matches Option::Some(t) && t@
                                    == cs@[j].threshold@
                            },
                    decreases cs@.len() - k,
                {
                    required.push(
                        ConditionDefinition {
                            id: cs[k].id.clone(),
                            description: cs[k].description.clone(),
                            source: cs[k].source.clone(),
                            operator: cs[k].operator.clone(),
                            threshold: Some(cs[k].threshold),
                        },
                    );
                    k = k + 1;
                }
            },
            None => {},
        }
        let structure = if str_eq(config.payment.frequency.as_str(), "one-time") {
            String::from_str("one-time")
        } else {
            String::from_str("recurring")
        };
        let ucl = UCLContract {
            contract_id,
            version: String::from_str("1.0"),
            standard: String::from_str("UCL-1.0"),
            summary: ContractSummary {
                title,
                plain_english,
                what_it_does: String::new(),
                who_its_for: String::new(),
                when_it_executes: String::new(),
            },
            metadata: ContractMetadata {
                contract_type: config.contract_type.clone(),
                category,
                parties,
                dates: DateInfo {
                    effective: String::from_str("2024-01-01"),
                    duration: String::from_str("12 months"),
                    renewal: String::from_str("auto"),
                },
                extra,
            },
            payment: PaymentTerms {
                structure,
                amount: config.payment.amount,
                currency: String::from_str("USD"),
                token: config.payment.token.clone(),
                blockchain,
                frequency: config.payment.frequency.clone(),
            },
            conditions: Conditions { required, optional: None },
            oracles: Vec::new(),
            rules: Vec::new(),
        };
        Ok(
            Contract {
                ucl,
                status: ContractStatus::Draft,
                deployed_address: None,
                transaction_hash: None,
            },
        )
    }

    /// Apply a chain adapter's outcome for a deployment to `network`. Only a
    /// draft contract may deploy; success stores the address and transaction
    /// hash and moves to `Deployed`, an adapter failure moves to `Failed`
    /// and surfaces the adapter's message unchanged.
    pub fn deploy_with(&mut self, network: &str, outcome: Result<ChainDeployment, String>) -> (r:
        Result<DeployResult, Error>)
        ensures
            old(self).spec_status() != ContractStatus::Draft ==> {
                &&& r matches Err(Error::DeploymentError(m)) && m@
                    == "contract is not in draft state"@
                &&& *final(self) == *old(self)
            },
            old(self).spec_status() == ContractStatus::Draft ==> (outcome matches Ok(d)
                ==> ({
                &&& r matches Ok(res) && {
                    &&& res.success == true
                    &&& res.address@ == d.address@
                    &&& res.transaction_hash@ == d.transaction_hash@
                    &&& res.network@ == network@
                    &&& res.block_number == d.block_number
                    &&& res.contract_id@ == old(self).ucl.contract_id@
                }
                &&& final(self).spec_status() == ContractStatus::Deployed
                &&& final(self).spec_address() matches Option::Some(a) && a == d.address@
                &&& final(self).spec_transaction_hash() matches Option::Some(t) && t
                    == d.transaction_hash@
                &&& final(self).ucl == old(self).ucl
            })),
            old(self).spec_status() == ContractStatus::Draft ==> (outcome matches Err(e)
                ==> ({
                &&& r matches Err(Error::DeploymentError(m)) && m@ == e@
                &&& final(self).spec_status() == ContractStatus::Failed
                &&& final(self).spec_address() == old(self).spec_address()
                &&& final(self).spec_transaction_hash() == old(self).spec_transaction_hash()
                &&& final(self).ucl == old(self).ucl
            })),
    {
        if !matches!(self.status, ContractStatus::Draft) {
            return Err(Error::DeploymentError(String::from_str("contract is not in draft state")));
        }
        self.status = ContractStatus::Deploying;
        match outcome {
            Ok(d) => {
                self.deployed_address = Some(d.address.clone());
                self.transaction_hash = Some(d.transaction_hash.clone());
                self.status = ContractStatus::Deployed;
                Ok(
                    DeployResult {
                        success: true,
                        address: d.address,
                        transaction_hash: d.transaction_hash,
                        network: String::from_str(network),
                        block_number: d.block_number,
                        contract_id: self.ucl.contract_id.clone(),
                    },
                )
            },
            Err(e) => {
                self.status = ContractStatus::Failed;
                Err(Error::DeploymentError(e))
            },
        }
    }

    /// Apply a payment adapter's outcome. A payment is only meaningful on a
    /// deployed or active contract; the adapter's failure message is
    /// surfaced unchanged, and a successful outcome is reported with the
    /// contract's own payment terms.
    pub fn execute_payment_with(&self, outcome: Result<PaymentOutcome, String>) -> (r: Result<
        PaymentResult,
        Error,
    >)
        ensures
            self.spec_status() != ContractStatus::Deployed && self.spec_status()
                != ContractStatus::Active ==> (r matches Err(Error::PaymentError(m)) && m@
                == "contract is not deployed"@),
            (self.spec_status() == ContractStatus::Deployed || self.spec_status()
                == ContractStatus::Active) ==> (outcome matches Err(e) ==> (r matches Err(
                Error::PaymentError(m),
            ) && m@ == e@)),
            (self.spec_status() == ContractStatus::Deployed || self.spec_status()
                == ContractStatus::Active) ==> (outcome matches Ok(po) ==> (r matches Ok(res) && {
                &&& res.success == true
                &&& res.transaction_hash@ == po.transaction_hash@
                &&& res.amount@ == self.ucl.payment.amount@
                &&& res.token@ == self.ucl.payment.token@
                &&& res.network@ == self.ucl.payment.blockchain@
                &&& res.from@ == po.from@
                &&& res.to@ == po.to@
            })),
    {
        let deployed = matches!(self.status, ContractStatus::Deployed) || matches!(
            self.status,
            ContractStatus::Active,
        );
        if !deployed {
            return Err(Error::PaymentError(String::from_str("contract is not deployed")));
        }
        match outcome {
            Ok(po) => Ok(
                PaymentResult {
                    success: true,
                    transaction_hash: po.transaction_hash,
                    amount: self.ucl.payment.amount,
                    token: self.ucl.payment.token.clone(),
                    network: self.ucl.payment.blockchain.clone(),
                    from: po.from,
                    to: po.to,
                },
            ),
            Err(e) => Err(Error::PaymentError(e)),
        }
    }

    /// Evaluate the contract's conditions against the facts an oracle
    /// supplied: one verdict per defined condition (required first, then
    /// optional), and `all_met` as the logical AND over the required
    /// conditions only — optional conditions never affect it, and neither
    /// does the order of the facts.
    pub fn check_conditions_with(&self, facts: &Vec<ConditionVerdict>) -> (r: ConditionCheckResult)
        ensures
            r.all_met == all_required_met(self.ucl.conditions.required@, facts@),
            r.conditions@.len() == self.ucl.conditions.required@.len() + (
            match self.ucl.conditions.optional {
                Option::Some(os) => os@.len() as int,
                Option::None => 0int,
            }),
            forall|i: int|
                0 <= i < self.ucl.conditions.required@.len() ==> {
                    &&& (#[trigger] r.conditions@[i]).id@ == self.ucl.conditions.required@[i].id@
                    &&& r.conditions@[i].met == fact_of(facts@, self.ucl.conditions.required@[i].id@)
                },
            self.ucl.conditions.optional matches Option::Some(os) ==> forall|i: int|
                0 <= i < os@.len() ==> {
                    &&& (#[trigger] r.conditions@[i + self.ucl.conditions.required@.len()]).id@
                        == os@[i].id@
                    &&& r.conditions@[i + self.ucl.conditions.required@.len()].met == fact_of(
                        facts@,
                        os@[i].id@,
                    )
                },
    {
        let mut verdicts: Vec<ConditionVerdict> = Vec::new();
        let mut all_met = true;
        let required = &self.ucl.conditions.required;
        let mut i: usize = 0;
        while i < required.len()
            invariant
                0 <= i <= required@.len(),
                verdicts@.len() == i,
                forall|j: int|
                    0 <= j < i ==> {
                        &&& (#[trigger] verdicts@[j]).id@ == required@[j].id@
                        &&& verdicts@[j].met == fact_of(facts@, required@[j].id@)
                    },
                all_met == forall|j: int| 0 <= j < i ==> fact_of(facts@, #[trigger] required@[j].id@),
            decreases required@.len() - i,
        {
            let met = lookup_fact(facts, required[i].id.as_str());
            verdicts.push(ConditionVerdict { id: required[i].id.clone(), met });
            all_met = all_met && met;
            i = i + 1;
        }
        match &self.ucl.conditions.optional {
            Some(os) => {
                let base = Ghost(verdicts@.len() as int);
                let mut k: usize = 0;
                while k < os.len()
                    invariant
                        0 <= k <= os@.len(),
                        base@ == required@.len(),
                        verdicts@.len() == base@ + k,
                        forall|j: int|
                            0 <= j < base@ ==> {
                                &&& (#[trigger] verdicts@[j]).id@ == required@[j].id@
                                &&& verdicts@[j].met == fact_of(facts@, required@[j].id@)
                            },
                        forall|j: int|
                            0 <= j < k ==> {
                                &&& (#[trigger] verdicts@[j + base@]).id@ == os@[j].id@
                                &&& verdicts@[j + base@].met == fact_of(facts@, os@[j].id@)
                            },
                    decreases os@.len() - k,
                {
                    let met = lookup_fact(facts, os[k].id.as_str());
                    verdicts.push(ConditionVerdict { id: os[k].id.clone(), met });
                    k = k + 1;
                }
            },
            None => {},
        }
        let timestamp = now_unix_nanos();
        ConditionCheckResult { all_met, conditions: verdicts, timestamp }
    }

    /// The plain-English summary of the contract.
    pub fn get_summary(&self) -> (r: String)
        ensures
            r@ == self.ucl.summary.plain_english@,
    {
        self.ucl.summary.plain_english.clone()
    }

    /// The current lifecycle status.
    pub fn status(&self) -> (r: ContractStatus)
        ensures
            r == self.spec_status(),
    {
        self.status
    }

    /// The deployed address, once deployed.
    pub fn address(&self) -> (r: Option<&String>)
        ensures
            match r {
                Option::Some(a) => self.spec_address() == Option::Some(a@),
                Option::None => self.spec_address() is None,
            },
    {
        match &self.deployed_address {
            Some(a) => Some(a),
            None => None,
        }
    }

    /// The deployment transaction hash, once deployed.
    pub fn transaction_hash(&self) -> (r: Option<&String>)
        ensures
            match r {
                Option::Some(t) => self.spec_transaction_hash() == Option::Some(t@),
                Option::None => self.spec_transaction_hash() is None,
            },
    {
        match &self.transaction_hash {
            Some(t) => Some(t),
            None => None,
        }
    }
}

/// The oracle's verdict on one condition id; a condition the oracle did not
/// report is not met.
pub open spec fn fact_of(facts: Seq<ConditionVerdict>, id: Seq<char>) -> bool
    decreases facts.len(),
{
    if facts.len() == 0 {
        false
    } else if facts[0].id@ == id {
        facts[0].met
    } else {
        fact_of(facts.subrange(1, facts.len() as int), id)
    }
}

/// Whether every required condition is met under the given facts. A
/// property of the set of ids alone: the order of the conditions does not
/// enter.
pub open spec fn all_required_met(cs: Seq<ConditionDefinition>, facts: Seq<ConditionVerdict>) -> bool {
    forall|i: int| 0 <= i < cs.len() ==> fact_of(facts, (#[trigger] cs[i]).id@)
}

/// Look up the oracle's verdict on one condition id.
fn lookup_fact(facts: &Vec<ConditionVerdict>, id: &str) -> (r: bool)
    ensures
        r == fact_of(facts@, id@),
{
    let r = lookup_fact_from(facts, id, 0);
    proof {
        assert(facts@.skip(0) =~= facts@);
    }
    r
}

/// Look up the verdict at or after `from`.
fn lookup_fact_from(facts: &Vec<ConditionVerdict>, id: &str, from: usize) -> (r: bool)
    requires
        from <= facts@.len(),
    ensures
        r == fact_of(facts@.skip(from as int), id@),
    decreases facts@.len() - from,
{
    if from >= facts.len() {
        proof {
            assert(facts@.skip(from as int) =~= Seq::<ConditionVerdict>::empty());
        }
        return false;
    }
    proof {
        let t = facts@.skip(from as int);
        assert(t[0] == facts@[from as int]);
        assert(t.subrange(1, t.len() as int) =~= facts@.skip(from as int + 1));
    }
    if str_eq(facts[from].id.as_str(), id) {
        facts[from].met
    } else {
        lookup_fact_from(facts, id, from + 1)
    }
}

/// Find the first text metadata value under `key`.
fn find_meta_text(m: &Option<Vec<MetaEntry>>, key: &str) -> (r: Option<String>)
    ensures
        match r {
            Option::Some(v) => config_meta_text(*m, key@) == Option::Some(v@),
            Option::None => config_meta_text(*m, key@) is None,
        },
{
    match m {
        Some(entries) => {
            let r = find_meta_text_from(entries, key, 0);
            proof {
                assert(entries@.skip(0) =~= entries@);
            }
            r
        },
        None => None,
    }
}

/// Find the first text metadata value under `key` at or after `from`.
fn find_meta_text_from(entries: &Vec<MetaEntry>, key: &str, from: usize) -> (r: Option<String>)
    requires
        from <= entries@.len(),
    ensures
        match r {
            Option::Some(v) => meta_text(entries@.skip(from as int), key@) == Option::Some(v@),
            Option::None => meta_text(entries@.skip(from as int), key@) is None,
        },
    decreases entries@.len() - from,
{
    if from >= entries.len() {
        proof {
            assert(entries@.skip(from as int) =~= Seq::<MetaEntry>::empty());
        }
        return None;
    }
    proof {
        let t = entries@.skip(from as int);
        assert(t[0] == entries@[from as int]);
        assert(t.subrange(1, t.len() as int) =~= entries@.skip(from as int + 1));
    }
    if str_eq(entries[from].key.as_str(), key) {
        match &entries[from].value {
            MetaValue::Text(s) => Some(s.clone()),
            _ => None,
        }
    } else {
        find_meta_text_from(entries, key, from + 1)
    }
}

} // verus!
