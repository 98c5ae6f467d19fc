//! The SDK facade: contract creation, templates.

use vstd::prelude::*;
use crate::amount::Amount;
use crate::error::Error;
use crate::lifecycle::{Contract, config_ok, from_config_post};
use crate::model::{ContractConfig, MetaEntry, MetaValue, PaymentConfig};
use crate::text::str_eq;

verus! {

/// The first metadata value under `key`, whatever its kind.
pub open spec fn meta_value_of(entries: Seq<MetaEntry>, key: Seq<char>) -> Option<MetaValue>
    decreases entries.len(),
{
    if entries.len() == 0 {
        Option::None
    } else if entries[0].key@ == key {
        Option::Some(entries[0].value)
    } else {
        meta_value_of(entries.subrange(1, entries.len() as int), key)
    }
}

/// The first text value under `key`.
pub open spec fn var_text(entries: Seq<MetaEntry>, key: Seq<char>) -> Option<Seq<char>> {
    match meta_value_of(entries, key) {
        Option::Some(MetaValue::Text(s)) => Option::Some(s@),
        _ => Option::None,
    }
}

/// Whether a template of this name exists.
pub open spec fn known_template(name: Seq<char>) -> bool {
    ||| name == "saas-subscription"@
    ||| name == "freelancer-milestone"@
    ||| name == "supply-chain"@
    ||| name == "affiliate-commission"@
    ||| name == "vendor-sla"@
}

/// The payment frequency each template uses.
pub open spec fn template_frequency(name: Seq<char>) -> Seq<char> {
    if name == "saas-subscription"@ {
        "monthly"@
    } else if name == "freelancer-milestone"@ {
        "per-milestone"@
    } else if name == "supply-chain"@ {
        "on-delivery"@
    } else if name == "affiliate-commission"@ {
        "per-sale"@
    } else {
        "monthly"@
    }
}

/// The payment amount a variable list assigns, in millionths: a decimal or
/// integer variable named `amount`, zero otherwise.
pub open spec fn template_amount(vars: Seq<MetaEntry>) -> int {
    match meta_value_of(vars, "amount"@) {
        Option::Some(MetaValue::Decimal(a)) => a@,
        Option::Some(MetaValue::Integer(i)) => if -9000000000000 <= i <= 9000000000000 {
            i * 1000000
        } else {
            0int
        },
        _ => 0int,
    }
}

/// The main SDK entry point: a default network and an optional signing key
/// for deployments.
#[derive(Debug, Clone, PartialEq)]
pub struct Smart402 {
    network: String,
    private_key: Option<String>,
}

impl Smart402 {
    /// The configured default network.
    pub closed spec fn spec_network(&self) -> Seq<char> {
        self.network@
    }

    /// Whether a private key is configured.
    pub closed spec fn spec_has_key(&self) -> bool {
        self.private_key is Some
    }

    /// Create an SDK instance for a network, optionally with a private key.
    pub fn new(network: String, private_key: Option<String>) -> (r: Result<Smart402, Error>)
        ensures
            r matches Ok(s) && s.spec_network() == network@ && s.spec_has_key() == (
            private_key is Some),
    {
        Ok(Smart402 { network, private_key })
    }

    /// Create a contract from a configuration, on the default network.
    pub fn create(config: ContractConfig) -> (r: Result<Contract, Error>)
        ensures
            from_config_post(config, r),
    {
        Contract::from_config(config)
    }

    /// Create a contract from a configuration.
    pub fn create_contract(&self, config: ContractConfig) -> (r: Result<Contract, Error>)
        ensures
            from_config_post(config, r),
    {
        Contract::from_config(config)
    }

    /// Instantiate a named template with a variable list.
    pub fn from_template(template_name: String, variables: Vec<MetaEntry>) -> (r: Result<
        Contract,
        Error,
    >)
        ensures
            template_post(template_name@, variables@, r),
    {
        let sdk = Smart402 {
            network: String::from_str("polygon"),
            private_key: None,
        };
        sdk.create_from_template(template_name, variables)
    }

    /// Instantiate a named template: the `vendor_email` and `customer_email`
    /// variables become the two parties, an `amount` variable the payment
    /// amount; an unknown template name is a `NotFoundError`, and a template
    /// without both party emails is rejected like any partyless
    /// configuration.
    pub fn create_from_template(&self, template_name: String, variables: Vec<MetaEntry>) -> (r:
        Result<Contract, Error>)
        ensures
            template_post(template_name@, variables@, r),
    {
        let frequency: String = if str_eq(template_name.as_str(), "saas-subscription") {
            String::from_str("monthly")
        } else if str_eq(template_name.as_str(), "freelancer-milestone") {
            String::from_str("per-milestone")
        } else if str_eq(template_name.as_str(), "supply-chain") {
            String::from_str("on-delivery")
        } else if str_eq(template_name.as_str(), "affiliate-commission") {
            String::from_str("per-sale")
        } else if str_eq(template_name.as_str(), "vendor-sla") {
            String::from_str("monthly")
        } else {
            return Err(Error::NotFoundError(template_name));
        };
        let vendor = find_var_text(&variables, "vendor_email");
        let customer = find_var_text(&variables, "customer_email");
        let mut parties: Vec<String> = Vec::new();
        match (vendor, customer) {
            (Some(v), Some(c)) => {
                parties.push(v);
                parties.push(c);
            },
            _ => {},
        }
        let amount = match find_var_value(&variables, "amount") {
            Some(MetaValue::Decimal(a)) => a,
            Some(MetaValue::Integer(i)) => {
                if -9000000000000 <= i && i <= 9000000000000 {
                    Amount::from_units(i)
                } else {
                    Amount::zero()
                }
            },
            _ => Amount::zero(),
        };
        let config = ContractConfig {
            contract_type: template_name,
            parties,
            payment: PaymentConfig {
                amount,
                token: String::from_str("USDC"),
                frequency,
                blockchain: Some(String::from_str("polygon")),
                day_of_month: None,
            },
            conditions: None,
            metadata: None,
        };
        let ghost cfg = config;
        let r = Contract::from_config(config);
        proof {
            reveal_strlit("USDC");
            reveal_strlit("polygon");
            assert("USDC"@.len() == 4);
            assert("polygon"@.len() == 7);
            assert(from_config_post(cfg, r));
            assert(cfg.payment.amount@ == template_amount(variables@));
            assert(cfg.parties@.len() > 0 <==> (var_text(variables@, "vendor_email"@) is Some
                && var_text(variables@, "customer_email"@) is Some));
            assert(config_ok(cfg) <==> (var_text(variables@, "vendor_email"@) is Some && var_text(
                variables@,
                "customer_email"@,
            ) is Some && template_amount(variables@) >= 0));
        }
        r
    }

    /// The names of the available templates.
    pub fn get_templates() -> (r: Vec<String>)
        ensures
            r@.len() == 5,
            r@[0]@ == "saas-subscription"@,
            r@[1]@ == "freelancer-milestone"@,
            r@[2]@ == "supply-chain"@,
            r@[3]@ == "affiliate-commission"@,
            r@[4]@ == "vendor-sla"@,
    {
        let mut v: Vec<String> = Vec::new();
        v.push(String::from_str("saas-subscription"));
        v.push(String::from_str("freelancer-milestone"));
        v.push(String::from_str("supply-chain"));
        v.push(String::from_str("affiliate-commission"));
        v.push(String::from_str("vendor-sla"));
        v
    }
}

/// Everything template instantiation promises.
pub open spec fn template_post(
    name: Seq<char>,
    vars: Seq<MetaEntry>,
    r: Result<Contract, Error>,
) -> bool {
    &&& (!known_template(name) ==> (r matches Err(Error::NotFoundError(m)) && m@ == name))
    &&& (known_template(name) ==> (r is Ok <==> (var_text(vars, "vendor_email"@) is Some
        && var_text(vars, "customer_email"@) is Some && template_amount(vars) >= 0)))
    &&& (known_template(name) ==> (r matches Ok(ct) ==> {
        &&& ct.ucl.payment.amount@ == template_amount(vars)
        &&& ct.ucl.payment.token@ == "USDC"@
        &&& ct.ucl.payment.blockchain@ == "polygon"@
        &&& ct.ucl.payment.frequency@ == template_frequency(name)
        &&& ct.ucl.metadata.contract_type@ == name
        &&& ct.ucl.metadata.parties@.len() == 2
        &&& ct.ucl.metadata.parties@[0].identifier@ == var_text(vars, "vendor_email"@).unwrap()
        &&& ct.ucl.metadata.parties@[1].identifier@ == var_text(vars, "customer_email"@).unwrap()
        &&& ct.spec_status() == crate::model::ContractStatus::Draft
    }))
}

/// Find the first metadata value under `key`, copied out.
fn find_var_value(entries: &Vec<MetaEntry>, key: &str) -> (r: Option<MetaValue>)
    ensures
        match r {
            Option::Some(v) => meta_value_of(entries@, key@) matches Option::Some(w)
                && crate::model::meta_value_eq(v, w),
            Option::None => meta_value_of(entries@, key@) is None,
        },
{
    let r = find_var_value_from(entries, key, 0);
    proof {
        assert(entries@.skip(0) =~= entries@);
    }
    r
}

/// Find the first metadata value under `key` at or after `from`.
fn find_var_value_from(entries: &Vec<MetaEntry>, key: &str, from: usize) -> (r: Option<MetaValue>)
    requires
        from <= entries@.len(),
    ensures
        match r {
            Option::Some(v) => meta_value_of(entries@.skip(from as int), key@) matches Option::Some(
                w,
            ) && crate::model::meta_value_eq(v, w),
            Option::None => meta_value_of(entries@.skip(from as int), key@) is None,
        },
    decreases entries@.len() - from,
{
    if from >= entries.len() {
        proof {
            assert(entries@.skip(from as int) =~= Seq::<MetaEntry>::empty());
        }
        return None;
    }
    proof {
        let t = entries@.skip(from as int);
        assert(t[0] == entries@[from as int]);
        assert(t.subrange(1, t.len() as int) =~= entries@.skip(from as int + 1));
    }
    if str_eq(entries[from].key.as_str(), key) {
        Some(crate::model::copy_meta_value(&entries[from].value))
    } else {
        find_var_value_from(entries, key, from + 1)
    }
}

/// Find the first text value under `key`, copied out.
fn find_var_text(entries: &Vec<MetaEntry>, key: &str) -> (r: Option<String>)
    ensures
        match r {
            Option::Some(v) => var_text(entries@, key@) == Option::Some(v@),
            Option::None => var_text(entries@, key@) is None,
        },
{
    match find_var_value(entries, key) {
        Some(MetaValue::Text(s)) => Some(s),
        _ => None,
    }
}

} // verus!
