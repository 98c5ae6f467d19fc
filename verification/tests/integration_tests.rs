//! Integration tests across the SDK surface.

use smart402::{
    Amount, ChainDeployment, ConditionConfig, ConditionVerdict, ContractConfig, MetaEntry,
    MetaValue, PaymentConfig, PaymentOutcome, Smart402, AEOEngine, LLMOEngine, X402Client,
};

fn basic_config(contract_type: &str, amount: Amount, frequency: &str) -> ContractConfig {
    ContractConfig {
        contract_type: contract_type.to_string(),
        parties: vec![
            "vendor@example.com".to_string(),
            "customer@example.com".to_string(),
        ],
        payment: PaymentConfig {
            amount,
            token: "USDC".to_string(),
            frequency: frequency.to_string(),
            blockchain: Some("polygon".to_string()),
            day_of_month: None,
        },
        conditions: None,
        metadata: None,
    }
}

fn small_config(amount: Amount) -> ContractConfig {
    ContractConfig {
        contract_type: "test".to_string(),
        parties: vec!["a@test.com".to_string(), "b@test.com".to_string()],
        payment: PaymentConfig {
            amount,
            token: "USDC".to_string(),
            frequency: "monthly".to_string(),
            blockchain: Some("polygon".to_string()),
            day_of_month: None,
        },
        conditions: None,
        metadata: None,
    }
}

#[test]
fn test_version() {
    assert!(!smart402::version().is_empty());
}

#[test]
fn test_create_basic_contract() {
    let contract = Smart402::create(basic_config(
        "saas-subscription",
        Amount::from_units(99),
        "monthly",
    ))
    .unwrap();

    assert!(contract.ucl.contract_id.contains("smart402:"));
    assert_eq!(contract.ucl.payment.amount, Amount::from_units(99));
    assert_eq!(contract.ucl.payment.token, "USDC");
    assert_eq!(contract.ucl.metadata.parties.len(), 2);
}

#[test]
fn test_create_from_template() {
    let variables = vec![
        MetaEntry {
            key: "vendor_email".to_string(),
            value: MetaValue::Text("vendor@test.com".to_string()),
        },
        MetaEntry {
            key: "customer_email".to_string(),
            value: MetaValue::Text("customer@test.com".to_string()),
        },
        MetaEntry {
            key: "amount".to_string(),
            value: MetaValue::Decimal(Amount::from_units(49)),
        },
    ];

    let contract = Smart402::from_template("saas-subscription".to_string(), variables).unwrap();

    assert_eq!(contract.ucl.payment.amount, Amount::from_units(49));
}

#[test]
fn test_unique_contract_ids() {
    let config = small_config(Amount::from_units(10));

    let contract1 = Smart402::create(config.clone()).unwrap();
    let contract2 = Smart402::create(config).unwrap();

    assert_ne!(contract1.ucl.contract_id, contract2.ucl.contract_id);
}

#[test]
fn test_calculate_aeo_score() {
    let mut config = basic_config("saas-subscription", Amount::from_units(99), "monthly");
    config.metadata = Some(vec![
        MetaEntry {
            key: "title".to_string(),
            value: MetaValue::Text("Monthly SaaS Subscription".to_string()),
        },
        MetaEntry {
            key: "description".to_string(),
            value: MetaValue::Text("Automated monthly payment for software service".to_string()),
        },
        MetaEntry {
            key: "category".to_string(),
            value: MetaValue::Text("saas".to_string()),
        },
    ]);
    let contract = Smart402::create(config).unwrap();

    let aeo = AEOEngine::new();
    let score = aeo.calculate_score(&contract.ucl).unwrap();

    // scores are fixed-point: sub-scores in hundredths, the total in
    // ten-thousandths of one
    assert!(score.total <= 10000);
    assert!(score.semantic_richness <= 100);
    assert!(score.citation_friendliness <= 100);
    assert!(score.findability <= 100);
}

#[test]
fn test_generate_jsonld() {
    let contract = Smart402::create(basic_config(
        "saas-subscription",
        Amount::from_units(99),
        "monthly",
    ))
    .unwrap();

    let aeo = AEOEngine::new();
    let jsonld = aeo.generate_jsonld(&contract.ucl).unwrap();

    assert!(jsonld.contains("@context"));
    assert!(jsonld.contains("https://schema.org/"));
    assert!(jsonld.contains("SmartContract"));
    assert!(jsonld.contains(&contract.ucl.contract_id));
}

#[test]
fn test_validate_contract() {
    let contract = Smart402::create(basic_config(
        "saas-subscription",
        Amount::from_units(99),
        "monthly",
    ))
    .unwrap();

    let llmo = LLMOEngine::new();
    let validation = llmo.validate(&contract.ucl).unwrap();

    assert!(validation.valid);
    assert!(validation.errors.is_empty());
}

#[test]
fn test_generate_explanation() {
    let contract = Smart402::create(basic_config(
        "saas-subscription",
        Amount::from_units(99),
        "monthly",
    ))
    .unwrap();

    let llmo = LLMOEngine::new();
    let explanation = llmo.explain(&contract.ucl).unwrap();

    assert!(!explanation.is_empty());
    assert!(explanation.to_lowercase().contains("contract"));
    assert!(explanation.to_lowercase().contains("payment"));
}

#[test]
fn test_compile_to_solidity() {
    let contract = Smart402::create(basic_config(
        "saas-subscription",
        Amount::from_units(99),
        "monthly",
    ))
    .unwrap();

    let llmo = LLMOEngine::new();
    let solidity = llmo.compile(&contract.ucl, "solidity").unwrap();

    assert!(solidity.contains("pragma solidity"));
    assert!(solidity.contains("contract"));
    assert!(solidity.contains("function"));
}

#[test]
fn test_compile_to_javascript() {
    let contract = Smart402::create(basic_config(
        "saas-subscription",
        Amount::from_units(99),
        "monthly",
    ))
    .unwrap();

    let llmo = LLMOEngine::new();
    let javascript = llmo.compile(&contract.ucl, "javascript").unwrap();

    assert!(javascript.contains("class"));
    assert!(javascript.contains("async"));
    assert!(javascript.contains("executePayment"));
}

#[test]
fn test_compile_to_rust() {
    let contract = Smart402::create(basic_config(
        "saas-subscription",
        Amount::from_units(99),
        "monthly",
    ))
    .unwrap();

    let llmo = LLMOEngine::new();
    let rust = llmo.compile(&contract.ucl, "rust").unwrap();

    assert!(rust.contains("pub struct"));
    assert!(rust.contains("impl"));
    assert!(rust.contains("execute_payment"));
}

#[test]
fn test_generate_x402_headers() {
    let mut config = basic_config("api-payment", Amount::from_micros(100_000), "per-request");
    config.parties = vec![
        "provider@api.com".to_string(),
        "consumer@client.com".to_string(),
    ];
    let contract = Smart402::create(config).unwrap();

    let mut x402 = X402Client::new("https://x402.smart402.io".to_string());
    let headers = x402.generate_headers(&contract.ucl, true).unwrap();

    assert_eq!(headers.contract_id, contract.ucl.contract_id);
    assert_eq!(headers.payment_amount, "0.1");
    assert_eq!(headers.payment_token, "USDC");
    assert_eq!(headers.settlement_network, "polygon");
    assert!(!headers.signature.is_empty());
    assert!(!headers.nonce.is_empty());
}

#[test]
fn test_deploy_to_testnet() {
    let mut config = small_config(Amount::from_units(10));
    config.payment.blockchain = Some("polygon-mumbai".to_string());
    config.payment.frequency = "one-time".to_string();
    let mut contract = Smart402::create(config).unwrap();

    let outcome = Ok(ChainDeployment {
        address: "0x1234567890123456789012345678901234567890".to_string(),
        transaction_hash: "0xabcdef1234567890".to_string(),
        block_number: Some(42),
    });
    let result = contract.deploy_with("polygon-mumbai", outcome).unwrap();

    assert_eq!(result.network, "polygon-mumbai");
    assert!(result.address.starts_with("0x"));
    assert_eq!(result.address.len(), 42);
    assert!(result.transaction_hash.starts_with("0x"));
}

#[test]
fn test_check_conditions() {
    let mut config = basic_config("saas-subscription", Amount::from_units(99), "monthly");
    config.conditions = Some(vec![ConditionConfig {
        id: "uptime_check".to_string(),
        description: "Service uptime > 99%".to_string(),
        source: "api".to_string(),
        operator: ">".to_string(),
        threshold: Amount::from_micros(990_000),
    }]);
    let contract = Smart402::create(config).unwrap();

    let facts = vec![ConditionVerdict {
        id: "uptime_check".to_string(),
        met: true,
    }];
    let result = contract.check_conditions_with(&facts);

    assert!(result.timestamp > 0);
}

#[test]
fn test_execute_payment() {
    let mut contract = Smart402::create(small_config(Amount::from_units(99))).unwrap();
    contract
        .deploy_with(
            "polygon",
            Ok(ChainDeployment {
                address: "0x1234567890abcdef".to_string(),
                transaction_hash: "0xabcdef1234567890".to_string(),
                block_number: Some(12345678),
            }),
        )
        .unwrap();

    let outcome = Ok(PaymentOutcome {
        transaction_hash: "0xpayment123".to_string(),
        from: "0xfrom".to_string(),
        to: "0xto".to_string(),
    });
    let result = contract.execute_payment_with(outcome).unwrap();

    assert!(result.success);
    assert!(result.transaction_hash.starts_with("0x"));
    assert_eq!(result.amount, Amount::from_units(99));
    assert_eq!(result.token, "USDC");
}

#[test]
fn test_export_yaml() {
    let contract = Smart402::create(small_config(Amount::from_units(10))).unwrap();

    let yaml = smart402::export_yaml(&contract.ucl).unwrap();

    assert!(yaml.contains("contract_id:"));
    assert!(yaml.contains("payment:"));
    assert!(yaml.contains("amount: 10"));
}

#[test]
fn test_export_json() {
    let contract = Smart402::create(small_config(Amount::from_units(10))).unwrap();

    let json = smart402::export_json(&contract.ucl).unwrap();
    let parsed: serde_json::Value = serde_json::from_str(&json).unwrap();

    assert!(parsed.get("contract_id").is_some());
    assert!(parsed.get("payment").is_some());
    assert_eq!(parsed["payment"]["amount"].as_f64().unwrap(), 10.0);
}

#[test]
fn test_list_templates() {
    let templates = Smart402::get_templates();

    assert!(!templates.is_empty());
    assert!(templates.len() > 0);
}

#[test]
fn test_invalid_payment_amount() {
    // negative amounts are rejected at construction
    let result = Smart402::create(small_config(Amount::from_units(-100)));

    assert!(result.is_err());
}

#[test]
fn test_contract_summary() {
    let contract = Smart402::create(basic_config(
        "saas-subscription",
        Amount::from_units(99),
        "monthly",
    ))
    .unwrap();

    let summary = contract.get_summary();

    assert!(summary.contains("99"));
    assert!(summary.contains("USDC"));
    assert!(summary.contains("monthly"));
}

#[test]
fn test_aeo_score_improvement_with_metadata() {
    let basic_contract = Smart402::create(small_config(Amount::from_units(10))).unwrap();

    let mut rich_config = small_config(Amount::from_units(10));
    rich_config.metadata = Some(vec![
        MetaEntry {
            key: "title".to_string(),
            value: MetaValue::Text("Comprehensive Test Contract".to_string()),
        },
        MetaEntry {
            key: "description".to_string(),
            value: MetaValue::Text("Detailed description with rich metadata".to_string()),
        },
        MetaEntry {
            key: "category".to_string(),
            value: MetaValue::Text("testing".to_string()),
        },
        MetaEntry {
            key: "tags".to_string(),
            value: MetaValue::TextList(vec![
                "test".to_string(),
                "example".to_string(),
                "smart402".to_string(),
            ]),
        },
    ]);
    let rich_contract = Smart402::create(rich_config).unwrap();

    let aeo = AEOEngine::new();
    let basic_score = aeo.calculate_score(&basic_contract.ucl).unwrap();
    let rich_score = aeo.calculate_score(&rich_contract.ucl).unwrap();

    assert!(rich_score.total >= basic_score.total);
}

#[test]
fn test_validation_errors() {
    // construction rejects an invalid configuration, so build a valid
    // contract and damage its fields to exercise explicit validation
    let mut contract = Smart402::create(small_config(Amount::from_units(10))).unwrap();
    contract.ucl.contract_id = String::new();
    contract.ucl.payment.amount = Amount::from_units(-10);

    let llmo = LLMOEngine::new();
    let validation = llmo.validate(&contract.ucl).unwrap();

    assert!(!validation.valid);
    assert!(!validation.errors.is_empty());
}

#[test]
fn test_x402_unique_nonce() {
    let mut config = basic_config("api-payment", Amount::from_units(10), "per-request");
    config.parties = vec![
        "provider@api.com".to_string(),
        "consumer@client.com".to_string(),
    ];
    let contract = Smart402::create(config).unwrap();

    let mut x402 = X402Client::new("https://x402.smart402.io".to_string());
    let headers1 = x402.generate_headers(&contract.ucl, true).unwrap();
    let headers2 = x402.generate_headers(&contract.ucl, true).unwrap();

    assert_ne!(headers1.nonce, headers2.nonce);
}
