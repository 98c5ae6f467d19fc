//! Scenario tests for the scoring, validation, compilation, header and
//! persistence behavior the library's contracts state.

use smart402::{
    Amount, ChainDeployment, ConditionConfig, ConditionVerdict, ContractConfig, Error, MetaEntry,
    MetaValue, PaymentConfig, Smart402, AEOEngine, ContractStatus, LLMOEngine, X402Client,
};

fn config_with_parties(amount: Amount) -> ContractConfig {
    ContractConfig {
        contract_type: "saas-subscription".to_string(),
        parties: vec![
            "vendor@example.com".to_string(),
            "customer@example.com".to_string(),
        ],
        payment: PaymentConfig {
            amount,
            token: "USDC".to_string(),
            frequency: "monthly".to_string(),
            blockchain: Some("polygon".to_string()),
            day_of_month: None,
        },
        conditions: None,
        metadata: None,
    }
}

#[test]
fn test_amount_rendering_exact() {
    assert_eq!(Amount::from_units(99).render(), "99");
    assert_eq!(Amount::from_micros(100_000).render(), "0.1");
    assert_eq!(Amount::from_units(-10).render(), "-10");
    assert_eq!(Amount::zero().render(), "0");
    assert_eq!(Amount::from_micros(1_234_560).render(), "1.23456");
    assert_eq!(Amount::from_micros(-1_500_000).render(), "-1.5");
}

#[test]
fn test_amount_parse_render_round_trip() {
    for micros in [0i64, 1, -1, 990_000, 99_000_000, -10_000_000, 123_456_789] {
        let a = Amount::from_micros(micros);
        let back = smart402::amount::parse_amount(&a.render()).unwrap();
        assert_eq!(back, a);
    }
}

#[test]
fn test_semantic_richness_baseline() {
    // empty summary facets with a non-empty party list score a quarter
    let contract = Smart402::create(config_with_parties(Amount::from_units(99))).unwrap();

    let aeo = AEOEngine::new();
    let score = aeo.calculate_score(&contract.ucl).unwrap();

    assert_eq!(score.semantic_richness, 25);
}

#[test]
fn test_score_exact_total() {
    let contract = Smart402::create(config_with_parties(Amount::from_units(99))).unwrap();

    let aeo = AEOEngine::new();
    let score = aeo.calculate_score(&contract.ucl).unwrap();

    // semantic 25, citation 40 (namespace id), findability 100, baselines 50
    assert_eq!(score.semantic_richness, 25);
    assert_eq!(score.citation_friendliness, 40);
    assert_eq!(score.findability, 100);
    assert_eq!(score.authority_signals, 50);
    assert_eq!(score.citation_presence, 50);
    assert_eq!(score.total, 25 * 25 + 40 * 20 + 100 * 25 + 50 * 15 + 50 * 15);
}

#[test]
fn test_validate_negative_amount_mentions_amount() {
    let mut contract = Smart402::create(config_with_parties(Amount::from_units(99))).unwrap();
    contract.ucl.payment.amount = Amount::from_units(-10);

    let llmo = LLMOEngine::new();
    let validation = llmo.validate(&contract.ucl).unwrap();

    assert!(!validation.valid);
    assert!(validation.errors.iter().any(|e| e.contains("amount")));
}

#[test]
fn test_validate_warnings() {
    let mut contract = Smart402::create(config_with_parties(Amount::from_units(99))).unwrap();
    contract.ucl.summary.title = String::new();
    contract.ucl.payment.currency = String::new();

    let llmo = LLMOEngine::new();
    let validation = llmo.validate(&contract.ucl).unwrap();

    assert!(validation.valid);
    assert_eq!(validation.warnings.len(), 2);
}

#[test]
fn test_explain_idempotent() {
    let contract = Smart402::create(config_with_parties(Amount::from_units(99))).unwrap();

    let llmo = LLMOEngine::new();
    let first = llmo.explain(&contract.ucl).unwrap();
    let second = llmo.explain(&contract.ucl).unwrap();

    assert_eq!(first, second);
}

#[test]
fn test_compile_unknown_target_fails() {
    let contract = Smart402::create(config_with_parties(Amount::from_units(99))).unwrap();

    let llmo = LLMOEngine::new();
    let result = llmo.compile(&contract.ucl, "cobol");

    match result {
        Err(Error::CompilationError(m)) => assert!(m.contains("cobol")),
        _ => panic!("an unrecognized target must fail with a compilation error"),
    }
}

#[test]
fn test_compile_embeds_exact_amount() {
    let mut config = config_with_parties(Amount::from_micros(99_500_000));
    config.payment.frequency = "monthly".to_string();
    let contract = Smart402::create(config).unwrap();

    let llmo = LLMOEngine::new();
    for target in ["solidity", "javascript", "rust"] {
        let code = llmo.compile(&contract.ucl, target).unwrap();
        assert!(code.contains("99.5"));
    }
}

#[test]
fn test_headers_stable_fields() {
    let contract = Smart402::create(config_with_parties(Amount::from_units(99))).unwrap();

    let mut x402 = X402Client::new("https://x402.example".to_string());
    let h1 = x402.generate_headers(&contract.ucl, true).unwrap();
    let h2 = x402.generate_headers(&contract.ucl, true).unwrap();

    assert_ne!(h1.nonce, h2.nonce);
    assert_ne!(h1.signature, h2.signature);
    assert_eq!(h1.contract_id, h2.contract_id);
    assert_eq!(h1.payment_amount, h2.payment_amount);
    assert_eq!(h1.payment_token, h2.payment_token);
    assert_eq!(h1.settlement_network, h2.settlement_network);
}

#[test]
fn test_header_names() {
    let contract = Smart402::create(config_with_parties(Amount::from_units(99))).unwrap();

    let mut x402 = X402Client::new("https://x402.example".to_string());
    let headers = x402.generate_headers(&contract.ucl, false).unwrap();
    let map = headers.to_map();

    let names: Vec<&str> = map.iter().map(|(k, _)| k.as_str()).collect();
    assert_eq!(
        names,
        vec![
            "X402-Contract-ID",
            "X402-Payment-Amount",
            "X402-Payment-Token",
            "X402-Settlement-Network",
            "X402-Conditions-Met",
            "X402-Signature",
            "X402-Nonce",
        ]
    );
    assert_eq!(headers.conditions_met, "false");
}

#[test]
fn test_verify_response_accepts_own_headers() {
    let contract = Smart402::create(config_with_parties(Amount::from_units(99))).unwrap();

    let mut x402 = X402Client::new("https://x402.example".to_string());
    let headers = x402.generate_headers(&contract.ucl, true).unwrap();
    let map = headers.to_map();

    assert_eq!(x402.verify_response(&map).unwrap(), true);
}

#[test]
fn test_verify_response_rejects_tampering() {
    let contract = Smart402::create(config_with_parties(Amount::from_units(99))).unwrap();

    let mut x402 = X402Client::new("https://x402.example".to_string());
    let headers = x402.generate_headers(&contract.ucl, true).unwrap();
    let mut map = headers.to_map();
    map[1].1 = "100000".to_string();

    assert_eq!(x402.verify_response(&map).unwrap(), false);

    // a missing field rejects as well
    let short = vec![map[0].clone()];
    assert_eq!(x402.verify_response(&short).unwrap(), false);
}

#[test]
fn test_deploy_only_from_draft() {
    let mut contract = Smart402::create(config_with_parties(Amount::from_units(99))).unwrap();
    assert_eq!(contract.status(), ContractStatus::Draft);

    let ok = Ok(ChainDeployment {
        address: "0xabc".to_string(),
        transaction_hash: "0xtx".to_string(),
        block_number: None,
    });
    contract.deploy_with("polygon", ok.clone()).unwrap();
    assert_eq!(contract.status(), ContractStatus::Deployed);
    assert!(contract.address().is_some());

    let second = contract.deploy_with("polygon", ok);
    assert!(matches!(second, Err(Error::DeploymentError(_))));
}

#[test]
fn test_deploy_failure_is_terminal() {
    let mut contract = Smart402::create(config_with_parties(Amount::from_units(99))).unwrap();

    let result = contract.deploy_with("polygon", Err("chain unreachable".to_string()));

    match result {
        Err(Error::DeploymentError(m)) => assert_eq!(m, "chain unreachable"),
        _ => panic!("an adapter failure must surface as a deployment error"),
    }
    assert_eq!(contract.status(), ContractStatus::Failed);
}

#[test]
fn test_execute_payment_requires_deployment() {
    let contract = Smart402::create(config_with_parties(Amount::from_units(99))).unwrap();

    let outcome = Ok(smart402::PaymentOutcome {
        transaction_hash: "0xtx".to_string(),
        from: "0xfrom".to_string(),
        to: "0xto".to_string(),
    });
    let result = contract.execute_payment_with(outcome);

    assert!(matches!(result, Err(Error::PaymentError(_))));
}

#[test]
fn test_check_conditions_all_met_over_required_only() {
    let mut config = config_with_parties(Amount::from_units(99));
    config.conditions = Some(vec![
        ConditionConfig {
            id: "uptime".to_string(),
            description: "uptime".to_string(),
            source: "api".to_string(),
            operator: ">".to_string(),
            threshold: Amount::from_micros(990_000),
        },
        ConditionConfig {
            id: "payment_cleared".to_string(),
            description: "payment cleared".to_string(),
            source: "bank".to_string(),
            operator: "==".to_string(),
            threshold: Amount::from_units(1),
        },
    ]);
    let contract = Smart402::create(config).unwrap();

    let both = vec![
        ConditionVerdict { id: "uptime".to_string(), met: true },
        ConditionVerdict { id: "payment_cleared".to_string(), met: true },
    ];
    assert!(contract.check_conditions_with(&both).all_met);

    // order of the facts does not matter
    let swapped = vec![both[1].clone(), both[0].clone()];
    assert!(contract.check_conditions_with(&swapped).all_met);

    let one = vec![ConditionVerdict { id: "uptime".to_string(), met: true }];
    let partial = contract.check_conditions_with(&one);
    assert!(!partial.all_met);
    assert_eq!(partial.conditions.len(), 2);
}

#[test]
fn test_yaml_round_trip() {
    let mut config = config_with_parties(Amount::from_micros(99_500_000));
    config.conditions = Some(vec![ConditionConfig {
        id: "uptime".to_string(),
        description: "Service uptime > 99%".to_string(),
        source: "api".to_string(),
        operator: ">".to_string(),
        threshold: Amount::from_micros(990_000),
    }]);
    config.metadata = Some(vec![
        MetaEntry {
            key: "title".to_string(),
            value: MetaValue::Text("A Title".to_string()),
        },
        MetaEntry {
            key: "tags".to_string(),
            value: MetaValue::TextList(vec!["a".to_string(), "b".to_string()]),
        },
        MetaEntry {
            key: "rank".to_string(),
            value: MetaValue::Integer(-3),
        },
        MetaEntry {
            key: "beta".to_string(),
            value: MetaValue::Flag(true),
        },
    ]);
    let contract = Smart402::create(config).unwrap();

    let yaml = smart402::export_yaml(&contract.ucl).unwrap();
    let loaded = smart402::contract_from_text(&yaml).unwrap();

    assert_eq!(loaded, contract.ucl);
}

#[test]
fn test_yaml_round_trip_escaped_text() {
    let mut contract = Smart402::create(config_with_parties(Amount::from_units(1))).unwrap();
    contract.ucl.summary.title = "line one\nline ~ two \\ three".to_string();
    contract.ucl.summary.plain_english = "quotes \" and colons: fine".to_string();

    let yaml = smart402::export_yaml(&contract.ucl).unwrap();
    let loaded = smart402::contract_from_text(&yaml).unwrap();

    assert_eq!(loaded, contract.ucl);
}

#[test]
fn test_load_rejects_malformed_text() {
    let result = smart402::contract_from_text("not a contract at all");

    assert!(matches!(result, Err(Error::SerializationError(_))));
}

#[test]
fn test_render_contract_format_dispatch() {
    let contract = Smart402::create(config_with_parties(Amount::from_units(1))).unwrap();

    assert!(smart402::render_contract(&contract.ucl, "yaml").is_ok());
    assert!(smart402::render_contract(&contract.ucl, "yml").is_ok());
    assert!(smart402::render_contract(&contract.ucl, "json").is_ok());
    match smart402::render_contract(&contract.ucl, "toml") {
        Err(Error::ValidationError(m)) => assert!(m.contains("toml")),
        _ => panic!("an unsupported format must be rejected"),
    }
}

#[test]
fn test_jsonld_is_valid_json() {
    let contract = Smart402::create(config_with_parties(Amount::from_units(99))).unwrap();

    let aeo = AEOEngine::new();
    let jsonld = aeo.generate_jsonld(&contract.ucl).unwrap();
    let parsed: serde_json::Value = serde_json::from_str(&jsonld).unwrap();

    assert_eq!(parsed["@type"].as_str().unwrap(), "SmartContract");
    assert_eq!(
        parsed["identifier"].as_str().unwrap(),
        contract.ucl.contract_id
    );
}

#[test]
fn test_json_export_escapes_text() {
    let mut contract = Smart402::create(config_with_parties(Amount::from_units(1))).unwrap();
    contract.ucl.summary.title = "a \"quoted\"\ntitle".to_string();

    let json = smart402::export_json(&contract.ucl).unwrap();
    let parsed: serde_json::Value = serde_json::from_str(&json).unwrap();

    assert_eq!(
        parsed["summary"]["title"].as_str().unwrap(),
        "a \"quoted\"\ntitle"
    );
}

#[test]
fn test_config_error_cases() {
    let mut no_parties = config_with_parties(Amount::from_units(1));
    no_parties.parties = vec![];
    assert!(matches!(
        Smart402::create(no_parties),
        Err(Error::ConfigError(_))
    ));

    let mut no_token = config_with_parties(Amount::from_units(1));
    no_token.payment.token = String::new();
    match Smart402::create(no_token) {
        Err(Error::ConfigError(m)) => assert!(m.contains("token")),
        _ => panic!("a missing token must be rejected"),
    }

    let mut empty_chain = config_with_parties(Amount::from_units(1));
    empty_chain.payment.blockchain = Some(String::new());
    assert!(matches!(
        Smart402::create(empty_chain),
        Err(Error::ConfigError(_))
    ));
}

#[test]
fn test_default_blockchain() {
    let mut config = config_with_parties(Amount::from_units(1));
    config.payment.blockchain = None;
    let contract = Smart402::create(config).unwrap();

    assert_eq!(contract.ucl.payment.blockchain, "polygon");
}

#[test]
fn test_payment_structure_from_frequency() {
    let mut once = config_with_parties(Amount::from_units(1));
    once.payment.frequency = "one-time".to_string();
    assert_eq!(
        Smart402::create(once).unwrap().ucl.payment.structure,
        "one-time"
    );

    let monthly = config_with_parties(Amount::from_units(1));
    assert_eq!(
        Smart402::create(monthly).unwrap().ucl.payment.structure,
        "recurring"
    );
}

#[test]
fn test_metadata_passthrough() {
    let mut config = config_with_parties(Amount::from_units(1));
    config.metadata = Some(vec![
        MetaEntry {
            key: "title".to_string(),
            value: MetaValue::Text("Named".to_string()),
        },
        MetaEntry {
            key: "custom_key".to_string(),
            value: MetaValue::Text("kept".to_string()),
        },
    ]);
    let contract = Smart402::create(config).unwrap();

    assert_eq!(contract.ucl.summary.title, "Named");
    assert_eq!(contract.ucl.metadata.extra.len(), 1);
    assert_eq!(contract.ucl.metadata.extra[0].key, "custom_key");
}

#[test]
fn test_from_template_unknown_name() {
    let result = Smart402::from_template("no-such-template".to_string(), vec![]);

    assert!(matches!(result, Err(Error::NotFoundError(_))));
}

#[test]
fn test_status_text() {
    let contract = Smart402::create(config_with_parties(Amount::from_units(1))).unwrap();

    assert_eq!(contract.status().as_text(), "draft");
}

#[test]
fn test_generated_id_shape() {
    let id = smart402::generate_contract_id("rental");

    assert!(id.starts_with("smart402:rental:"));
}
