use zksolc_config::config::Libraries;
use zksolc_config::config::Optimizer;
use zksolc_config::config::OptimizerDetails;
use zksolc_config::config::OutputSelection;
use zksolc_config::config::Remapping;
use zksolc_config::config::Settings;
use zksolc_config::config::SettingsMetadata;
use zksolc_config::config::Source;
use zksolc_config::config::ZkSolcConfigBuilder;
use zksolc_config::input::parse_sources_json;
use zksolc_config::input::sources_to_json;
use zksolc_config::input::ZkStandardJsonCompilerInput;
use zksolc_config::settings_json::append_settings;

fn settings_json(s: &Settings) -> String {
    let mut out = String::new();
    append_settings(&mut out, s);
    out
}

fn src(content: &str) -> Source {
    Source { content: content.to_string() }
}

#[test]
fn default_settings_is_stable() {
    let a = Settings::default();
    let b = Settings::default();
    assert_eq!(a.remappings.len(), b.remappings.len());
    assert_eq!(a.is_system, b.is_system);
    assert_eq!(a.force_evmla, b.force_evmla);
    assert_eq!(a.are_libraries_missing, b.are_libraries_missing);
    assert!(a.metadata.is_none() && b.metadata.is_none());
    assert!(a.missing_libraries_path.is_none() && b.missing_libraries_path.is_none());
    assert_eq!(settings_json(&a), settings_json(&b));
}

#[test]
fn default_settings_fields() {
    let s = Settings::default();
    assert!(s.remappings.is_empty());
    assert!(s.optimizer.enabled.is_none());
    assert!(s.optimizer.mode.is_none());
    assert!(s.optimizer.details.is_none());
    assert!(s.optimizer.fallback_to_optimizing_for_size.is_none());
    assert!(!s.optimizer.disable_system_request_memoization);
    assert!(s.metadata.is_none());
    assert_eq!(s.output_selection.selection.len(), 1);
    assert_eq!(s.output_selection.selection[0].0, "*");
    assert_eq!(s.output_selection.selection[0].1[0].0, "*");
    assert_eq!(
        s.output_selection.selection[0].1[0].1,
        vec!["abi", "evm.bytecode", "evm.deployedBytecode", "evm.methodIdentifiers"]
    );
    assert!(s.libraries.libs.is_empty());
    assert!(!s.is_system);
    assert!(!s.force_evmla);
    assert!(s.missing_libraries_path.is_none());
    assert!(!s.are_libraries_missing);
    assert!(s.contracts_to_compile.is_empty());
}

#[test]
fn builder_defaults_settings_when_unset() {
    let config = ZkSolcConfigBuilder::new().build().expect("build");
    assert_eq!(config.compiler_path, "");
    assert!(config.contracts_to_compile.is_none());
    assert!(config.avoid_contracts.is_none());
    assert_eq!(settings_json(&config.settings), settings_json(&Settings::default()));
}

#[test]
fn builder_keeps_what_was_set() {
    let mut settings = Settings::default();
    settings.is_system = true;
    let config = ZkSolcConfigBuilder::new()
        .compiler_path("/usr/local/bin/zksolc".to_string())
        .settings(settings)
        .contracts_to_compile(vec!["Greeter".to_string()])
        .avoid_contracts(vec!["Test".to_string()])
        .build()
        .expect("build");
    assert_eq!(config.compiler_path, "/usr/local/bin/zksolc");
    assert!(config.settings.is_system);
    assert_eq!(config.contracts_to_compile, Some(vec!["Greeter".to_string()]));
    assert_eq!(config.avoid_contracts, Some(vec!["Test".to_string()]));
}

#[test]
fn builder_last_value_wins() {
    let config = ZkSolcConfigBuilder::new()
        .compiler_path("first".to_string())
        .compiler_path("second".to_string())
        .build()
        .expect("build");
    assert_eq!(config.compiler_path, "second");
}

#[test]
fn builder_default_trait_matches_new() {
    let a = ZkSolcConfigBuilder::default().build().expect("build");
    let b = ZkSolcConfigBuilder::new().build().expect("build");
    assert_eq!(a.compiler_path, b.compiler_path);
    assert_eq!(settings_json(&a.settings), settings_json(&b.settings));
}

#[test]
fn language_tag_is_always_solidity() {
    let input = ZkStandardJsonCompilerInput::new(vec![], Settings::default());
    assert_eq!(input.language, "Solidity");
    let input2 = ZkStandardJsonCompilerInput::new(
        vec![("Vyper.vy".to_string(), src("# not solidity"))],
        Settings::default(),
    );
    assert_eq!(input2.language, "Solidity");
}

#[test]
fn sources_round_trip_empty() {
    let v: Vec<(String, Source)> = vec![];
    let json = sources_to_json(&v);
    assert_eq!(json, "{}");
    let back = parse_sources_json(&json).expect("parse");
    assert!(back.is_empty());
}

#[test]
fn sources_round_trip_single() {
    let v = vec![("A.sol".to_string(), src("contract A {}"))];
    let json = sources_to_json(&v);
    assert_eq!(json, "{\"A.sol\":{\"content\":\"contract A {}\"}}");
    let back = parse_sources_json(&json).expect("parse");
    assert_eq!(back.len(), 1);
    assert_eq!(back[0].0, "A.sol");
    assert_eq!(back[0].1.content, "contract A {}");
}

#[test]
fn sources_round_trip_non_alphabetical_order() {
    let v = vec![
        ("z.sol".to_string(), src("contract Z {}")),
        ("a.sol".to_string(), src("contract A {}")),
        ("m.sol".to_string(), src("contract M {}")),
    ];
    let json = sources_to_json(&v);
    let back = parse_sources_json(&json).expect("parse");
    let paths: Vec<String> = back.iter().map(|p| p.0.clone()).collect();
    assert_eq!(paths, vec!["z.sol", "a.sol", "m.sol"]);
    assert_eq!(back[0].1.content, "contract Z {}");
    assert_eq!(back[1].1.content, "contract A {}");
    assert_eq!(back[2].1.content, "contract M {}");
}

#[test]
fn sources_round_trip_escapes() {
    let tricky = "line one\nline two\t\"quoted\" back\\slash \r and \u{1} control";
    let v = vec![("weird \"name\".sol".to_string(), src(tricky))];
    let json = sources_to_json(&v);
    let back = parse_sources_json(&json).expect("parse");
    assert_eq!(back[0].0, "weird \"name\".sol");
    assert_eq!(back[0].1.content, tricky);
}

#[test]
fn sources_round_trip_duplicate_paths_preserved() {
    let v = vec![
        ("dup.sol".to_string(), src("first")),
        ("dup.sol".to_string(), src("second")),
    ];
    let json = sources_to_json(&v);
    let back = parse_sources_json(&json).expect("parse");
    assert_eq!(back.len(), 2);
    assert_eq!(back[0].1.content, "first");
    assert_eq!(back[1].1.content, "second");
}

#[test]
fn parse_rejects_malformed_sources() {
    assert!(parse_sources_json("").is_none());
    assert!(parse_sources_json("{").is_none());
    assert!(parse_sources_json("[]").is_none());
    assert!(parse_sources_json("{\"a\":1}").is_none());
    assert!(parse_sources_json("{\"a\":{\"content\":\"x\"}").is_none());
    assert!(parse_sources_json("{\"a\":{\"content\":\"x\"},}").is_none());
}

#[test]
fn omission_on_default_settings() {
    let json = settings_json(&Settings::default());
    assert!(!json.contains("remappings"));
    assert!(!json.contains("metadata"));
    assert!(!json.contains("missingLibrariesPath"));
    assert!(!json.contains("contractsToCompile"));
    assert!(json.contains("\"optimizer\""));
    assert!(json.contains("\"outputSelection\""));
    assert!(json.contains("\"libraries\""));
    assert!(json.contains("\"isSystem\":false"));
    assert!(json.contains("\"forceEvmla\":false"));
    assert!(json.contains("\"areLibrariesMissing\":false"));
}

#[test]
fn optional_fields_appear_when_set() {
    let mut s = Settings::default();
    s.remappings.push(Remapping { name: "lib/".to_string(), path: "node_modules/lib/".to_string() });
    s.metadata = Some(SettingsMetadata { use_literal_content: Some(true), bytecode_hash: Some("ipfs".to_string()) });
    s.missing_libraries_path = Some("/tmp/missing.json".to_string());
    s.contracts_to_compile.push("Greeter".to_string());
    let json = settings_json(&s);
    assert!(json.contains("\"remappings\":[\"lib/=node_modules/lib/\"]"));
    assert!(json.contains("\"metadata\":{\"useLiteralContent\":true,\"bytecodeHash\":\"ipfs\"}"));
    assert!(json.contains("\"missingLibrariesPath\":\"/tmp/missing.json\""));
    assert!(json.contains("\"contractsToCompile\":[\"Greeter\"]"));
}

#[test]
fn optimizer_serializes_every_field() {
    let s = Settings::default();
    let json = settings_json(&s);
    assert!(json.contains(
        "\"optimizer\":{\"enabled\":null,\"mode\":null,\"details\":null,\
         \"fallbackToOptimizingForSize\":null,\"disableSystemRequestMemoization\":false}"
    ));
}

#[test]
fn optimizer_serializes_set_values() {
    let mut s = Settings::default();
    s.optimizer = Optimizer {
        enabled: Some(true),
        mode: Some("z".to_string()),
        details: Some(OptimizerDetails {
            peephole: Some(true),
            inliner: None,
            jumpdest_remover: None,
            order_literals: None,
            deduplicate: None,
            cse: None,
            constant_optimizer: None,
            yul: Some(false),
        }),
        fallback_to_optimizing_for_size: Some(false),
        disable_system_request_memoization: true,
    };
    let json = settings_json(&s);
    assert!(json.contains("\"enabled\":true"));
    assert!(json.contains("\"mode\":\"z\""));
    assert!(json.contains("\"peephole\":true"));
    assert!(json.contains("\"yul\":false"));
    assert!(json.contains("\"fallbackToOptimizingForSize\":false"));
    assert!(json.contains("\"disableSystemRequestMemoization\":true"));
}

#[test]
fn libraries_serialize_in_order() {
    let mut s = Settings::default();
    s.libraries = Libraries {
        libs: vec![(
            "src/Util.sol".to_string(),
            vec![("Util".to_string(), "0x1234".to_string())],
        )],
    };
    let json = settings_json(&s);
    assert!(json.contains("\"libraries\":{\"src/Util.sol\":{\"Util\":\"0x1234\"}}"));
}

#[test]
fn output_selection_default_serialization() {
    let json = settings_json(&Settings::default());
    assert!(json.contains(
        "\"outputSelection\":{\"*\":{\"*\":[\"abi\",\"evm.bytecode\",\
         \"evm.deployedBytecode\",\"evm.methodIdentifiers\"]}}"
    ));
    let empty = OutputSelection::new();
    assert!(empty.selection.is_empty());
}

#[test]
fn end_to_end_document_order() {
    let input = ZkStandardJsonCompilerInput::new(
        vec![
            ("B.sol".to_string(), src("contract B {}")),
            ("A.sol".to_string(), src("contract A {}")),
        ],
        Settings::default(),
    );
    let json = input.to_json_string();
    let value: serde_json::Value = serde_json::from_str(&json).expect("valid JSON");
    assert_eq!(value["language"], "Solidity");
    assert_eq!(value["sources"]["B.sol"]["content"], "contract B {}");
    assert_eq!(value["sources"]["A.sol"]["content"], "contract A {}");
    let b_pos = json.find("\"B.sol\"").expect("B.sol key");
    let a_pos = json.find("\"A.sol\"").expect("A.sol key");
    assert!(b_pos < a_pos, "B.sol must come before A.sol in the document");
}

#[test]
fn full_document_shape() {
    let input = ZkStandardJsonCompilerInput::new(
        vec![("A.sol".to_string(), src("contract A {}"))],
        Settings::default(),
    );
    let json = input.to_json_string();
    assert!(json.starts_with("{\"language\":\"Solidity\",\"sources\":{\"A.sol\":"));
    let value: serde_json::Value = serde_json::from_str(&json).expect("valid JSON");
    assert!(value["settings"]["outputSelection"]["*"]["*"].is_array());
    assert_eq!(value["settings"]["isSystem"], false);
}

#[test]
fn serialized_escapes_are_standard_json() {
    let tricky = "a\nb\t\"c\" d\\e \u{1f} end";
    let input = ZkStandardJsonCompilerInput::new(
        vec![("T.sol".to_string(), src(tricky))],
        Settings::default(),
    );
    let json = input.to_json_string();
    let value: serde_json::Value = serde_json::from_str(&json).expect("valid JSON");
    assert_eq!(value["sources"]["T.sol"]["content"], tricky);
}
