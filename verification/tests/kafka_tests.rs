use solana_stub_prover::codec::{decode_envelope, encode_envelope};
use solana_stub_prover::kafka::{
    broker_address, consumer_settings, kafka_topic, prepare_publish, producer_settings,
    KafkaConfig, SaslConfig, Setting,
};
use solana_stub_prover::types::{ProofData, ProofKind, SP1Proof, ZkProof};

fn pairs(settings: &[Setting]) -> Vec<(String, String)> {
    settings.iter().map(|s| (s.key.clone(), s.value.clone())).collect()
}

#[test]
fn default_config_is_tls_with_conventional_paths() {
    let c = KafkaConfig::default();
    assert!(c.use_tls);
    assert_eq!(c.ca_cert_path.as_deref(), Some("./ca.crt"));
    assert_eq!(c.client_cert_path.as_deref(), Some("./user.crt"));
    assert_eq!(c.client_key_path.as_deref(), Some("./user.key"));
    assert!(c.broker.is_none());
}

#[test]
fn broker_defaults_depend_on_security_mode() {
    let tls = KafkaConfig::default();
    assert_eq!(broker_address(&tls), "kafka-bootstrap.twine.limited:443");
    let plain = KafkaConfig { use_tls: false, ..KafkaConfig::default() };
    assert_eq!(
        broker_address(&plain),
        "b-1.test.7alql0.c5.kafka.us-east-1.amazonaws.com:9092"
    );
    let explicit = KafkaConfig { broker: Some("localhost:9092".to_string()), ..KafkaConfig::default() };
    assert_eq!(broker_address(&explicit), "localhost:9092");
}

#[test]
fn topic_is_the_fixed_protocol_constant() {
    assert_eq!(kafka_topic(), "twine.solana.proofs");
}

#[test]
fn producer_settings_with_tls_and_all_certs() {
    let c = KafkaConfig::default();
    let s = producer_settings(&c, true, true, true);
    assert_eq!(
        pairs(&s),
        vec![
            ("bootstrap.servers".into(), "kafka-bootstrap.twine.limited:443".into()),
            ("message.timeout.ms".into(), "5000".into()),
            ("security.protocol".into(), "ssl".into()),
            ("ssl.ca.location".into(), "./ca.crt".into()),
            ("ssl.certificate.location".into(), "./user.crt".into()),
            ("ssl.key.location".into(), "./user.key".into()),
        ]
    );
}

#[test]
fn producer_settings_skip_missing_cert_files() {
    let c = KafkaConfig::default();
    let s = producer_settings(&c, false, true, false);
    assert_eq!(
        pairs(&s),
        vec![
            ("bootstrap.servers".into(), "kafka-bootstrap.twine.limited:443".into()),
            ("message.timeout.ms".into(), "5000".into()),
            ("security.protocol".into(), "ssl".into()),
            ("ssl.certificate.location".into(), "./user.crt".into()),
        ]
    );
}

#[test]
fn producer_settings_plain_has_no_tls_entries() {
    let c = KafkaConfig { use_tls: false, ..KafkaConfig::default() };
    let s = producer_settings(&c, true, true, true);
    assert_eq!(
        pairs(&s),
        vec![
            (
                "bootstrap.servers".into(),
                "b-1.test.7alql0.c5.kafka.us-east-1.amazonaws.com:9092".into()
            ),
            ("message.timeout.ms".into(), "5000".into()),
        ]
    );
}

#[test]
fn consumer_settings_tls_from_beginning() {
    let c = KafkaConfig::default();
    let s = consumer_settings(&c, "solana-proof-consumer", "plaintext", &None, 30, true);
    assert_eq!(
        pairs(&s),
        vec![
            ("bootstrap.servers".into(), "kafka-bootstrap.twine.limited:443".into()),
            ("group.id".into(), "solana-proof-consumer".into()),
            ("enable.auto.commit".into(), "true".into()),
            ("auto.commit.interval.ms".into(), "1000".into()),
            ("session.timeout.ms".into(), "6000".into()),
            ("socket.timeout.ms".into(), "30000".into()),
            ("api.version.request.timeout.ms".into(), "10000".into()),
            ("enable.auto.offset.store".into(), "true".into()),
            ("security.protocol".into(), "ssl".into()),
            ("ssl.ca.location".into(), "./ca.crt".into()),
            ("ssl.certificate.location".into(), "./user.crt".into()),
            ("ssl.key.location".into(), "./user.key".into()),
            ("auto.offset.reset".into(), "earliest".into()),
        ]
    );
}

#[test]
fn consumer_settings_sasl_only_without_tls() {
    let c = KafkaConfig {
        use_tls: false,
        broker: Some("localhost:9092".to_string()),
        ..KafkaConfig::default()
    };
    let sasl = Some(SaslConfig {
        mechanism: "SCRAM-SHA-256".to_string(),
        username: Some("user".to_string()),
        password: None,
    });
    let s = consumer_settings(&c, "g", "sasl_plaintext", &sasl, 10, false);
    assert_eq!(
        pairs(&s),
        vec![
            ("bootstrap.servers".into(), "localhost:9092".into()),
            ("group.id".into(), "g".into()),
            ("enable.auto.commit".into(), "true".into()),
            ("auto.commit.interval.ms".into(), "1000".into()),
            ("session.timeout.ms".into(), "6000".into()),
            ("socket.timeout.ms".into(), "10000".into()),
            ("api.version.request.timeout.ms".into(), "10000".into()),
            ("enable.auto.offset.store".into(), "true".into()),
            ("security.protocol".into(), "sasl_plaintext".into()),
            ("sasl.mechanism".into(), "SCRAM-SHA-256".into()),
            ("sasl.username".into(), "user".into()),
            ("auto.offset.reset".into(), "latest".into()),
        ]
    );
}

#[test]
fn prepare_publish_keys_by_identifier() {
    let e = ZkProof {
        identifier: "solana-stub-1-2".to_string(),
        proof_kind: ProofKind::SolanaConsensusProof,
        proof_data: ProofData::SP1(SP1Proof {
            version: 1,
            proof: vec![1],
            public_value: vec![2],
            verification_key: [0u8; 32],
        }),
    };
    let (key, payload) = prepare_publish(&e);
    assert_eq!(key, "solana-stub-1-2");
    assert_eq!(payload, encode_envelope(&e));
    assert!(decode_envelope(&payload).unwrap().same_as(&e));
}
