//! The message-bus side of the pipeline: connection configuration and the
//! publish payload. The broker connection itself is outside work; this module
//! decides, exactly and verifiably, which client settings a configuration
//! yields, which topic is used, and what bytes and partition key a proof is
//! published with.

use vstd::prelude::*;

verus! {

use crate::types::{ZkProof, ZkProofView};
use crate::codec::{encode_envelope, spec_encode_envelope};
use crate::utils::{u64_to_string, dec_str};

/// Kafka configuration options: exactly one transport-security mode is
/// active; TLS uses mutual certificates and bypasses SASL.
pub struct KafkaConfig {
    pub use_tls: bool,
    pub ca_cert_path: Option<String>,
    pub client_cert_path: Option<String>,
    pub client_key_path: Option<String>,
    pub broker: Option<String>,
}

#[verifier::ext_equal]
pub ghost struct KafkaConfigView {
    pub use_tls: bool,
    pub ca_cert_path: Option<Seq<char>>,
    pub client_cert_path: Option<Seq<char>>,
    pub client_key_path: Option<Seq<char>>,
    pub broker: Option<Seq<char>>,
}

pub open spec fn view_of_opt_string(o: Option<String>) -> Option<Seq<char>> {
    match o {
        Some(s) => Some(s@),
        None => None,
    }
}

impl View for KafkaConfig {
    type V = KafkaConfigView;

    open spec fn view(&self) -> KafkaConfigView {
        KafkaConfigView {
            use_tls: self.use_tls,
            ca_cert_path: view_of_opt_string(self.ca_cert_path),
            client_cert_path: view_of_opt_string(self.client_cert_path),
            client_key_path: view_of_opt_string(self.client_key_path),
            broker: view_of_opt_string(self.broker),
        }
    }
}

impl Default for KafkaConfig {
    /// The default configuration: TLS with the conventional certificate
    /// paths, against the default broker.
    fn default() -> (r: KafkaConfig)
        ensures
            r.use_tls == true,
            r@.ca_cert_path matches Some(p) && p == "./ca.crt"@,
            r@.client_cert_path matches Some(p) && p == "./user.crt"@,
            r@.client_key_path matches Some(p) && p == "./user.key"@,
            r@.broker is None,
    {
        KafkaConfig {
            use_tls: true,
            ca_cert_path: Some("./ca.crt".to_owned()),
            client_cert_path: Some("./user.crt".to_owned()),
            client_key_path: Some("./user.key".to_owned()),
            broker: None,
        }
    }
}

/// The fixed protocol topic that producers and consumers share.
pub fn kafka_topic() -> (r: String)
    ensures
        r@ == "twine.solana.proofs"@,
{
    "twine.solana.proofs".to_owned()
}

/// The broker a configuration connects to: the explicit address when one is
/// given, else the default broker of the active security mode.
pub open spec fn spec_broker_address(c: KafkaConfigView) -> Seq<char> {
    match c.broker {
        Some(b) => b,
        None => if c.use_tls {
            "kafka-bootstrap.twine.limited:443"@
        } else {
            "b-1.test.7alql0.c5.kafka.us-east-1.amazonaws.com:9092"@
        },
    }
}

pub fn broker_address(config: &KafkaConfig) -> (r: String)
    ensures
        r@ == spec_broker_address(config@),
{
    match &config.broker {
        Some(b) => b.clone(),
        None => {
            if config.use_tls {
                "kafka-bootstrap.twine.limited:443".to_owned()
            } else {
                "b-1.test.7alql0.c5.kafka.us-east-1.amazonaws.com:9092".to_owned()
            }
        },
    }
}

/// One client setting: a key and its value.
pub struct Setting {
    pub key: String,
    pub value: String,
}

#[verifier::ext_equal]
pub ghost struct SettingView {
    pub key: Seq<char>,
    pub value: Seq<char>,
}

impl View for Setting {
    type V = SettingView;

    open spec fn view(&self) -> SettingView {
        SettingView { key: self.key@, value: self.value@ }
    }
}

pub open spec fn views_of_settings(s: Seq<Setting>) -> Seq<SettingView> {
    s.map_values(|x: Setting| x@)
}

pub open spec fn sv(key: Seq<char>, value: Seq<char>) -> SettingView {
    SettingView { key, value }
}

/// A certificate-path setting appears only when the path is configured and
/// the file exists (the caller reports existence).
pub open spec fn spec_cert_setting(
    key: Seq<char>,
    path: Option<Seq<char>>,
    exists: bool,
) -> Seq<SettingView> {
    match path {
        Some(p) => if exists {
            seq![sv(key, p)]
        } else {
            Seq::empty()
        },
        None => Seq::empty(),
    }
}

/// The settings a producer connection is created with: broker and timeout
/// always; under TLS additionally the security protocol and each configured
/// certificate whose file exists.
pub open spec fn spec_producer_settings(
    c: KafkaConfigView,
    ca_exists: bool,
    cert_exists: bool,
    key_exists: bool,
) -> Seq<SettingView> {
    let base = seq![
        sv("bootstrap.servers"@, spec_broker_address(c)),
        sv("message.timeout.ms"@, "5000"@),
    ];
    if c.use_tls {
        base + seq![sv("security.protocol"@, "ssl"@)] + spec_cert_setting(
            "ssl.ca.location"@,
            c.ca_cert_path,
            ca_exists,
        ) + spec_cert_setting("ssl.certificate.location"@, c.client_cert_path, cert_exists)
            + spec_cert_setting("ssl.key.location"@, c.client_key_path, key_exists)
    } else {
        base
    }
}

/// Push one certificate setting when its path is configured and exists.
fn push_cert_setting(out: &mut Vec<Setting>, key: &str, path: &Option<String>, exists: bool)
    ensures
        views_of_settings(final(out)@) == views_of_settings(old(out)@) + spec_cert_setting(
            key@,
            view_of_opt_string(*path),
            exists,
        ),
{
    match path {
        Some(p) => {
            if exists {
                out.push(Setting { key: key.to_owned(), value: p.clone() });
                proof {
                    assert(views_of_settings(out@) =~= views_of_settings(old(out)@)
                        + spec_cert_setting(key@, view_of_opt_string(*path), exists));
                }
            } else {
                proof {
                    assert(views_of_settings(out@) =~= views_of_settings(old(out)@)
                        + spec_cert_setting(key@, view_of_opt_string(*path), exists));
                }
            }
        },
        None => {
            proof {
                assert(views_of_settings(out@) =~= views_of_settings(old(out)@)
                    + spec_cert_setting(key@, view_of_opt_string(*path), exists));
            }
        },
    }
}

/// Compute the settings a producer connection is created with. The caller
/// reports whether each certificate file exists.
pub fn producer_settings(
    config: &KafkaConfig,
    ca_exists: bool,
    cert_exists: bool,
    key_exists: bool,
) -> (r: Vec<Setting>)
    ensures
        views_of_settings(r@) == spec_producer_settings(config@, ca_exists, cert_exists, key_exists),
{
    let mut out: Vec<Setting> = Vec::new();
    out.push(Setting { key: "bootstrap.servers".to_owned(), value: broker_address(config) });
    out.push(Setting { key: "message.timeout.ms".to_owned(), value: "5000".to_owned() });
    let ghost base = seq![
        sv("bootstrap.servers"@, spec_broker_address(config@)),
        sv("message.timeout.ms"@, "5000"@),
    ];
    proof {
        assert(views_of_settings(out@) =~= base);
    }
    if config.use_tls {
        out.push(Setting { key: "security.protocol".to_owned(), value: "ssl".to_owned() });
        proof {
            assert(views_of_settings(out@) =~= base + seq![sv("security.protocol"@, "ssl"@)]);
        }
        push_cert_setting(&mut out, "ssl.ca.location", &config.ca_cert_path, ca_exists);
        push_cert_setting(
            &mut out,
            "ssl.certificate.location",
            &config.client_cert_path,
            cert_exists,
        );
        push_cert_setting(&mut out, "ssl.key.location", &config.client_key_path, key_exists);
        proof {
            assert(views_of_settings(out@) =~= spec_producer_settings(
                config@,
                ca_exists,
                cert_exists,
                key_exists,
            ));
        }
    } else {
        proof {
            assert(views_of_settings(out@) =~= spec_producer_settings(
                config@,
                ca_exists,
                cert_exists,
                key_exists,
            ));
        }
    }
    out
}

/// SASL credentials, used only on non-TLS connections.
pub struct SaslConfig {
    pub mechanism: String,
    pub username: Option<String>,
    pub password: Option<String>,
}

#[verifier::ext_equal]
pub ghost struct SaslConfigView {
    pub mechanism: Seq<char>,
    pub username: Option<Seq<char>>,
    pub password: Option<Seq<char>>,
}

impl View for SaslConfig {
    type V = SaslConfigView;

    open spec fn view(&self) -> SaslConfigView {
        SaslConfigView {
            mechanism: self.mechanism@,
            username: view_of_opt_string(self.username),
            password: view_of_opt_string(self.password),
        }
    }
}

pub open spec fn spec_opt_setting(key: Seq<char>, v: Option<Seq<char>>) -> Seq<SettingView> {
    match v {
        Some(s) => seq![sv(key, s)],
        None => Seq::empty(),
    }
}

/// The SASL settings of a connection: the mechanism, and each credential that
/// is present.
pub open spec fn spec_sasl_settings(s: Option<SaslConfigView>) -> Seq<SettingView> {
    match s {
        Some(c) => seq![sv("sasl.mechanism"@, c.mechanism)] + spec_opt_setting(
            "sasl.username"@,
            c.username,
        ) + spec_opt_setting("sasl.password"@, c.password),
        None => Seq::empty(),
    }
}

/// The settings a consumer connection is created with: broker, group,
/// auto-commit with its periodic interval, timeouts; then either TLS with the
/// configured certificates, or the given security protocol with optional SASL
/// (TLS and SASL are mutually exclusive); and the starting offset policy.
pub open spec fn spec_consumer_settings(
    c: KafkaConfigView,
    group_id: Seq<char>,
    security_protocol: Seq<char>,
    sasl: Option<SaslConfigView>,
    connection_timeout_secs: u64,
    from_beginning: bool,
) -> Seq<SettingView> {
    let base = seq![
        sv("bootstrap.servers"@, spec_broker_address(c)),
        sv("group.id"@, group_id),
        sv("enable.auto.commit"@, "true"@),
        sv("auto.commit.interval.ms"@, "1000"@),
        sv("session.timeout.ms"@, "6000"@),
        sv("socket.timeout.ms"@, dec_str((connection_timeout_secs * 1000) as nat)),
        sv("api.version.request.timeout.ms"@, "10000"@),
        sv("enable.auto.offset.store"@, "true"@),
    ];
    let security = if c.use_tls {
        seq![sv("security.protocol"@, "ssl"@)] + spec_cert_setting(
            "ssl.ca.location"@,
            c.ca_cert_path,
            true,
        ) + spec_cert_setting("ssl.certificate.location"@, c.client_cert_path, true)
            + spec_cert_setting("ssl.key.location"@, c.client_key_path, true)
    } else {
        seq![sv("security.protocol"@, security_protocol)] + spec_sasl_settings(sasl)
    };
    let offset = seq![
        sv(
            "auto.offset.reset"@,
            if from_beginning {
                "earliest"@
            } else {
                "latest"@
            },
        ),
    ];
    base + security + offset
}

fn push_opt_setting(out: &mut Vec<Setting>, key: &str, v: &Option<String>)
    ensures
        views_of_settings(final(out)@) == views_of_settings(old(out)@) + spec_opt_setting(
            key@,
            view_of_opt_string(*v),
        ),
{
    match v {
        Some(s) => {
            out.push(Setting { key: key.to_owned(), value: s.clone() });
            proof {
                assert(views_of_settings(out@) =~= views_of_settings(old(out)@) + spec_opt_setting(
                    key@,
                    view_of_opt_string(*v),
                ));
            }
        },
        None => {
            proof {
                assert(views_of_settings(out@) =~= views_of_settings(old(out)@) + spec_opt_setting(
                    key@,
                    view_of_opt_string(*v),
                ));
            }
        },
    }
}

/// Compute the settings a consumer connection is created with.
pub fn consumer_settings(
    config: &KafkaConfig,
    group_id: &str,
    security_protocol: &str,
    sasl: &Option<SaslConfig>,
    connection_timeout_secs: u64,
    from_beginning: bool,
) -> (r: Vec<Setting>)
    requires
        connection_timeout_secs <= u64::MAX / 1000,
    ensures
        views_of_settings(r@) == spec_consumer_settings(
            config@,
            group_id@,
            security_protocol@,
            match *sasl {
                Some(s) => Some(s@),
                None => None,
            },
            connection_timeout_secs,
            from_beginning,
        ),
{
    let ghost sasl_view: Option<SaslConfigView> = match sasl {
        Some(s) => Some(s@),
        None => None,
    };
    let mut out: Vec<Setting> = Vec::new();
    out.push(Setting { key: "bootstrap.servers".to_owned(), value: broker_address(config) });
    out.push(Setting { key: "group.id".to_owned(), value: group_id.to_owned() });
    out.push(Setting { key: "enable.auto.commit".to_owned(), value: "true".to_owned() });
    out.push(Setting { key: "auto.commit.interval.ms".to_owned(), value: "1000".to_owned() });
    out.push(Setting { key: "session.timeout.ms".to_owned(), value: "6000".to_owned() });
    out.push(
        Setting {
            key: "socket.timeout.ms".to_owned(),
            value: u64_to_string(connection_timeout_secs * 1000),
        },
    );
    out.push(
        Setting { key: "api.version.request.timeout.ms".to_owned(), value: "10000".to_owned() },
    );
    out.push(Setting { key: "enable.auto.offset.store".to_owned(), value: "true".to_owned() });
    let ghost base = seq![
        sv("bootstrap.servers"@, spec_broker_address(config@)),
        sv("group.id"@, group_id@),
        sv("enable.auto.commit"@, "true"@),
        sv("auto.commit.interval.ms"@, "1000"@),
        sv("session.timeout.ms"@, "6000"@),
        sv("socket.timeout.ms"@, dec_str((connection_timeout_secs * 1000) as nat)),
        sv("api.version.request.timeout.ms"@, "10000"@),
        sv("enable.auto.offset.store"@, "true"@),
    ];
    proof {
        assert(views_of_settings(out@) =~= base);
    }
    let ghost security: Seq<SettingView> = if config@.use_tls {
        seq![sv("security.protocol"@, "ssl"@)] + spec_cert_setting(
            "ssl.ca.location"@,
            config@.ca_cert_path,
            true,
        ) + spec_cert_setting("ssl.certificate.location"@, config@.client_cert_path, true)
            + spec_cert_setting("ssl.key.location"@, config@.client_key_path, true)
    } else {
        seq![sv("security.protocol"@, security_protocol@)] + spec_sasl_settings(sasl_view)
    };
    if config.use_tls {
        out.push(Setting { key: "security.protocol".to_owned(), value: "ssl".to_owned() });
        proof {
            assert(views_of_settings(out@) =~= base + seq![sv("security.protocol"@, "ssl"@)]);
        }
        push_cert_setting(&mut out, "ssl.ca.location", &config.ca_cert_path, true);
        push_cert_setting(&mut out, "ssl.certificate.location", &config.client_cert_path, true);
        push_cert_setting(&mut out, "ssl.key.location", &config.client_key_path, true);
        proof {
            assert(views_of_settings(out@) =~= base + security);
        }
    } else {
        out.push(
            Setting { key: "security.protocol".to_owned(), value: security_protocol.to_owned() },
        );
        proof {
            assert(views_of_settings(out@) =~= base + seq![
                sv("security.protocol"@, security_protocol@),
            ]);
        }
        match sasl {
            Some(s) => {
                out.push(
                    Setting { key: "sasl.mechanism".to_owned(), value: s.mechanism.clone() },
                );
                proof {
                    assert(views_of_settings(out@) =~= base + seq![
                        sv("security.protocol"@, security_protocol@),
                    ] + seq![sv("sasl.mechanism"@, s.mechanism@)]);
                }
                push_opt_setting(&mut out, "sasl.username", &s.username);
                push_opt_setting(&mut out, "sasl.password", &s.password);
                proof {
                    assert(views_of_settings(out@) =~= base + security);
                }
            },
            None => {
                proof {
                    assert(views_of_settings(out@) =~= base + security);
                }
            },
        }
    }
    let offset_value = if from_beginning {
        "earliest".to_owned()
    } else {
        "latest".to_owned()
    };
    out.push(Setting { key: "auto.offset.reset".to_owned(), value: offset_value });
    proof {
        assert(views_of_settings(out@) =~= (base + security) + seq![
            sv(
                "auto.offset.reset"@,
                if from_beginning {
                    "earliest"@
                } else {
                    "latest"@
                },
            ),
        ]);
        assert(views_of_settings(out@) =~= spec_consumer_settings(
            config@,
            group_id@,
            security_protocol@,
            sasl_view,
            connection_timeout_secs,
            from_beginning,
        ));
    }
    out
}

/// What a proof is published as: its identifier is the partition key, so all
/// envelopes of one identifier land in the same partition; the payload is the
/// envelope's wire bytes.
pub fn prepare_publish(proof: &ZkProof) -> (r: (String, Vec<u8>))
    ensures
        r.0@ == proof@.identifier,
        r.1@ == spec_encode_envelope(proof@),
{
    (proof.identifier.clone(), encode_envelope(proof))
}

} // verus!
