//! The configuration file surface: every table and option the registry
//! recognizes, the built-in defaults, and the checks a configuration must
//! pass before the process may serve.
use vstd::prelude::*;

verus! {

#[derive(Clone)]
pub struct ServerConfig {
    pub bind_addr: String,
    pub ui_addr: String,
    pub workers: Option<usize>,
    pub max_connections: Option<usize>,
}

#[derive(Clone)]
pub enum StorageType {
    Filesystem,
    S3,
    GhostBay,
}

#[derive(Clone)]
pub struct S3Config {
    pub endpoint: String,
    pub region: String,
    pub bucket: String,
    pub access_key: String,
    pub secret_key: String,
    pub path_style: bool,
}

#[derive(Clone)]
pub struct GhostBayCredentials {
    pub access_key: String,
    pub secret_key: String,
}

#[derive(Clone)]
pub struct GhostBayStorageConfig {
    pub endpoint: String,
    pub bucket: String,
    pub credentials: Option<GhostBayCredentials>,
}

#[derive(Clone)]
pub struct StorageConfig {
    pub storage_type: StorageType,
    pub path: Option<String>,
    pub s3: Option<S3Config>,
    pub ghostbay: Option<GhostBayStorageConfig>,
}

#[derive(Clone)]
pub enum AuthMode {
    Basic,
    Token,
    Oidc,
}

#[derive(Clone)]
pub struct BasicAuthConfig {
    pub users: Vec<String>,
}

#[derive(Clone)]
pub struct OidcConfig {
    pub issuer: String,
    pub client_id: String,
    pub client_secret: String,
}

#[derive(Clone)]
pub struct OAuthConfig {
    pub enabled: bool,
    pub azure: Option<crate::auth::AzureConfig>,
    pub github: Option<crate::auth::GitHubConfig>,
    pub google: Option<crate::auth::GoogleConfig>,
}

#[derive(Clone)]
pub struct AuthConfig {
    pub mode: AuthMode,
    pub jwt_secret: String,
    pub token_expiry_hours: u64,
    pub basic: Option<BasicAuthConfig>,
    pub oidc: Option<OidcConfig>,
    pub oauth: Option<OAuthConfig>,
}

#[derive(Clone)]
pub struct RegistryConfig {
    pub max_upload_size_mb: u64,
    pub rate_limit_per_hour: u32,
    pub immutable_tags: Vec<String>,
    pub min_age_days: u64,
}

#[derive(Clone)]
pub struct BoltConfig {
    pub enable_profile_validation: bool,
    pub enable_plugin_sandbox: bool,
    pub auto_update_profiles: bool,
    pub registry_url: Option<String>,
}

#[derive(Clone)]
pub struct GarbageCollectorConfig {
    pub enabled: bool,
    pub interval_hours: u64,
    pub grace_period_hours: u64,
    pub dry_run: bool,
    pub max_blobs_per_run: usize,
}

#[derive(Clone)]
pub struct GhostBayConfig {
    pub enable_s3_compat: bool,
    pub storage_engine: String,
    pub max_object_size_gb: u64,
}

#[derive(Clone)]
pub struct VerificationPolicyConfig {
    pub require_signatures: bool,
    pub required_signatures_count: usize,
    pub allowed_signature_formats: Vec<String>,
    pub allowed_algorithms: Vec<String>,
    pub trust_stores: Vec<String>,
    pub require_certificate_chain: bool,
    pub allow_self_signed: bool,
    pub max_signature_age_hours: Option<u64>,
}

#[derive(Clone)]
pub struct SigningKeyConfig {
    pub key_id: String,
    pub algorithm: crate::signing::SignatureAlgorithm,
    pub key_path: String,
    pub certificate_path: Option<String>,
    pub password: Option<String>,
}

#[derive(Clone)]
pub struct VerificationKeyConfig {
    pub key_id: String,
    pub algorithm: crate::signing::SignatureAlgorithm,
    pub public_key_path: String,
    pub certificate_path: Option<String>,
    pub trusted: bool,
}

#[derive(Clone)]
pub struct TrustStoreConfig {
    pub name: String,
    pub root_certificate_paths: Vec<String>,
    pub intermediate_certificate_paths: Vec<String>,
    pub crl_urls: Vec<String>,
}

#[derive(Clone)]
pub struct SigningConfig {
    pub enabled: bool,
    pub default_key_id: String,
    pub signature_formats: Vec<String>,
    pub verification_policy: VerificationPolicyConfig,
    pub signing_keys: Vec<SigningKeyConfig>,
    pub verification_keys: Vec<VerificationKeyConfig>,
    pub trust_stores: Vec<TrustStoreConfig>,
}

#[derive(Clone)]
pub struct OptimizationConfig {
    pub enabled: bool,
    pub background_optimization: bool,
    pub optimization_schedule_cron: Option<String>,
    pub enable_compression_optimization: bool,
    pub enable_layer_deduplication: bool,
    pub enable_layer_squashing: bool,
    pub enable_base_image_optimization: bool,
    pub preferred_compression: String,
    pub min_layer_size_mb: u64,
    pub max_optimization_time_seconds: u64,
    pub preserve_original: bool,
    pub optimization_workers: usize,
}

#[derive(Clone)]
pub struct RbacConfig {
    pub enabled: bool,
    pub default_role: String,
    pub enable_organization_isolation: bool,
    pub enable_team_based_access: bool,
    pub enable_attribute_based_access: bool,
    pub cache_ttl_seconds: u64,
    pub audit_authorization_decisions: bool,
}

#[derive(Clone)]
pub struct FileExportConfig {
    pub path: String,
    pub format: String,
    pub rotation_size_mb: u64,
    pub retention_days: u32,
}

#[derive(Clone)]
pub struct WebhookExportConfig {
    pub url: String,
    pub headers: Vec<(String, String)>,
    pub timeout_seconds: u64,
    pub retry_attempts: u32,
    pub batch_size: usize,
}

#[derive(Clone)]
pub struct ElasticsearchExportConfig {
    pub url: String,
    pub index_prefix: String,
    pub username: Option<String>,
    pub password: Option<String>,
    pub batch_size: usize,
}

#[derive(Clone)]
pub struct AuditConfig {
    pub enabled: bool,
    pub min_severity: String,
    pub buffer_size: usize,
    pub flush_interval_seconds: u64,
    pub enabled_event_types: Vec<String>,
    pub exclude_patterns: Vec<String>,
    pub file_export: Option<FileExportConfig>,
    pub webhook_export: Option<WebhookExportConfig>,
    pub elasticsearch_export: Option<ElasticsearchExportConfig>,
}

#[derive(Clone)]
pub struct ClusterConfig {
    pub enabled: bool,
    pub node_id: String,
    pub bind_address: String,
    pub seed_nodes: Vec<String>,
    pub consensus_protocol: String,
    pub replication_factor: usize,
    pub consistency_level: crate::cluster::ConsistencyLevel,
    pub heartbeat_interval_seconds: u64,
    pub health_check_interval_seconds: u64,
    pub health_check_timeout_seconds: u64,
    pub election_timeout_seconds: u64,
    pub load_balancing_strategy: String,
}

/// The whole configuration file.
#[derive(Clone)]
pub struct Config {
    pub server: ServerConfig,
    pub storage: StorageConfig,
    pub auth: AuthConfig,
    pub registry: RegistryConfig,
    pub garbage_collector: Option<GarbageCollectorConfig>,
    pub bolt: Option<BoltConfig>,
    pub ghostbay: Option<GhostBayConfig>,
    pub signing: Option<SigningConfig>,
    pub optimization: Option<OptimizationConfig>,
    pub rbac: Option<RbacConfig>,
    pub audit: Option<AuditConfig>,
    pub cluster: Option<ClusterConfig>,
}

impl Default for GarbageCollectorConfig {
    /// Daily runs, a seven-day grace period, and a bound of a thousand
    /// deletions per run.
    fn default() -> (r: Self)
        ensures
            r.enabled,
            r.interval_hours == 24,
            r.grace_period_hours == 168,
            !r.dry_run,
            r.max_blobs_per_run == 1000,
    {
        GarbageCollectorConfig {
            enabled: true,
            interval_hours: 24,
            grace_period_hours: 168,
            dry_run: false,
            max_blobs_per_run: 1000,
        }
    }
}

impl Default for BoltConfig {
    fn default() -> (r: Self)
        ensures
            r.enable_profile_validation,
            r.enable_plugin_sandbox,
            !r.auto_update_profiles,
            r.registry_url is None,
    {
        BoltConfig {
            enable_profile_validation: true,
            enable_plugin_sandbox: true,
            auto_update_profiles: false,
            registry_url: None,
        }
    }
}

impl Default for Config {
    /// The built-in configuration: a filesystem store under `./data`, basic
    /// authentication with one bootstrap account, a gigabyte upload cap, and
    /// every optional subsystem present but disabled except the garbage
    /// collector.
    fn default() -> (r: Self)
        ensures
            r.server.bind_addr@ == "0.0.0.0:5000"@,
            r.server.ui_addr@ == "0.0.0.0:5001"@,
            r.server.workers == Some(4usize),
            r.server.max_connections == Some(1000usize),
            r.storage.storage_type is Filesystem,
            r.storage.path matches Some(p) && p@ == "./data"@,
            r.storage.s3 is None,
            r.storage.ghostbay is None,
            r.auth.mode is Basic,
            r.auth.token_expiry_hours == 24,
            r.auth.basic matches Some(b) && b.users@.len() == 1 && b.users@[0]@
                == "admin:changeme"@,
            r.auth.oidc is None,
            r.registry.max_upload_size_mb == 1000,
            r.registry.rate_limit_per_hour == 1000,
            r.registry.immutable_tags@.len() == 2,
            r.registry.min_age_days == 7,
            r.garbage_collector matches Some(g) && g.enabled && g.interval_hours == 24
                && g.grace_period_hours == 168 && !g.dry_run && g.max_blobs_per_run == 1000,
            r.bolt is Some,
            r.ghostbay is Some,
            r.signing matches Some(s) && !s.enabled,
            r.optimization matches Some(o) && !o.enabled,
            r.rbac matches Some(b) && !b.enabled,
            r.audit matches Some(a) && !a.enabled,
            r.cluster matches Some(c) && !c.enabled,
    {
        let mut immutable_tags: Vec<String> = Vec::new();
        immutable_tags.push("release".to_owned());
        immutable_tags.push("prod".to_owned());
        let mut users: Vec<String> = Vec::new();
        users.push("admin:changeme".to_owned());
        let mut signature_formats: Vec<String> = Vec::new();
        signature_formats.push("cosign".to_owned());
        signature_formats.push("simple".to_owned());
        let mut allowed_signature_formats: Vec<String> = Vec::new();
        allowed_signature_formats.push("cosign".to_owned());
        allowed_signature_formats.push("notary-v2".to_owned());
        allowed_signature_formats.push("simple".to_owned());
        let mut allowed_algorithms: Vec<String> = Vec::new();
        allowed_algorithms.push("ecdsa-p256-sha256".to_owned());
        allowed_algorithms.push("rsa-pss-sha256".to_owned());
        let mut trust_store_names: Vec<String> = Vec::new();
        trust_store_names.push("default".to_owned());
        Config {
            server: ServerConfig {
                bind_addr: "0.0.0.0:5000".to_owned(),
                ui_addr: "0.0.0.0:5001".to_owned(),
                workers: Some(4),
                max_connections: Some(1000),
            },
            storage: StorageConfig {
                storage_type: StorageType::Filesystem,
                path: Some("./data".to_owned()),
                s3: None,
                ghostbay: None,
            },
            auth: AuthConfig {
                mode: AuthMode::Basic,
                jwt_secret: "change-me-in-production".to_owned(),
                token_expiry_hours: 24,
                basic: Some(BasicAuthConfig { users }),
                oidc: None,
                oauth: Some(
                    OAuthConfig { enabled: false, azure: None, github: None, google: None },
                ),
            },
            registry: RegistryConfig {
                max_upload_size_mb: 1000,
                rate_limit_per_hour: 1000,
                immutable_tags,
                min_age_days: 7,
            },
            garbage_collector: Some(GarbageCollectorConfig::default()),
            bolt: Some(
                BoltConfig {
                    enable_profile_validation: true,
                    enable_plugin_sandbox: true,
                    auto_update_profiles: false,
                    registry_url: None,
                },
            ),
            ghostbay: Some(
                GhostBayConfig {
                    enable_s3_compat: true,
                    storage_engine: "local".to_owned(),
                    max_object_size_gb: 50,
                },
            ),
            signing: Some(
                SigningConfig {
                    enabled: false,
                    default_key_id: "default".to_owned(),
                    signature_formats,
                    verification_policy: VerificationPolicyConfig {
                        require_signatures: false,
                        required_signatures_count: 1,
                        allowed_signature_formats,
                        allowed_algorithms,
                        trust_stores: trust_store_names,
                        require_certificate_chain: false,
                        allow_self_signed: true,
                        max_signature_age_hours: Some(720),
                    },
                    signing_keys: Vec::new(),
                    verification_keys: Vec::new(),
                    trust_stores: Vec::new(),
                },
            ),
            optimization: Some(
                OptimizationConfig {
                    enabled: false,
                    background_optimization: true,
                    optimization_schedule_cron: Some("0 2 * * *".to_owned()),
                    enable_compression_optimization: true,
                    enable_layer_deduplication: true,
                    enable_layer_squashing: false,
                    enable_base_image_optimization: false,
                    preferred_compression: "gzip".to_owned(),
                    min_layer_size_mb: 10,
                    max_optimization_time_seconds: 300,
                    preserve_original: true,
                    optimization_workers: 2,
                },
            ),
            rbac: Some(
                RbacConfig {
                    enabled: false,
                    default_role: "viewer".to_owned(),
                    enable_organization_isolation: true,
                    enable_team_based_access: true,
                    enable_attribute_based_access: false,
                    cache_ttl_seconds: 300,
                    audit_authorization_decisions: true,
                },
            ),
            audit: Some(
                AuditConfig {
                    enabled: false,
                    min_severity: "info".to_owned(),
                    buffer_size: 1000,
                    flush_interval_seconds: 60,
                    enabled_event_types: Vec::new(),
                    exclude_patterns: Vec::new(),
                    file_export: Some(
                        FileExportConfig {
                            path: "./logs/audit.jsonl".to_owned(),
                            format: "jsonlines".to_owned(),
                            rotation_size_mb: 100,
                            retention_days: 90,
                        },
                    ),
                    webhook_export: None,
                    elasticsearch_export: None,
                },
            ),
            cluster: Some(
                ClusterConfig {
                    enabled: false,
                    node_id: "node-1".to_owned(),
                    bind_address: "0.0.0.0:7000".to_owned(),
                    seed_nodes: Vec::new(),
                    consensus_protocol: "raft".to_owned(),
                    replication_factor: 3,
                    consistency_level: crate::cluster::ConsistencyLevel::Quorum,
                    heartbeat_interval_seconds: 30,
                    health_check_interval_seconds: 10,
                    health_check_timeout_seconds: 60,
                    election_timeout_seconds: 300,
                    load_balancing_strategy: "round_robin".to_owned(),
                },
            ),
        }
    }
}

impl Config {
    /// Whether the storage section is complete for its chosen backend: a
    /// filesystem store needs a path, an S3 store its settings, a GhostBay
    /// store its settings.
    pub open spec fn storage_complete(&self) -> bool {
        match self.storage.storage_type {
            StorageType::Filesystem => self.storage.path is Some,
            StorageType::S3 => self.storage.s3 is Some,
            StorageType::GhostBay => self.storage.ghostbay is Some,
        }
    }

    /// Checks the configuration before startup: the chosen storage backend
    /// must have its settings, and the upload cap must be expressible in
    /// bytes.
    pub fn validate(&self) -> (r: bool)
        ensures
            r == (self.storage_complete() && self.registry.max_upload_size_mb
                <= 0xFFF_FFFF_FFFF),
    {
        let storage_ok = match self.storage.storage_type {
            StorageType::Filesystem => self.storage.path.is_some(),
            StorageType::S3 => self.storage.s3.is_some(),
            StorageType::GhostBay => self.storage.ghostbay.is_some(),
        };
        storage_ok && self.registry.max_upload_size_mb <= 0xFFF_FFFF_FFFF
    }

    /// The upload size cap in bytes.
    pub fn max_upload_bytes(&self) -> (r: u64)
        requires
            self.registry.max_upload_size_mb <= 0xFFF_FFFF_FFFF,
        ensures
            r == self.registry.max_upload_size_mb * 1024 * 1024,
    {
        self.registry.max_upload_size_mb * 1024 * 1024
    }
}

} // verus!
