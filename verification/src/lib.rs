//! Hardened PostgreSQL access with attested credential rotation.
//!
//! The library holds what can be decided without touching the network: how
//! connections and the secret broker are configured, which peers are accepted,
//! how protected fields are sealed before storage and recovered after it, and
//! what zero-knowledge proofs state. Each function says in its contract what it
//! returns, and the proof functions beside them state what holds of the library
//! as a whole.

pub mod admin;
pub mod attestation;
pub mod broker_config;
pub mod certificate;
pub mod channel;
pub mod config;
pub mod crypto;
pub mod encoding;
pub mod endpoint;
pub mod envelope;
pub mod error;
pub mod field;
pub mod json;
pub mod peer;
pub mod pem;
pub mod pool;
pub mod protection;
pub mod ra_tls;
pub mod secret_broker_client;
pub mod string_set;
pub mod tee;
pub mod text;
pub mod time;
pub mod tor_auth;
pub mod zk;

pub use broker_config::SecretBrokerClientConfig;
pub use crypto::{aes_decrypt, aes_decrypt_with_aad, aes_encrypt, aes_encrypt_with_aad, hmac_sign};
pub use envelope::{
    decode_aead_payload, encode_aead_payload, is_aead_payload, is_aead_payload_v2,
};
pub use error::{DatabaseError, DbResult};
pub use protection::{
    decrypt_aead_optional, TICKET_ATTESTATION_NONCE_AAD, TICKET_ATTESTATION_QUOTE_AAD,
    TICKET_CLIENT_PUBLIC_KEY_AAD, TICKET_CLIENT_SECRET_PATH_AAD,
    TICKET_CLIENT_SECRET_REDEEM_TOKEN_AAD, TICKET_TLS_PUBKEY_DIGEST_AAD,
};
pub use tee::{TeeAttestation, TeeEndpointConfig};
pub use tor_auth::{
    IssuedTorAccessTicket, NewTorAccessTicket, TicketVerificationRecord, TorCredential,
    TorSessionRecord,
};
pub use zk::{
    derive_execution_commitment, derive_log_chain_commitment, derive_relay_commitment,
    ZkProofBundle, ZkProofVerification, ZkProver, ZkVerificationContext, DEFAULT_ZK_SECURITY,
};
