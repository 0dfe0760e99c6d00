//! Client-side signing for a cloud object-storage REST API.
//!
//! The crate centres on two independent request-signing schemes: the
//! data-plane scheme, which canonicalizes a request and signs it with a
//! time-windowed HMAC key, and the control-plane scheme, which sorts a flat
//! query-parameter set and signs it over a fixed template. Around them stand
//! the client configuration, the permission-policy model used to request
//! temporary credentials, and the plain data types of the bucket and object
//! operations.
pub mod auth;
pub mod bucket;
pub mod client;
pub mod config;
pub mod digest;
pub mod encoding;
pub mod error;
pub mod object;
pub mod params;
pub mod strings;
pub mod sts;

pub use auth::Auth;
pub use bucket::BucketAcl;
pub use bucket::ListObjectsOptions;
pub use bucket::ListObjectsV2Options;
pub use config::Config;
pub use config::extract_app_id;
pub use error::CosError;
pub use object::DeleteObjectResponse;
pub use object::GetObjectResponse;
pub use object::HeadObjectResponse;
pub use object::PutObjectResponse;
pub use params::ParamMap;
pub use strings::i64_to_string;
pub use strings::u64_to_string;
pub use sts::GetCredentialsRequest;
pub use sts::Policy;
pub use sts::Statement;
pub use sts::StsClient;
pub use sts::TemporaryCredentials;
