//! Authentication and authorization core: signed access tokens checked against a
//! keystore, an access control list evaluated per token type, and verification of
//! OAuth bearer tokens against a JSON web key.

pub mod acl;
pub mod bindings;
pub mod boundary;
pub mod clock;
pub mod error;
pub mod keystore;
pub mod oauth;
pub mod text;
pub mod token;

pub use acl::{Acl, AclError};
pub use error::ZauthError;
pub use keystore::Keystore;
pub use oauth::{verify_oauth_token, OAuthToken, OauthError};
pub use token::{Token, TokenType, TokenVerification};
