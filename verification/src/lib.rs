pub mod catalogue;
pub mod codec;
pub mod domain;
pub mod encoding;
pub mod error;
pub mod laws;
pub mod manager;
pub mod primitives;
pub mod store;
pub mod vault;

pub use catalogue::Catalogue;
pub use domain::{EntryMetadata, EntryName, Password, PasswordEntry};
pub use error::Error;
pub use manager::CryptoManager;
pub use store::Store;
pub use vault::EncryptedVault;
