//! Self-verifying delivery bundles and signed receipts for disconnected
//! runtimes. Integrity and signatures bind a canonical binary statement, so
//! the order of fields in a transport archive never affects identity.
pub mod bundle;
pub mod receipt;
pub mod rules;
pub mod statement;

pub use bundle::{BundleEntry, BundleEnvelope, VerifiedBundle};
pub use receipt::{
    offline_receipt_id, OfflineStepReceipt, ReceiptEnvelope, ReceiptStatement, ReceiptTrustScope,
    VerifiedReceipt,
};
pub use statement::{BundleStatement, EntryDescriptor};
