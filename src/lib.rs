//! Transaction validation for fraud and money-laundering risk.
//!
//! The library holds a stateful validation pipeline, a fraud scorer with a
//! per-account history, a transaction graph with network detectors, AML
//! and KYC checks, sanctions screening, and geographic risk tables.
//!
//! Amounts are integers in cents, timestamps milliseconds since the Unix
//! epoch (UTC), and screening confidences basis points.

mod bindings;
pub mod aml_compliance;
pub mod fraud_patterns;
pub mod geographic_risk;
pub mod network_analysis;
pub mod sanctions;
pub mod text;
pub mod validator;

pub use aml_compliance::{AMLChecker, AMLResult, KYCValidationResult, KYCValidator};
pub use fraud_patterns::{FraudDetector, FraudScore, FraudThresholds, RiskLevel};
pub use validator::{
    RiskBreakdown, Transaction, TransactionType, TransactionValidator, ValidationError,
    ValidationResult, ValidatorConfig,
};
