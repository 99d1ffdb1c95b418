//! A call-translation bridge that exposes a native fungible-token ledger
//! through the Ethereum ABI calling convention.
//!
//! Raw input bytes are routed by their 4-byte selector to one of the token
//! actions (total supply, balance, transfer, approve, allowance); arguments
//! are decoded and results encoded as right-aligned 32-byte ABI words; gas
//! costs are derived from the weights the ledger reports; Approval and
//! Transfer events are assembled in the standard token-event format; and
//! ledger failures are translated into structured call outcomes.

pub mod codec;
pub mod currencies;
pub mod dispatcher;
pub mod gas;
pub mod ledger;
pub mod logs;
