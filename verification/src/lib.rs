//! Verified core of a mail-reading command line tool: OAuth2 token-request
//! construction, a persistent credential set, IMAP header-filter expressions,
//! date-ordered mailbox retrieval, and a resilient session state machine.
#![verifier::loop_isolation(false)]
pub mod cli;
pub mod errors;
pub mod google;
pub mod mail;
pub mod mail_filters;
pub mod session;
pub mod store_accounts;
