//! What the command line client decides before it talks to anyone: which
//! request an action makes, and what it makes of the answer.

pub mod error;
pub mod gmail_client;
pub mod keypairs;
pub mod symmetric;
