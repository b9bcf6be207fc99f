//! A GPG pinentry that unlocks keys with a fingerprint: the Assuan protocol,
//! the pinentry session, the unlock flow and the dialogs, verified with Verus.
pub mod text;
pub mod assuan;
pub mod session;
pub mod keys;
pub mod fingerprint;
pub mod ui;
pub mod secret;
pub mod getpin;
pub mod cli;
