//! Application settings carried between the GUI layer and disk.
//!
//! Persistence (the JSON file under the user's configuration directory) is
//! the caller's business; this crate only defines the record and its
//! default.

use vstd::prelude::*;
use vstd::string::StringExecFns;

verus! {

/// The client's user-facing settings record.
#[derive(Clone, Debug)]
pub struct AppSettings {
    /// The anti-spam filtering mode; defaults to `"smart"`.
    pub anti_spam_mode: String,
}

impl Default for AppSettings {
    fn default() -> (r: Self)
        ensures
            r.anti_spam_mode@ == "smart"@,
    {
        AppSettings { anti_spam_mode: String::from_str("smart") }
    }
}

} // verus!
