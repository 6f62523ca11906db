use vstd::prelude::*;

verus! {

/// Startup configuration for the bot: its user id, login token, owner id and
/// command prefix. The driver deserializes its own copy from disk and converts
/// into this type before handing it to the library.
pub struct Config {
    pub id: u64,
    pub token: String,
    pub owner: String,
    pub prefix: String,
}

} // verus!
