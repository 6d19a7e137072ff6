use vstd::prelude::*;

verus! {

/// What the tool keeps between invocations: the API key and the owner it
/// belongs to.
pub struct Config {
    pub api_key: String,
    pub owner_email: String,
    pub owner_id: String,
}

/// An account owner, as the provider lists it.
pub struct Owner {
    pub email: String,
    pub id: String,
}

impl Default for Config {
    fn default() -> (c: Config)
        ensures
            c.api_key@.len() == 0,
            c.owner_email@.len() == 0,
            c.owner_id@.len() == 0,
    {
        Config { api_key: String::new(), owner_email: String::new(), owner_id: String::new() }
    }
}

impl Config {
    /// The configuration after logging in with `api_key`: the owner is the
    /// first one that the key gives access to; none if it gives access to none.
    pub fn login(api_key: String, owners: &Vec<Owner>) -> (r: Option<Config>)
        ensures
            r is Some <==> owners.len() > 0,
            r matches Some(c) ==> c.api_key == api_key && c.owner_email == owners@[0].email
                && c.owner_id == owners@[0].id,
    {
        if owners.len() == 0 {
            return None;
        }
        Some(
            Config {
                api_key,
                owner_email: owners[0].email.clone(),
                owner_id: owners[0].id.clone(),
            },
        )
    }
}

} // verus!
