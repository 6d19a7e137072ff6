use vstd::prelude::*;

verus! {

/// The root of the provider's REST API.
pub const API_BASE: &'static str = "https://api.render.com/v1";

/// The address that lists the account's owners.
pub open spec fn owners_url_text() -> Seq<char> {
    API_BASE@ + "/owners"@
}

/// The address that lists the account's services.
pub open spec fn services_url_text() -> Seq<char> {
    API_BASE@ + "/services"@
}

/// The address of one service.
pub open spec fn service_url_text(id: Seq<char>) -> Seq<char> {
    API_BASE@ + "/services/"@ + id
}

/// The address that lists one service's environment variables.
pub open spec fn env_vars_url_text(id: Seq<char>) -> Seq<char> {
    API_BASE@ + "/services/"@ + id + "/env-vars"@
}

/// The value of the authorization header for an API key.
pub open spec fn bearer_text(api_key: Seq<char>) -> Seq<char> {
    "Bearer "@ + api_key
}

pub fn owners_url() -> (r: String)
    ensures
        r@ == owners_url_text(),
{
    let mut r = API_BASE.to_owned();
    r.append("/owners");
    r
}

pub fn services_url() -> (r: String)
    ensures
        r@ == services_url_text(),
{
    let mut r = API_BASE.to_owned();
    r.append("/services");
    r
}

pub fn service_url(id: &str) -> (r: String)
    ensures
        r@ == service_url_text(id@),
{
    let mut r = API_BASE.to_owned();
    r.append("/services/");
    r.append(id);
    r
}

pub fn env_vars_url(id: &str) -> (r: String)
    ensures
        r@ == env_vars_url_text(id@),
{
    let mut r = API_BASE.to_owned();
    r.append("/services/");
    r.append(id);
    r.append("/env-vars");
    r
}

pub fn bearer(api_key: &str) -> (r: String)
    ensures
        r@ == bearer_text(api_key@),
{
    let mut r = "Bearer ".to_owned();
    r.append(api_key);
    r
}

} // verus!
