use vstd::prelude::*;

verus! {

/// The key of the environment entry that holds an endpoint's shared secret.
pub const SECRET_KEY: &'static str = "RENDROK_PASS";

/// One environment variable of a remote service.
pub struct EnvVar {
    pub key: String,
    pub value: String,
}

/// The endpoint exists but has no shared secret provisioned.
#[derive(PartialEq, Eq, Structural, Clone, Copy, Debug)]
pub enum SecretError {
    NotConfigured,
}

/// The entry holds the shared secret.
pub open spec fn is_secret_entry(v: EnvVar) -> bool {
    v.key@ == SECRET_KEY@
}

/// Some entry of `vars` holds the shared secret.
pub open spec fn has_secret(vars: Seq<EnvVar>) -> bool {
    exists|i: int| 0 <= i < vars.len() && is_secret_entry(vars[i])
}

/// `vars[i]` is the first entry that holds the shared secret.
pub open spec fn is_first_secret(vars: Seq<EnvVar>, i: int) -> bool {
    &&& 0 <= i < vars.len()
    &&& is_secret_entry(vars[i])
    &&& forall|j: int| 0 <= j < i ==> !is_secret_entry(#[trigger] vars[j])
}

/// The shared secret among an endpoint's environment variables: the value of
/// the first entry whose key is the secret's key.
pub fn resolve_secret(vars: &Vec<EnvVar>) -> (r: Result<String, SecretError>)
    ensures
        r is Ok <==> has_secret(vars@),
        r matches Ok(v) ==> exists|i: int| is_first_secret(vars@, i) && v@ == vars@[i].value@,
{
    let key = SECRET_KEY.to_owned();
    let mut i: usize = 0;
    while i < vars.len()
        invariant
            key@ == SECRET_KEY@,
            i <= vars.len(),
            forall|j: int| 0 <= j < i ==> !is_secret_entry(#[trigger] vars@[j]),
        decreases vars.len() - i,
    {
        if vars[i].key == key {
            assert(is_first_secret(vars@, i as int));
            return Ok(vars[i].value.clone());
        }
        i = i + 1;
    }
    Err(SecretError::NotConfigured)
}

} // verus!
