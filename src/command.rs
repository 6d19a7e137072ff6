use vstd::prelude::*;

use crate::text::{decimal, is_digit, lemma_decimal_digits, push_decimal};

verus! {

/// The tunnel-client program that is launched.
pub const TUNNEL_BINARY: &'static str = "chisel";

/// The user name under which the client authenticates.
pub const AUTH_USER: &'static str = "rendrok";

/// The port inside the tunnel server that forwards to the local target.
pub const INTERNAL_PORT: u16 = 3000;

/// The local target exposed through the tunnel.
pub struct ForwardSpec {
    pub host: String,
    pub port: u16,
}

/// The view of an optional string.
pub open spec fn opt_view(o: Option<String>) -> Option<Seq<char>> {
    match o {
        Some(s) => Some(s@),
        None => None,
    }
}

/// The value may serve as a proxy: it is set and not empty.
pub open spec fn usable(o: Option<Seq<char>>) -> bool {
    o matches Some(v) && v.len() > 0
}

/// The proxy the client goes through: the first usable of `HTTPS_PROXY`,
/// `ALL_PROXY` and `HTTP_PROXY`, in that order, or none.
pub open spec fn proxy_choice(
    https: Option<Seq<char>>,
    all: Option<Seq<char>>,
    http: Option<Seq<char>>,
) -> Option<Seq<char>> {
    if usable(https) {
        https
    } else if usable(all) {
        all
    } else if usable(http) {
        http
    } else {
        None
    }
}

/// The value of the authentication flag.
pub open spec fn auth_value(secret: Seq<char>) -> Seq<char> {
    AUTH_USER@ + ":"@ + secret
}

/// The remote-forward argument that the tunnel client expects.
pub open spec fn forward_value(host: Seq<char>, port: nat) -> Seq<char> {
    "R:"@ + decimal(INTERNAL_PORT as nat) + ":"@ + host + ":"@ + decimal(port)
}

/// The arguments of the tunnel client, after the program name.
pub open spec fn client_args_spec(
    secret: Seq<char>,
    proxy: Option<Seq<char>>,
    url: Seq<char>,
    host: Seq<char>,
    port: nat,
) -> Seq<Seq<char>> {
    let head = seq!["client"@, "--auth"@, auth_value(secret)];
    let mid = match proxy {
        Some(p) => seq!["--proxy"@, p],
        None => Seq::empty(),
    };
    head + mid + seq![url, forward_value(host, port)]
}

/// The line printed once the client runs.
pub open spec fn confirmation_text(host: Seq<char>, port: nat, url: Seq<char>) -> Seq<char> {
    "\n==== "@ + host + ":"@ + decimal(port) + " is now exposed on "@ + url + " ====\n"@
}

/// The views of a list of strings.
pub open spec fn views(v: Seq<String>) -> Seq<Seq<char>> {
    v.map_values(|s: String| s@)
}

impl ForwardSpec {
    pub fn new(host: String, port: u16) -> (f: ForwardSpec)
        ensures
            f.host == host,
            f.port == port,
    {
        ForwardSpec { host, port }
    }

    /// The remote-forward argument for this target.
    pub fn remote_arg(&self) -> (r: String)
        ensures
            r@ == forward_value(self.host@, self.port as nat),
    {
        let mut r = "R:".to_owned();
        push_decimal(&mut r, INTERNAL_PORT);
        r.append(":");
        r.append(self.host.as_str());
        r.append(":");
        push_decimal(&mut r, self.port);
        r
    }
}

/// Picks the proxy from the values of `HTTPS_PROXY`, `ALL_PROXY` and
/// `HTTP_PROXY`: the first one that is set and not empty.
pub fn choose_proxy(https: Option<String>, all_proxy: Option<String>, http: Option<String>) -> (r:
    Option<String>)
    ensures
        opt_view(r) == proxy_choice(opt_view(https), opt_view(all_proxy), opt_view(http)),
{
    if let Some(p) = https {
        if !p.as_str().is_empty() {
            return Some(p);
        }
    }
    if let Some(p) = all_proxy {
        if !p.as_str().is_empty() {
            return Some(p);
        }
    }
    if let Some(p) = http {
        if !p.as_str().is_empty() {
            return Some(p);
        }
    }
    None
}

/// The value of the authentication flag for a secret.
pub fn auth_token(secret: &String) -> (r: String)
    ensures
        r@ == auth_value(secret@),
{
    let mut r = AUTH_USER.to_owned();
    r.append(":");
    r.append(secret.as_str());
    r
}

/// The arguments that launch the tunnel client against `url`, authenticated
/// with `secret`, through `proxy` if there is one, forwarding to `forward`.
pub fn client_args(secret: &String, proxy: &Option<String>, url: &String, forward: &ForwardSpec) -> (r:
    Vec<String>)
    ensures
        views(r@) == client_args_spec(
            secret@,
            opt_view(*proxy),
            url@,
            forward.host@,
            forward.port as nat,
        ),
{
    let mut r: Vec<String> = Vec::new();
    r.push("client".to_owned());
    r.push("--auth".to_owned());
    r.push(auth_token(secret));
    match proxy {
        Some(p) => {
            r.push("--proxy".to_owned());
            r.push(p.clone());
        },
        None => {},
    }
    r.push(url.clone());
    r.push(forward.remote_arg());
    assert(views(r@) =~= client_args_spec(
        secret@,
        opt_view(*proxy),
        url@,
        forward.host@,
        forward.port as nat,
    ));
    r
}

/// The confirmation printed once the client runs, naming the local target
/// and the public URL.
pub fn confirmation_line(forward: &ForwardSpec, url: &String) -> (r: String)
    ensures
        r@ == confirmation_text(forward.host@, forward.port as nat, url@),
{
    let mut r = "\n==== ".to_owned();
    r.append(forward.host.as_str());
    r.append(":");
    push_decimal(&mut r, forward.port);
    r.append(" is now exposed on ");
    r.append(url.as_str());
    r.append(" ====\n");
    r
}

/// The forward argument always reads `R:3000:<host>:<port>`, the port in
/// plain decimal digits, with nothing else around or between the parts.
pub proof fn lemma_forward_form(host: Seq<char>, port: u16)
    ensures
        forward_value(host, port as nat) == "R:3000:"@ + host + ":"@ + decimal(port as nat),
        1 <= decimal(port as nat).len() <= 5,
        forall|k: int|
            0 <= k < decimal(port as nat).len() ==> is_digit(#[trigger] decimal(port as nat)[k]),
{
    reveal_strlit("R:");
    reveal_strlit(":");
    reveal_strlit("R:3000:");
    reveal_with_fuel(decimal, 4);
    assert(decimal(3000) =~= seq!['3', '0', '0', '0']);
    lemma_decimal_digits(port as nat);
    assert(forward_value(host, port as nat) =~= "R:3000:"@ + host + ":"@ + decimal(port as nat));
}

} // verus!
