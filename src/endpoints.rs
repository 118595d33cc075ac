//! Replies of the small endpoints, the synthetic routes, and the settings
//! read from the environment.

use vstd::prelude::*;
use crate::config::{bounded_value, parse_unsigned, Config, DEFAULT_PORT, FALLBACK_THREADS};
use crate::text::{ascii, decimal, push_ascii, push_decimal};

verus! {

/// Delay used when the request names none, in milliseconds.
pub const DEFAULT_DELAY_MS: u64 = 10;

/// Item count of the JSON endpoint when the request names none.
pub const DEFAULT_JSON_ITEMS: usize = 10;

/// The delay a request asks for: `ms`, or 10 when absent.
pub fn delay_ms(ms: Option<u64>) -> (r: u64)
    ensures
        r == (match ms { Some(m) => m, None => DEFAULT_DELAY_MS }),
{
    match ms {
        Some(m) => m,
        None => DEFAULT_DELAY_MS,
    }
}

/// The reply after a delay: `Delayed <ms> ms`.
pub fn delay_message(ms: u64) -> (r: Vec<u8>)
    ensures
        r@ == ascii("Delayed "@) + decimal(ms as nat) + ascii(" ms"@),
{
    proof {
        reveal_strlit("Delayed ");
        reveal_strlit(" ms");
    }
    let mut out: Vec<u8> = Vec::new();
    push_ascii(&mut out, "Delayed ");
    push_decimal(&mut out, ms);
    push_ascii(&mut out, " ms");
    out
}

/// The path of the i-th synthetic literal route: `/r<i>`.
pub fn route_path(i: usize) -> (r: Vec<u8>)
    ensures
        r@ == ascii("/r"@) + decimal(i as nat),
{
    proof {
        reveal_strlit("/r");
    }
    let mut out: Vec<u8> = Vec::new();
    push_ascii(&mut out, "/r");
    push_decimal(&mut out, i as u64);
    out
}

/// The reply of the i-th synthetic literal route: `route <i>`.
pub fn route_text(i: usize) -> (r: Vec<u8>)
    ensures
        r@ == ascii("route "@) + decimal(i as nat),
{
    proof {
        reveal_strlit("route ");
    }
    let mut out: Vec<u8> = Vec::new();
    push_ascii(&mut out, "route ");
    push_decimal(&mut out, i as u64);
    out
}

fn push_bytes(out: &mut Vec<u8>, b: &[u8])
    ensures
        final(out)@ == old(out)@ + b@,
{
    let ghost start = out@;
    let mut k: usize = 0;
    while k < b.len()
        invariant
            k <= b@.len(),
            out@ == start + b@.subrange(0, k as int),
        decreases b@.len() - k,
    {
        out.push(b[k]);
        k += 1;
        proof {
            assert(out@ =~= start + b@.subrange(0, k as int));
        }
    }
    proof {
        assert(b@.subrange(0, k as int) =~= b@);
    }
}

/// The reply of the user post pattern route: `user <user_id> post <post_id>`.
pub fn user_post(user_id: &[u8], post_id: &[u8]) -> (r: Vec<u8>)
    ensures
        r@ == ascii("user "@) + user_id@ + ascii(" post "@) + post_id@,
{
    proof {
        reveal_strlit("user ");
        reveal_strlit(" post ");
    }
    let mut out: Vec<u8> = Vec::new();
    push_ascii(&mut out, "user ");
    push_bytes(&mut out, user_id);
    push_ascii(&mut out, " post ");
    push_bytes(&mut out, post_id);
    out
}

/// The reply of the nested resource pattern route:
/// `resource <resource> item <item> action <action>`.
pub fn api_pattern(resource: &[u8], item: &[u8], action: &[u8]) -> (r: Vec<u8>)
    ensures
        r@ == ascii("resource "@) + resource@ + ascii(" item "@) + item@ + ascii(" action "@)
            + action@,
{
    proof {
        reveal_strlit("resource ");
        reveal_strlit(" item ");
        reveal_strlit(" action ");
    }
    let mut out: Vec<u8> = Vec::new();
    push_ascii(&mut out, "resource ");
    push_bytes(&mut out, resource);
    push_ascii(&mut out, " item ");
    push_bytes(&mut out, item);
    push_ascii(&mut out, " action ");
    push_bytes(&mut out, action);
    out
}

/// One entry of the JSON endpoint's list.
pub struct JsonItem {
    pub id: usize,
    /// `item-<id>`
    pub name: Vec<u8>,
    pub value: usize,
}

/// The name of the i-th JSON item: `item-<i>`.
pub open spec fn item_name(i: nat) -> Seq<u8> {
    ascii("item-"@) + decimal(i)
}

/// The item count a JSON request asks for: `items`, or 10 when absent.
pub open spec fn json_count(items: Option<usize>) -> usize {
    match items {
        Some(n) => n,
        None => DEFAULT_JSON_ITEMS,
    }
}

/// The JSON endpoint's list: item i has id i, name `item-<i>` and value
/// i * 100, for each i below the count asked for (10 when absent).
pub fn json_items(items: Option<usize>) -> (r: Vec<JsonItem>)
    requires
        json_count(items) <= usize::MAX / 100,
    ensures
        r@.len() == json_count(items),
        forall|i: int| 0 <= i < r@.len() ==> (#[trigger] r@[i]).id == i,
        forall|i: int| 0 <= i < r@.len() ==> (#[trigger] r@[i]).name@ == item_name(i as nat),
        forall|i: int| 0 <= i < r@.len() ==> (#[trigger] r@[i]).value == i * 100,
{
    let count = match items {
        Some(n) => n,
        None => DEFAULT_JSON_ITEMS,
    };
    let mut out: Vec<JsonItem> = Vec::new();
    let mut i: usize = 0;
    while i < count
        invariant
            i <= count,
            count == json_count(items),
            count <= usize::MAX / 100,
            out@.len() == i,
            forall|k: int| 0 <= k < i ==> (#[trigger] out@[k]).id == k,
            forall|k: int| 0 <= k < i ==> (#[trigger] out@[k]).name@ == item_name(k as nat),
            forall|k: int| 0 <= k < i ==> (#[trigger] out@[k]).value == k * 100,
        decreases count - i,
    {
        proof {
            reveal_strlit("item-");
        }
        let mut name: Vec<u8> = Vec::new();
        push_ascii(&mut name, "item-");
        push_decimal(&mut name, i as u64);
        proof {
            assert(name@ =~= item_name(i as nat));
        }
        out.push(JsonItem { id: i, name, value: i * 100 });
        i += 1;
    }
    out
}

/// A switch read from the environment: on exactly when its value is `1`.
pub open spec fn switch_on(value: Option<Seq<u8>>) -> bool {
    value == Some(seq![49u8])
}

/// Whether an environment switch is on: its value is exactly `1`.
pub fn env_switch(value: Option<&[u8]>) -> (r: bool)
    ensures
        r == switch_on(
            match value {
                Some(v) => Some(v@),
                None => None,
            },
        ),
{
    match value {
        Some(v) => {
            let r = v.len() == 1 && v[0] == 49;
            proof {
                if v@.len() == 1 && v@[0] == 49 {
                    assert(v@ =~= seq![49u8]);
                }
            }
            r
        },
        None => false,
    }
}

/// Why the listen port from the environment cannot be used.
#[derive(Debug, PartialEq, Eq, Structural)]
pub enum PortError {
    /// The value is no valid port number.
    Unparsable,
}

/// The listen port from the environment's value: 8086 where it is absent,
/// the port it names where it is a valid port number, and an error otherwise.
pub fn port_from_env(value: Option<&[u8]>) -> (r: Result<u16, PortError>)
    ensures
        r == (match value {
            Some(v) => match bounded_value(v@, 65535) {
                Some(p) => Ok(p as u16),
                None => Err(PortError::Unparsable),
            },
            None => Ok(DEFAULT_PORT),
        }),
{
    match value {
        Some(v) => match parse_unsigned(v, 65535) {
            Some(p) => Ok(p as u16),
            None => Err(PortError::Unparsable),
        },
        None => Ok(DEFAULT_PORT),
    }
}

/// The worker count: what the environment's value names, else what the
/// machine offers, else 4.
pub fn threads_from_env(value: Option<&[u8]>, available: Option<usize>) -> (r: usize)
    ensures
        r == (match value {
            Some(v) => match bounded_value(v@, usize::MAX as nat) {
                Some(n) => n as usize,
                None => match available {
                    Some(a) => a,
                    None => FALLBACK_THREADS,
                },
            },
            None => match available {
                Some(a) => a,
                None => FALLBACK_THREADS,
            },
        }),
{
    let parsed = match value {
        Some(v) => parse_unsigned(v, usize::MAX as u64),
        None => None,
    };
    match parsed {
        Some(n) => n as usize,
        None => match available {
            Some(a) => a,
            None => FALLBACK_THREADS,
        },
    }
}

/// The protocol label for the startup line.
pub open spec fn protocol_of(h2: bool, tls: bool) -> Seq<char> {
    if h2 {
        if tls {
            "h2-tls"@
        } else {
            "h2c"@
        }
    } else {
        "http/1.1"@
    }
}

/// Why the server cannot start with TLS.
#[derive(Debug, PartialEq, Eq, Structural)]
pub enum TlsSetupError {
    MissingCert,
    MissingKey,
}

impl Config {
    /// The port to listen on: the `--port` value where given, else the
    /// environment's port.
    pub fn listen_port(&self, env_port: u16) -> (r: u16)
        ensures
            r == (match self.port_override {
                Some(p) => p,
                None => env_port,
            }),
    {
        match self.port_override {
            Some(p) => p,
            None => env_port,
        }
    }

    /// The protocol label: `h2-tls`, `h2c` or `http/1.1`.
    pub fn protocol(&self) -> (r: &'static str)
        ensures
            r@ == protocol_of(self.h2, self.tls),
    {
        if self.h2 {
            if self.tls {
                "h2-tls"
            } else {
                "h2c"
            }
        } else {
            "http/1.1"
        }
    }

    /// The certificate and key files that TLS needs; an error names the
    /// first one missing.
    pub fn tls_files(&self) -> (r: Result<(Vec<u8>, Vec<u8>), TlsSetupError>)
        ensures
            self@.cert_file is None ==> r == Err::<(Vec<u8>, Vec<u8>), _>(TlsSetupError::MissingCert),
            self@.cert_file is Some && self@.key_file is None ==> r == Err::<(Vec<u8>, Vec<u8>), _>(
                TlsSetupError::MissingKey,
            ),
            r matches Ok(files) ==> self@.cert_file == Some(files.0@) && self@.key_file == Some(
                files.1@,
            ),
            self@.cert_file is Some && self@.key_file is Some ==> r is Ok,
    {
        match (&self.cert_file, &self.key_file) {
            (None, _) => Err(TlsSetupError::MissingCert),
            (Some(_), None) => Err(TlsSetupError::MissingKey),
            (Some(c), Some(k)) => {
                let files = (c.clone(), k.clone());
                proof {
                    assert(files.0@ =~= c@);
                    assert(files.1@ =~= k@);
                }
                Ok(files)
            },
        }
    }
}

} // verus!
