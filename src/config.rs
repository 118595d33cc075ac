//! Startup configuration: command-line flags and environment values.

use vstd::prelude::*;
use crate::text::ascii;

verus! {

/// Listen port used when neither flag nor environment names one.
pub const DEFAULT_PORT: u16 = 8086;

/// Route count used when `--routes` is given an unreadable number.
pub const FALLBACK_ROUTE_COUNT: usize = 1000;

/// Worker count used when neither the environment nor the machine names one.
pub const FALLBACK_THREADS: usize = 4;

/// An ASCII digit.
pub open spec fn is_digit(b: u8) -> bool {
    48 <= b <= 57
}

/// The number that a run of decimal digits spells.
pub open spec fn digits_value(s: Seq<u8>) -> nat
    decreases s.len(),
{
    if s.len() == 0 {
        0
    } else {
        digits_value(s.drop_last()) * 10 + (s.last() - 48) as nat
    }
}

/// The digits of an unsigned number's text: all after an optional leading `+`.
pub open spec fn unsigned_digits(s: Seq<u8>) -> Seq<u8> {
    if s.len() > 0 && s[0] == 43 {
        s.drop_first()
    } else {
        s
    }
}

/// The value of an unsigned decimal text: an optional `+` then one or more
/// digits, and nothing else; `None` for any other text.
pub open spec fn unsigned_value(s: Seq<u8>) -> Option<nat> {
    let d = unsigned_digits(s);
    if d.len() > 0 && forall|i: int| 0 <= i < d.len() ==> is_digit(#[trigger] d[i]) {
        Some(digits_value(d))
    } else {
        None
    }
}

/// The value of an unsigned decimal text where it is at most `max`.
pub open spec fn bounded_value(s: Seq<u8>, max: nat) -> Option<nat> {
    match unsigned_value(s) {
        Some(v) => if v <= max {
            Some(v)
        } else {
            None
        },
        None => None,
    }
}

/// Reads an unsigned decimal number no larger than `max`, as Rust's integer
/// parsing does for an unsigned type whose largest value is `max`.
pub fn parse_unsigned(s: &[u8], max: u64) -> (r: Option<u64>)
    ensures
        r == (match bounded_value(s@, max as nat) {
            Some(v) => Some(v as u64),
            None => None::<u64>,
        }),
{
    let start: usize = if s.len() > 0 && s[0] == 43 { 1 } else { 0 };
    let ghost d = unsigned_digits(s@);
    proof {
        assert(d =~= s@.subrange(start as int, s@.len() as int));
    }
    if start >= s.len() {
        assert(d.len() == 0);
        return None;
    }
    let mut value: u64 = 0;
    let mut over: bool = false;
    let mut i: usize = start;
    while i < s.len()
        invariant
            start <= i <= s@.len(),
            d == s@.subrange(start as int, s@.len() as int),
            d == unsigned_digits(s@),
            forall|k: int| 0 <= k < i - start ==> is_digit(#[trigger] d[k]),
            !over ==> value as nat == digits_value(d.subrange(0, i - start)) && value <= max,
            over ==> digits_value(d.subrange(0, i - start)) > max,
        decreases s@.len() - i,
    {
        let b = s[i];
        if b < 48 || b > 57 {
            proof {
                assert(d[i - start] == b);
                assert(!is_digit(d[i - start]));
            }
            return None;
        }
        proof {
            let p = d.subrange(0, i - start + 1);
            assert(p.drop_last() =~= d.subrange(0, i - start));
            assert(p.last() == b);
        }
        if !over {
            let next: u128 = value as u128 * 10 + (b - 48) as u128;
            if next > max as u128 {
                over = true;
            } else {
                value = next as u64;
            }
        }
        i += 1;
    }
    proof {
        assert(d.subrange(0, i - start) =~= d);
    }
    if over {
        None
    } else {
        Some(value)
    }
}

/// Whether `a` holds exactly the bytes of the ASCII text `s`.
pub fn text_is(a: &[u8], s: &str) -> (r: bool)
    requires
        s.is_ascii(),
    ensures
        r == (a@ == ascii(s@)),
{
    proof {
        vstd::string::is_ascii_spec_bytes(s);
    }
    let b = s.as_bytes();
    if a.len() != b.len() {
        return false;
    }
    let mut k: usize = 0;
    while k < b.len()
        invariant
            k <= b@.len(),
            a@.len() == b@.len(),
            b@ == ascii(s@),
            forall|m: int| 0 <= m < k ==> a@[m] == b@[m],
        decreases b@.len() - k,
    {
        if a[k] != b[k] {
            return false;
        }
        k += 1;
    }
    proof {
        assert(a@ =~= b@);
    }
    true
}

/// Settings read from the command line.
pub struct Config {
    /// `--port N`: the port, where N was a valid port number.
    pub port_override: Option<u16>,
    /// `--static DIR`: the base directory of static files.
    pub static_dir: Option<Vec<u8>>,
    /// `--routes N`: how many `/r<i>` routes to add (1000 where N was unreadable).
    pub route_count: usize,
    /// `--h2`
    pub h2: bool,
    /// `--tls`
    pub tls: bool,
    /// `--cert FILE`
    pub cert_file: Option<Vec<u8>>,
    /// `--key FILE`
    pub key_file: Option<Vec<u8>>,
}

/// The mathematical form of a configuration.
pub struct ConfigModel {
    pub port_override: Option<u16>,
    pub static_dir: Option<Seq<u8>>,
    pub route_count: usize,
    pub h2: bool,
    pub tls: bool,
    pub cert_file: Option<Seq<u8>>,
    pub key_file: Option<Seq<u8>>,
}

impl View for Config {
    type V = ConfigModel;

    open spec fn view(&self) -> ConfigModel {
        ConfigModel {
            port_override: self.port_override,
            static_dir: self.static_dir.deep_view(),
            route_count: self.route_count,
            h2: self.h2,
            tls: self.tls,
            cert_file: self.cert_file.deep_view(),
            key_file: self.key_file.deep_view(),
        }
    }
}

/// What the command line asks for.
pub enum CliCommand {
    /// Print the usage text and stop.
    Help,
    /// Stop at once: this `--port` value is no valid port number.
    BadPort(Vec<u8>),
    /// Serve with this configuration.
    Serve(Config),
}

/// The mathematical form of what the command line asks for.
pub enum CliModel {
    Help,
    BadPort(Seq<u8>),
    Serve(ConfigModel),
}

/// The configuration before any flag is read.
pub open spec fn initial_config() -> ConfigModel {
    ConfigModel {
        port_override: None,
        static_dir: None,
        route_count: 0,
        h2: false,
        tls: false,
        cert_file: None,
        key_file: None,
    }
}

/// The port a `--port` value names, where it is a valid port number.
pub open spec fn port_value(s: Seq<u8>) -> Option<u16> {
    match bounded_value(s, 65535) {
        Some(v) => Some(v as u16),
        None => None,
    }
}

/// The route count a `--routes` value names; 1000 where it is unreadable.
pub open spec fn route_count_value(s: Seq<u8>) -> usize {
    match bounded_value(s, usize::MAX as nat) {
        Some(v) => v as usize,
        None => FALLBACK_ROUTE_COUNT,
    }
}

/// Reads the arguments from position `i` on into `c`. A help flag, or a
/// `--port` value that is no valid port number, ends the reading with that
/// outcome. A flag that needs a value and stands last, and any unknown
/// argument, is passed over.
pub open spec fn scan_args(args: Seq<Seq<u8>>, i: int, c: ConfigModel) -> CliModel
    decreases args.len() - i,
{
    if i < 0 || i >= args.len() {
        CliModel::Serve(c)
    } else {
        let a = args[i];
        let has_value = i + 1 < args.len();
        if a == ascii("--port"@) && has_value {
            match port_value(args[i + 1]) {
                Some(p) => scan_args(args, i + 2, ConfigModel { port_override: Some(p), ..c }),
                None => CliModel::BadPort(args[i + 1]),
            }
        } else if a == ascii("--static"@) && has_value {
            scan_args(args, i + 2, ConfigModel { static_dir: Some(args[i + 1]), ..c })
        } else if a == ascii("--routes"@) && has_value {
            scan_args(args, i + 2, ConfigModel { route_count: route_count_value(args[i + 1]), ..c })
        } else if a == ascii("--h2"@) {
            scan_args(args, i + 1, ConfigModel { h2: true, ..c })
        } else if a == ascii("--tls"@) {
            scan_args(args, i + 1, ConfigModel { tls: true, ..c })
        } else if a == ascii("--cert"@) && has_value {
            scan_args(args, i + 2, ConfigModel { cert_file: Some(args[i + 1]), ..c })
        } else if a == ascii("--key"@) && has_value {
            scan_args(args, i + 2, ConfigModel { key_file: Some(args[i + 1]), ..c })
        } else if a == ascii("--help"@) || a == ascii("-h"@) {
            CliModel::Help
        } else {
            scan_args(args, i + 1, c)
        }
    }
}

/// Reads the command line; the first argument is the program's name.
pub fn parse_args(args: &Vec<Vec<u8>>) -> (r: CliCommand)
    ensures
        (match r {
            CliCommand::Help => scan_args(args.deep_view(), 1, initial_config()) == CliModel::Help,
            CliCommand::BadPort(v) => scan_args(args.deep_view(), 1, initial_config())
                == CliModel::BadPort(v@),
            CliCommand::Serve(c) => scan_args(args.deep_view(), 1, initial_config())
                == CliModel::Serve(c@),
        }),
{
    let ghost all = args.deep_view();
    let mut c = Config {
        port_override: None,
        static_dir: None,
        route_count: 0,
        h2: false,
        tls: false,
        cert_file: None,
        key_file: None,
    };
    proof {
        assert(c@ == initial_config());
    }
    let mut i: usize = 1;
    while i < args.len()
        invariant
            1 <= i,
            all == args.deep_view(),
            scan_args(all, i as int, c@) == scan_args(all, 1, initial_config()),
        decreases args@.len() - i,
    {
        let a = args[i].as_slice();
        let has_value = i + 1 < args.len();
        proof {
            assert(a@ =~= all[i as int]);
            if has_value {
                assert(args@[i + 1]@ =~= all[i + 1]);
            }
            reveal_strlit("--port");
            reveal_strlit("--static");
            reveal_strlit("--routes");
            reveal_strlit("--h2");
            reveal_strlit("--tls");
            reveal_strlit("--cert");
            reveal_strlit("--key");
            reveal_strlit("--help");
            reveal_strlit("-h");
        }
        if text_is(a, "--port") && has_value {
            let p = parse_unsigned(args[i + 1].as_slice(), 65535);
            match p {
                Some(v) => {
                    c.port_override = Some(v as u16);
                },
                None => {
                    let bad = args[i + 1].clone();
                    proof {
                        assert(bad@ =~= all[i + 1]);
                    }
                    return CliCommand::BadPort(bad);
                },
            }
            i += 2;
        } else if text_is(a, "--static") && has_value {
            c.static_dir = Some(args[i + 1].clone());
            i += 2;
        } else if text_is(a, "--routes") && has_value {
            let n = parse_unsigned(args[i + 1].as_slice(), usize::MAX as u64);
            c.route_count = match n {
                Some(v) => v as usize,
                None => FALLBACK_ROUTE_COUNT,
            };
            i += 2;
        } else if text_is(a, "--h2") {
            c.h2 = true;
            i += 1;
        } else if text_is(a, "--tls") {
            c.tls = true;
            i += 1;
        } else if text_is(a, "--cert") && has_value {
            c.cert_file = Some(args[i + 1].clone());
            i += 2;
        } else if text_is(a, "--key") && has_value {
            c.key_file = Some(args[i + 1].clone());
            i += 2;
        } else if text_is(a, "--help") || text_is(a, "-h") {
            return CliCommand::Help;
        } else {
            i += 1;
        }
    }
    CliCommand::Serve(c)
}

} // verus!
