//! Startup configuration: an explicit struct built once from the values the
//! environment hands the process, validated before anything runs.
use vstd::prelude::*;

use crate::constants::MIN_SESSION_SECRET_LENGTH;

verus! {

/// The service configuration.
#[derive(Debug)]
pub struct Config {
    pub host: String,
    pub port: String,
    pub data_path: String,
    pub session_secret: String,
}

/// What can be wrong with the configuration.
#[derive(Debug)]
pub enum ConfigError {
    /// No session secret was provided.
    MissingSessionSecret,
    /// The session secret is unusable; the payload says why.
    InvalidSessionSecret(String),
    /// The port is not a number a socket can bind; the payload is the
    /// offending value.
    InvalidPort(String),
}

impl ConfigError {
    /// The message a maintainer sees for this configuration error.
    pub fn message(&self) -> (r: String)
        ensures
            self is MissingSessionSecret ==> r@
                == "SESSION_SECRET environment variable is required"@,
            self matches ConfigError::InvalidSessionSecret(m) ==> r@
                == "Invalid session secret: "@ + m@,
            self matches ConfigError::InvalidPort(p) ==> r@ == "Invalid port number: "@ + p@,
    {
        match self {
            ConfigError::MissingSessionSecret => String::from_str(
                "SESSION_SECRET environment variable is required",
            ),
            ConfigError::InvalidSessionSecret(m) => {
                let mut s = String::from_str("Invalid session secret: ");
                s.append(m.as_str());
                s
            },
            ConfigError::InvalidPort(p) => {
                let mut s = String::from_str("Invalid port number: ");
                s.append(p.as_str());
                s
            },
        }
    }
}

/// A decimal digit.
pub open spec fn is_digit(c: char) -> bool {
    0x30 <= c as int && c as int <= 0x39
}

/// The value of a decimal digit.
pub open spec fn digit_val(c: char) -> int {
    c as int - 0x30
}

/// Every character is a decimal digit.
pub open spec fn all_digits(s: Seq<char>) -> bool {
    forall|i: int| 0 <= i < s.len() ==> is_digit(s[i])
}

/// The number a digit string denotes.
pub open spec fn dec_value(s: Seq<char>) -> int
    decreases s.len(),
{
    if s.len() == 0 {
        0
    } else {
        dec_value(s.drop_last()) * 10 + digit_val(s.last())
    }
}

/// The digits of a number written with an optional leading plus sign.
pub open spec fn digits_part(s: Seq<char>) -> Seq<char> {
    if s.len() > 0 && s[0] == '+' {
        s.drop_first()
    } else {
        s
    }
}

/// The string denotes a number a 16-bit port can hold: an optional plus
/// sign, then at least one digit, with a value of at most 65535.
pub open spec fn is_u16_string(s: Seq<char>) -> bool {
    digits_part(s).len() > 0 && all_digits(digits_part(s)) && dec_value(digits_part(s)) <= 65535
}

/// Ten to the given power.
pub open spec fn pow10(n: int) -> int
    decreases n,
{
    if n <= 0 {
        1
    } else {
        10 * pow10(n - 1)
    }
}

proof fn lemma_dec_value_lower(s: Seq<char>)
    requires
        all_digits(s),
        s.len() > 0,
        s[0] != '0',
    ensures
        dec_value(s) >= pow10(s.len() - 1),
    decreases s.len(),
{
    if s.len() == 1 {
        assert(is_digit(s[0]));
        assert(digit_val(s[0]) >= 1);
        assert(s.drop_last().len() == 0);
        assert(dec_value(s.drop_last()) == 0);
        assert(dec_value(s) == dec_value(s.drop_last()) * 10 + digit_val(s.last()));
        assert(pow10(0) == 1);
    } else {
        let t = s.drop_last();
        assert forall|i: int| 0 <= i < t.len() implies is_digit(t[i]) by {
            assert(t[i] == s[i]);
        }
        assert(t[0] == s[0]);
        lemma_dec_value_lower(t);
        assert(is_digit(s.last()));
        assert(digit_val(s.last()) >= 0);
        assert(dec_value(s) == dec_value(t) * 10 + digit_val(s.last()));
        assert(pow10(s.len() - 1) == 10 * pow10(s.len() - 2));
    }
}

proof fn lemma_dec_value_zero_head(s: Seq<char>)
    requires
        s.len() > 0,
        s[0] == '0',
    ensures
        dec_value(s) == dec_value(s.drop_first()),
    decreases s.len(),
{
    if s.len() == 1 {
        assert(s.drop_last().len() == 0);
        assert(dec_value(s.drop_last()) == 0);
        assert(dec_value(s) == dec_value(s.drop_last()) * 10 + digit_val(s.last()));
        assert(digit_val(s.last()) == 0);
        assert(s.drop_first().len() == 0);
        assert(dec_value(s.drop_first()) == 0);
    } else {
        let t = s.drop_last();
        assert(t[0] == s[0]);
        lemma_dec_value_zero_head(t);
        assert(dec_value(s) == dec_value(t) * 10 + digit_val(s.last()));
        assert(t.drop_first() =~= s.drop_first().drop_last());
        assert(s.drop_first().last() == s.last());
        assert(dec_value(s.drop_first()) == dec_value(s.drop_first().drop_last()) * 10 + digit_val(
            s.drop_first().last(),
        ));
    }
}

proof fn lemma_dec_value_skip_zeros(s: Seq<char>, k: int)
    requires
        0 <= k <= s.len(),
        forall|i: int| 0 <= i < k ==> s[i] == '0',
    ensures
        dec_value(s) == dec_value(s.skip(k)),
    decreases k,
{
    if k == 0 {
        assert(s.skip(0) =~= s);
    } else {
        lemma_dec_value_zero_head(s);
        let t = s.drop_first();
        assert forall|i: int| 0 <= i < k - 1 implies t[i] == '0' by {
            assert(t[i] == s[i + 1]);
        }
        lemma_dec_value_skip_zeros(t, k - 1);
        assert(t.skip(k - 1) =~= s.skip(k));
    }
}

/// Decides whether a string denotes a valid port number, as `from_parts`
/// demands of the configured port.
pub fn is_valid_port(s: &str) -> (r: bool)
    ensures
        r == is_u16_string(s@),
{
    let n = s.unicode_len();
    let start: usize = if n > 0 && s.get_char(0) == '+' {
        1
    } else {
        0
    };
    proof {
        if start == 1 {
            assert(digits_part(s@) =~= s@.skip(1));
        } else {
            assert(digits_part(s@) =~= s@.skip(0));
            assert(s@.skip(0) =~= s@);
        }
    }
    if start == n {
        return false;
    }
    let mut i: usize = start;
    while i < n
        invariant
            start <= i <= n,
            n == s@.len(),
            start < n,
            start == 0 || start == 1,
            digits_part(s@) =~= s@.skip(start as int),
            forall|k: int| start <= k < i ==> is_digit(s@[k]),
        decreases n - i,
    {
        let u = s.get_char(i) as u32;
        if u < 0x30 || u > 0x39 {
            proof {
                assert(digits_part(s@)[i - start] == s@[i as int]);
                assert(!is_digit(s@[i as int]));
            }
            return false;
        }
        i = i + 1;
    }
    proof {
        assert forall|k: int| 0 <= k < digits_part(s@).len() implies is_digit(
            digits_part(s@)[k],
        ) by {
            assert(digits_part(s@)[k] == s@[k + start]);
        }
    }
    let mut z: usize = start;
    while z < n && s.get_char(z) as u32 == 0x30
        invariant
            start <= z <= n,
            n == s@.len(),
            start < n,
            start == 0 || start == 1,
            digits_part(s@) =~= s@.skip(start as int),
            all_digits(digits_part(s@)),
            forall|k: int| start <= k < z ==> s@[k] == '0',
        decreases n - z,
    {
        z = z + 1;
    }
    proof {
        let d = digits_part(s@);
        assert forall|k: int| 0 <= k < z - start implies d[k] == '0' by {
            assert(d[k] == s@[k + start]);
        }
        lemma_dec_value_skip_zeros(d, z - start);
        assert(d.skip(z - start) =~= s@.skip(z as int));
    }
    if n - z > 5 {
        proof {
            let sig = s@.skip(z as int);
            assert(sig.len() == n - z);
            assert forall|k: int| 0 <= k < sig.len() implies is_digit(sig[k]) by {
                assert(sig[k] == digits_part(s@)[k + z - start]);
            }
            assert(sig[0] == s@[z as int]);
            assert(z < n);
            assert(is_digit(s@[z as int]));
            assert(s@[z as int] != '0');
            lemma_dec_value_lower(sig);
            assert(pow10(0) == 1);
            assert(pow10(1) == 10);
            assert(pow10(2) == 100);
            assert(pow10(3) == 1000);
            assert(pow10(4) == 10000);
            assert(pow10(5) == 100000);
            assert(pow10(sig.len() - 1) >= pow10(5)) by {
                lemma_pow10_mono(5, sig.len() - 1);
            }
        }
        return false;
    }
    let mut acc: u32 = 0;
    let mut j: usize = z;
    while j < n
        invariant
            z <= j <= n,
            n == s@.len(),
            n - z <= 5,
            start == 0 || start == 1,
            start <= z,
            digits_part(s@) =~= s@.skip(start as int),
            all_digits(digits_part(s@)),
            dec_value(digits_part(s@)) == dec_value(s@.skip(z as int)),
            acc == dec_value(s@.subrange(z as int, j as int)),
            acc < pow10(j - z),
        decreases n - j,
    {
        let u = s.get_char(j) as u32;
        proof {
            assert(s@[j as int] == digits_part(s@)[j - start]);
            assert(is_digit(s@[j as int]));
            assert(pow10(j - z) <= pow10(4)) by {
                lemma_pow10_mono(j - z, 4);
            }
            assert(pow10(0) == 1);
            assert(pow10(1) == 10);
            assert(pow10(2) == 100);
            assert(pow10(3) == 1000);
            assert(pow10(4) == 10000);
            assert(s@.subrange(z as int, j + 1).drop_last() =~= s@.subrange(z as int, j as int));
            assert(s@.subrange(z as int, j + 1).last() == s@[j as int]);
        }
        acc = acc * 10 + (u - 0x30);
        j = j + 1;
    }
    proof {
        assert(s@.subrange(z as int, n as int) =~= s@.skip(z as int));
    }
    acc <= 65535
}

proof fn lemma_pow10_mono(a: int, b: int)
    requires
        a <= b,
    ensures
        pow10(a) <= pow10(b),
        pow10(a) >= 1,
    decreases b - a,
{
    if a < b {
        lemma_pow10_mono(a, b - 1);
    } else {
        lemma_pow10_pos(a);
    }
}

proof fn lemma_pow10_pos(a: int)
    ensures
        pow10(a) >= 1,
    decreases a,
{
    if a > 0 {
        lemma_pow10_pos(a - 1);
    }
}

/// The configured value, or its default.
pub open spec fn opt_or(o: Option<String>, d: Seq<char>) -> Seq<char> {
    match o {
        Some(s) => s@,
        None => d,
    }
}

impl Config {
    /// Builds the configuration from what the environment provided: host,
    /// port and data path fall back to defaults, the port must denote a
    /// 16-bit number, and the session secret is required and must be at
    /// least 64 characters long.
    pub fn from_parts(
        host: Option<String>,
        port: Option<String>,
        data_path: Option<String>,
        session_secret: Option<String>,
    ) -> (r: Result<Config, ConfigError>)
        ensures
            !is_u16_string(opt_or(port, "3000"@)) ==> (r matches Err(e)
                && e matches ConfigError::InvalidPort(p) && p@ == opt_or(port, "3000"@)),
            is_u16_string(opt_or(port, "3000"@)) && session_secret is None ==> (r matches Err(e)
                && e is MissingSessionSecret),
            is_u16_string(opt_or(port, "3000"@)) ==> (session_secret matches Some(s) ==> {
                &&& (s@.len() < MIN_SESSION_SECRET_LENGTH ==> (r matches Err(e)
                    && e matches ConfigError::InvalidSessionSecret(m) && m@
                    == "must be at least 64 characters long"@))
                &&& (s@.len() >= MIN_SESSION_SECRET_LENGTH ==> (r matches Ok(c) && c.host@
                    == opt_or(host, "0.0.0.0"@) && c.port@ == opt_or(port, "3000"@) && c.data_path@
                    == opt_or(data_path, "data"@) && c.session_secret@ == s@))
            }),
    {
        let host = match host {
            Some(h) => h,
            None => String::from_str("0.0.0.0"),
        };
        let port = match port {
            Some(p) => p,
            None => String::from_str("3000"),
        };
        let data_path = match data_path {
            Some(d) => d,
            None => String::from_str("data"),
        };
        if !is_valid_port(port.as_str()) {
            return Err(ConfigError::InvalidPort(port));
        }
        let secret = match session_secret {
            Some(s) => s,
            None => {
                return Err(ConfigError::MissingSessionSecret);
            },
        };
        if secret.as_str().unicode_len() < MIN_SESSION_SECRET_LENGTH {
            return Err(
                ConfigError::InvalidSessionSecret(
                    String::from_str("must be at least 64 characters long"),
                ),
            );
        }
        Ok(Config { host, port, data_path, session_secret: secret })
    }

    /// The `host:port` pair the server binds.
    pub fn bind_address(&self) -> (r: String)
        ensures
            r@ == self.host@ + ":"@ + self.port@,
    {
        let mut s = self.host.clone();
        s.append(":");
        s.append(self.port.as_str());
        s
    }
}

} // verus!
