use vstd::prelude::*;

verus! {

/// The most worker threads the server can be given.
pub const MAX_WORKERS: usize = 512;

/// Where the service listens and how many worker threads it runs.
pub struct ServerConfig {
    pub host: String,
    pub port: u16,
    pub workers: usize,
}

/// Why the given settings make no configuration.
pub enum ConfigError {
    /// The port is not a decimal number below 65536.
    InvalidPort,
    /// The worker count is not a decimal number from 1 to `MAX_WORKERS`.
    InvalidWorkers,
}

pub open spec fn is_decimal_digit(c: char) -> bool {
    '0' <= c && c <= '9'
}

/// The value of a string of decimal digits.
pub open spec fn digits_value(s: Seq<char>) -> nat
    decreases s.len(),
{
    if s.len() == 0 {
        0
    } else {
        digits_value(s.drop_last()) * 10 + ((s.last() as u32 - '0' as u32) as nat)
    }
}

/// The digits of a text written as an unsigned number: all of it but a
/// leading `+`.
pub open spec fn unsigned_digits(s: Seq<char>) -> Seq<char> {
    if s.len() > 0 && s[0] == '+' {
        s.drop_first()
    } else {
        s
    }
}

/// `s` is an optional `+` and one or more decimal digits, nothing else, and
/// their value is at most `max`.
pub open spec fn reads_as_unsigned(s: Seq<char>, max: nat) -> bool {
    let d = unsigned_digits(s);
    &&& d.len() > 0
    &&& forall|i: int| 0 <= i < d.len() ==> is_decimal_digit(#[trigger] d[i])
    &&& digits_value(d) <= max
}

/// A string of digits is worth at least as much as any of its prefixes.
proof fn lemma_prefix_value_at_most(d: Seq<char>, k: int)
    requires
        0 <= k <= d.len(),
    ensures
        digits_value(d.take(k)) <= digits_value(d),
    decreases d.len(),
{
    if k == d.len() {
        assert(d.take(k) =~= d);
    } else {
        assert(d.drop_last().take(k) =~= d.take(k));
        lemma_prefix_value_at_most(d.drop_last(), k);
    }
}

/// Reads `s` as an unsigned decimal number of at most `max`, as std's
/// `str::parse` does for unsigned integers: an optional `+`, then digits
/// and nothing else.
fn parse_decimal(s: &str, max: usize) -> (r: Option<usize>)
    requires
        max >= 9,
    ensures
        r is Some <==> reads_as_unsigned(s@, max as nat),
        r is Some ==> r->Some_0 as nat == digits_value(unsigned_digits(s@)),
{
    let len = s.unicode_len();
    let mut start: usize = 0;
    if len > 0 && s.get_char(0) == '+' {
        start = 1;
    }
    let ghost d = unsigned_digits(s@);
    assert(d =~= s@.subrange(start as int, len as int));
    if start == len {
        return None;
    }
    let mut i: usize = start;
    let mut value: usize = 0;
    while i < len
        invariant
            start <= i <= len,
            len == s@.len(),
            d == s@.subrange(start as int, len as int),
            d == unsigned_digits(s@),
            forall|j: int| 0 <= j < i - start ==> is_decimal_digit(#[trigger] d[j]),
            value as nat == digits_value(d.take(i - start)),
            value <= max,
            max >= 9,
        decreases len - i,
    {
        let c = s.get_char(i);
        assert(c == d[i - start]);
        if c < '0' || c > '9' {
            assert(!is_decimal_digit(d[i - start]));
            return None;
        }
        let digit = (c as u32 - '0' as u32) as usize;
        assert(d.take(i + 1 - start).drop_last() =~= d.take(i - start));
        assert(d.take(i + 1 - start).last() == c);
        assert(digits_value(d.take(i + 1 - start)) == value * 10 + digit);
        if value > (max - digit) / 10 {
            proof {
                assert(value * 10 + digit > max) by (nonlinear_arith)
                    requires
                        value > (max - digit) / 10,
                        digit <= 9,
                        max >= 9,
                ;
                if forall|j: int| 0 <= j < d.len() ==> is_decimal_digit(#[trigger] d[j]) {
                    lemma_prefix_value_at_most(d, i + 1 - start);
                }
            }
            return None;
        }
        assert(value * 10 + digit <= max) by (nonlinear_arith)
            requires
                value <= (max - digit) / 10,
                digit <= 9,
                max >= 9,
        ;
        value = value * 10 + digit;
        i = i + 1;
    }
    assert(d.take(i - start) =~= d);
    Some(value)
}

/// Makes the configuration from the host, the port and the worker count as
/// given on the command line.
pub fn server_config(host: String, port: &str, workers: &str) -> (r: Result<
    ServerConfig,
    ConfigError,
>)
    ensures
        r matches Err(ConfigError::InvalidPort) <==> !reads_as_unsigned(port@, u16::MAX as nat),
        r matches Err(ConfigError::InvalidWorkers) <==> reads_as_unsigned(port@, u16::MAX as nat)
            && !(reads_as_unsigned(workers@, MAX_WORKERS as nat) && digits_value(
            unsigned_digits(workers@),
        ) >= 1),
        r matches Ok(c) ==> c.host@ == host@ && c.port as nat == digits_value(
            unsigned_digits(port@),
        ) && c.workers as nat == digits_value(unsigned_digits(workers@)),
{
    let port = match parse_decimal(port, 65535) {
        Some(p) => p as u16,
        None => {
            return Err(ConfigError::InvalidPort);
        },
    };
    match parse_decimal(workers, usize::MAX) {
        Some(w) => {
            if w == 0 || w > MAX_WORKERS {
                Err(ConfigError::InvalidWorkers)
            } else {
                Ok(ServerConfig { host, port, workers: w })
            }
        },
        None => {
            assert(!reads_as_unsigned(workers@, MAX_WORKERS as nat));
            Err(ConfigError::InvalidWorkers)
        },
    }
}

} // verus!
