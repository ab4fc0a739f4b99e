//! The startup configuration: what the command line gave, checked and
//! completed with defaults.

use crate::membership::{decimal, decimal_text, digit_char, scheme, texts};
use crate::reconcile::{initial, Reconciler};
use vstd::prelude::*;
use vstd::string::*;

verus! {

/// Seconds between two resolutions where none is given.
pub const DEFAULT_FREQUENCY: u64 = 5;

/// The port of the nodes where none is given.
pub const DEFAULT_PORT: u32 = 4567;

/// Whether a character is white space, as Unicode defines it.
pub open spec fn is_space(c: char) -> bool {
    let n = c as u32;
    ||| 0x09 <= n <= 0x0d
    ||| n == 0x20
    ||| n == 0x85
    ||| n == 0xa0
    ||| n == 0x1680
    ||| 0x2000 <= n <= 0x200a
    ||| n == 0x2028
    ||| n == 0x2029
    ||| n == 0x202f
    ||| n == 0x205f
    ||| n == 0x3000
}

/// A text without the white space at its start.
pub open spec fn trim_start(s: Seq<char>) -> Seq<char>
    decreases s.len(),
{
    if s.len() > 0 && is_space(s[0]) {
        trim_start(s.skip(1))
    } else {
        s
    }
}

/// A text without the white space at its end.
pub open spec fn trim_end(s: Seq<char>) -> Seq<char>
    decreases s.len(),
{
    if s.len() > 0 && is_space(s.last()) {
        trim_end(s.drop_last())
    } else {
        s
    }
}

/// A text without the white space at either end.
pub open spec fn trimmed(s: Seq<char>) -> Seq<char> {
    trim_end(trim_start(s))
}

/// Whether a character is one of the ten digits.
pub open spec fn is_digit(c: char) -> bool {
    '0' <= c <= '9'
}

/// The number that a digit stands for.
pub open spec fn digit_value(c: char) -> nat {
    (c as u32 - '0' as u32) as nat
}

/// The number that a run of digits stands for, read in base ten.
pub open spec fn digits_value(s: Seq<char>) -> nat
    decreases s.len(),
{
    if s.len() == 0 {
        0
    } else {
        digits_value(s.drop_last()) * 10 + digit_value(s.last())
    }
}

/// Whether a text holds digits only.
pub open spec fn all_digits(s: Seq<char>) -> bool {
    forall|i: int| 0 <= i < s.len() ==> is_digit(#[trigger] s[i])
}

/// A text without the plus sign that may lead it.
pub open spec fn unsigned_part(s: Seq<char>) -> Seq<char> {
    if s.len() > 0 && s[0] == '+' {
        s.skip(1)
    } else {
        s
    }
}

/// The number that a text stands for: an optional plus sign, then one or
/// more digits, and a value of at most `max`. Anything else is no number.
pub open spec fn parsed_number(s: Seq<char>, max: nat) -> Option<nat> {
    let body = unsigned_part(s);
    if body.len() > 0 && all_digits(body) && digits_value(body) <= max {
        Some(digits_value(body))
    } else {
        None
    }
}

/// The positive number that a text stands for: what `parsed_number` gives,
/// unless that is zero, which is no positive number.
pub open spec fn positive_number(s: Seq<char>, max: nat) -> Option<nat> {
    match parsed_number(s, max) {
        Some(n) => if n >= 1 {
            Some(n)
        } else {
            None
        },
        None => None,
    }
}

/// The number for an argument that may be absent: the default where it is,
/// the positive number that the text stands for where it is not.
pub open spec fn positive_or(arg: Option<&str>, default: nat, max: nat) -> Option<nat> {
    match arg {
        Some(text) => positive_number(text@, max),
        None => Some(default),
    }
}

/// Why a configuration was refused.
#[derive(Clone, Copy, Debug, PartialEq, Eq, Structural)]
pub enum ConfigError {
    /// The frequency is no positive number that fits.
    Frequency,
    /// The port is no positive number that fits.
    Port,
}

impl ConfigError {
    /// The words for the operator.
    pub fn message(&self) -> (m: &'static str)
        ensures
            m@ == match *self {
                ConfigError::Frequency => "Frequency has to be a positive number"@,
                ConfigError::Port => "Port has to be a valid port number"@,
            },
    {
        match self {
            ConfigError::Frequency => "Frequency has to be a positive number",
            ConfigError::Port => "Port has to be a valid port number",
        }
    }
}

/// The startup configuration.
#[derive(Debug)]
pub struct Parameters {
    /// The domain to resolve, without surrounding white space.
    pub domain: String,
    /// Where the store is reached.
    pub connstr: String,
    /// Seconds between two resolutions, at least one.
    pub frequency: u64,
    /// The port of the nodes, at least one.
    pub port: u32,
    /// The addresses that never become members.
    pub ignore_ips: Vec<String>,
}

/// A prefix of a run of digits stands for no more than the whole run.
proof fn lemma_digits_value_grows(s: Seq<char>, k: int)
    requires
        0 <= k <= s.len(),
    ensures
        digits_value(s.take(k)) <= digits_value(s),
    decreases s.len(),
{
    if k == s.len() {
        assert(s.take(k) =~= s);
    } else {
        lemma_digits_value_grows(s.drop_last(), k);
        assert(s.drop_last().take(k) =~= s.take(k));
    }
}

/// Whether a character is white space.
pub fn is_space_char(c: char) -> (r: bool)
    ensures
        r == is_space(c),
{
    let n: u32 = c as u32;
    (0x09 <= n && n <= 0x0d) || n == 0x20 || n == 0x85 || n == 0xa0 || n == 0x1680 || (0x2000 <= n
        && n <= 0x200a) || n == 0x2028 || n == 0x2029 || n == 0x202f || n == 0x205f || n == 0x3000
}

/// The text without the white space at its ends.
pub fn trim_text(s: &str) -> (t: &str)
    ensures
        t@ == trimmed(s@),
{
    let n: usize = s.unicode_len();
    let mut a: usize = 0;
    let mut at_text = false;
    assert(s@.skip(0) =~= s@);
    while a < n && !at_text
        invariant
            a <= n,
            n == s@.len(),
            trim_start(s@) == trim_start(s@.skip(a as int)),
            at_text ==> a < n && !is_space(s@[a as int]),
        decreases n - a + if at_text { 0int } else { 1int },
    {
        if is_space_char(s.get_char(a)) {
            assert(s@.skip(a as int).skip(1) =~= s@.skip(a + 1));
            assert(s@.skip(a as int)[0] == s@[a as int]);
            a += 1;
        } else {
            at_text = true;
        }
    }
    assert(trim_start(s@) == s@.skip(a as int)) by {
        assert(s@.skip(a as int).len() == n - a);
        if a < n {
            assert(s@.skip(a as int)[0] == s@[a as int]);
        }
    }
    let mut b: usize = n;
    let mut at_end = false;
    assert(s@.subrange(a as int, n as int) =~= s@.skip(a as int));
    while b > a && !at_end
        invariant
            a <= b <= n,
            n == s@.len(),
            trimmed(s@) == trim_end(s@.subrange(a as int, b as int)),
            at_end ==> b > a && !is_space(s@[b - 1]),
        decreases b + if at_end { 0int } else { 1int },
    {
        if is_space_char(s.get_char(b - 1)) {
            assert(s@.subrange(a as int, b as int).drop_last() =~= s@.subrange(a as int, b - 1));
            assert(s@.subrange(a as int, b as int).last() == s@[b - 1]);
            b -= 1;
        } else {
            at_end = true;
        }
    }
    assert(trimmed(s@) == s@.subrange(a as int, b as int)) by {
        assert(s@.subrange(a as int, b as int).len() == b - a);
        if b > a {
            assert(s@.subrange(a as int, b as int).last() == s@[b - 1]);
        }
    }
    s.substring_char(a, b)
}

/// Reads a number of at most `max` from its decimal text.
pub fn parse_number(s: &str, max: u64) -> (r: Option<u64>)
    ensures
        match parsed_number(s@, max as nat) {
            Some(n) => r == Some(n as u64) && n <= max,
            None => r.is_none(),
        },
{
    let n: usize = s.unicode_len();
    let start: usize = if n > 0 && s.get_char(0) == '+' {
        1
    } else {
        0
    };
    let ghost body = unsigned_part(s@);
    assert(body =~= s@.subrange(start as int, n as int));
    if start == n {
        return None;
    }
    let mut acc: u64 = 0;
    let mut i: usize = start;
    assert(body.take(0) =~= Seq::<char>::empty());
    while i < n
        invariant
            start <= i <= n,
            n == s@.len(),
            body == s@.subrange(start as int, n as int),
            body == unsigned_part(s@),
            all_digits(body.take(i - start)),
            acc as nat == digits_value(body.take(i - start)),
            acc <= max,
        decreases n - i,
    {
        let c: char = s.get_char(i);
        assert(body[i - start] == c);
        if c < '0' || c > '9' {
            return None;
        }
        let d: u64 = (c as u32 - '0' as u32) as u64;
        proof {
            assert(body.take(i - start + 1).drop_last() =~= body.take(i - start));
            assert(body.take(i - start + 1).last() == c);
            assert(digits_value(body.take(i - start + 1)) == acc * 10 + d);
        }
        if d > max || acc > (max - d) / 10 {
            proof {
                if all_digits(body) {
                    lemma_digits_value_grows(body, i - start + 1);
                }
            }
            return None;
        }
        acc = acc * 10 + d;
        i += 1;
    }
    assert(body.take(n - start) =~= body);
    Some(acc)
}

/// Reads a positive number of at most `max` from its decimal text: zero is
/// refused as a text that is no number is.
pub fn parse_positive(s: &str, max: u64) -> (r: Option<u64>)
    ensures
        match positive_number(s@, max as nat) {
            Some(n) => r == Some(n as u64) && 1 <= n <= max,
            None => r.is_none(),
        },
{
    match parse_number(s, max) {
        Some(n) => if n >= 1 {
            Some(n)
        } else {
            None
        },
        None => None,
    }
}

impl Parameters {
    /// Checks what the command line gave and completes it: the domain
    /// loses the white space round it, an absent frequency is 5 and an
    /// absent port 4567, and no address is ignored yet. A frequency that
    /// is no positive number is refused first, then a port that is none;
    /// zero is refused like any other text that is no positive number.
    pub fn new(domain: &str, connstr: String, frequency: Option<&str>, port: Option<&str>) -> (r:
        Result<Parameters, ConfigError>)
        ensures
            match r {
                Ok(p) => {
                    &&& p.domain@ == trimmed(domain@)
                    &&& p.connstr@ == connstr@
                    &&& positive_or(frequency, DEFAULT_FREQUENCY as nat, u64::MAX as nat) == Some(
                        p.frequency as nat,
                    )
                    &&& positive_or(port, DEFAULT_PORT as nat, u32::MAX as nat) == Some(
                        p.port as nat,
                    )
                    &&& p.frequency >= 1
                    &&& p.port >= 1
                    &&& p.ignore_ips@.len() == 0
                },
                Err(ConfigError::Frequency) => positive_or(
                    frequency,
                    DEFAULT_FREQUENCY as nat,
                    u64::MAX as nat,
                ).is_none(),
                Err(ConfigError::Port) => {
                    &&& positive_or(frequency, DEFAULT_FREQUENCY as nat, u64::MAX as nat).is_some()
                    &&& positive_or(port, DEFAULT_PORT as nat, u32::MAX as nat).is_none()
                },
            },
    {
        let frequency_value: u64 = match frequency {
            Some(text) => match parse_positive(text, u64::MAX) {
                Some(n) => n,
                None => {
                    return Err(ConfigError::Frequency);
                },
            },
            None => DEFAULT_FREQUENCY,
        };
        let port_value: u32 = match port {
            Some(text) => match parse_positive(text, 0xffff_ffff) {
                Some(n) => n as u32,
                None => {
                    return Err(ConfigError::Port);
                },
            },
            None => DEFAULT_PORT,
        };
        Ok(
            Parameters {
                domain: String::from_str(trim_text(domain)),
                connstr,
                frequency: frequency_value,
                port: port_value,
                ignore_ips: Vec::new(),
            },
        )
    }

    /// Adds an address to the ones that never become members.
    pub fn ignore_ip(&mut self, ip: String)
        ensures
            final(self).ignore_ips@ == old(self).ignore_ips@.push(ip),
            final(self).domain == old(self).domain,
            final(self).connstr == old(self).connstr,
            final(self).frequency == old(self).frequency,
            final(self).port == old(self).port,
    {
        self.ignore_ips.push(ip);
    }

    /// The name that is resolved: the domain, a colon, the port.
    pub fn target(&self) -> (t: String)
        ensures
            t@ == self.domain@ + seq![':'] + decimal(self.port as nat),
    {
        let mut t = self.domain.clone();
        proof {
            reveal_strlit(":");
        }
        t.append(":");
        let port_text = decimal_text(self.port);
        t.append(port_text.as_str());
        assert(t@ =~= self.domain@ + seq![':'] + decimal(self.port as nat));
        t
    }

    /// The reconciliation loop for this configuration: the ignored
    /// addresses excluded, nothing applied yet.
    pub fn reconciler(&self) -> (r: Reconciler)
        ensures
            r@ == initial(texts(self.ignore_ips@).to_set(), self.port as nat),
            r@.applied == scheme(),
    {
        Reconciler::new(self.ignore_ips.clone(), self.port)
    }
}

/// A number in decimal is a run of digits that stands for that number.
pub proof fn lemma_decimal_digits(n: nat)
    ensures
        decimal(n).len() > 0,
        all_digits(decimal(n)),
        digits_value(decimal(n)) == n,
    decreases n,
{
    let d = digit_char(n % 10);
    assert(is_digit(d) && digit_value(d) == n % 10);
    if n < 10 {
        assert(decimal(n).drop_last() =~= Seq::<char>::empty());
        assert(digits_value(decimal(n).drop_last()) == 0);
    } else {
        lemma_decimal_digits(n / 10);
        assert(decimal(n).drop_last() =~= decimal(n / 10));
    }
}

/// What is written in decimal reads back as the same number: a port given
/// as the text of a number within the limit is taken as that number, and
/// as a positive number unless it is zero.
pub proof fn lemma_decimal_reads_back(n: nat, max: nat)
    requires
        n <= max,
    ensures
        parsed_number(decimal(n), max) == Some(n),
        n >= 1 ==> positive_number(decimal(n), max) == Some(n),
        n == 0 ==> positive_number(decimal(n), max).is_none(),
{
    lemma_decimal_digits(n);
    assert(is_digit(decimal(n)[0]));
}

} // verus!
