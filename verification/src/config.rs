//! The configuration a run starts from, and how it follows from the flags
//! given on the command line.

use vstd::prelude::*;
use vstd::string::StringExecFns;

verus! {

/// The port used when the command line names none, or names one that is not
/// a port number.
pub const DEFAULT_PORT: u16 = 8080;

/// The host used when the command line names none.
pub open spec fn default_host() -> Seq<char> {
    "127.0.0.1"@
}

/// What a run is started with. It is made once and only read afterwards.
#[derive(Debug, Clone, PartialEq, Eq)]
pub struct Config {
    pub host: String,
    pub port: u16,
    pub verbose: bool,
}

/// The mathematical content of a [`Config`].
pub struct ConfigView {
    pub host: Seq<char>,
    pub port: u16,
    pub verbose: bool,
}

impl View for Config {
    type V = ConfigView;

    open spec fn view(&self) -> ConfigView {
        ConfigView { host: self.host@, port: self.port, verbose: self.verbose }
    }
}

/// The configuration of a run whose command line carries no flag at all.
pub open spec fn default_config() -> ConfigView {
    ConfigView { host: default_host(), port: DEFAULT_PORT, verbose: false }
}

impl Default for Config {
    fn default() -> (config: Self)
        ensures
            config@ == default_config(),
    {
        Config { host: String::from_str("127.0.0.1"), port: DEFAULT_PORT, verbose: false }
    }
}

/// What the command line supplied: the text after `--host`, the text after
/// `--port`, and how many times `-v` occurred. A flag that was not given is
/// `None` (or zero occurrences).
#[derive(Debug, Clone, PartialEq, Eq)]
pub struct Flags {
    pub host: Option<String>,
    pub port: Option<String>,
    pub verbose: u64,
}

/// The mathematical content of [`Flags`].
pub struct FlagsView {
    pub host: Option<Seq<char>>,
    pub port: Option<Seq<char>>,
    pub verbose: u64,
}

impl View for Flags {
    type V = FlagsView;

    open spec fn view(&self) -> FlagsView {
        FlagsView {
            host: match self.host {
                Some(text) => Some(text@),
                None => None,
            },
            port: match self.port {
                Some(text) => Some(text@),
                None => None,
            },
            verbose: self.verbose,
        }
    }
}

/// Whether `c` is one of the ten decimal digits `0` to `9`.
pub open spec fn is_digit(c: char) -> bool {
    '0' <= c && c <= '9'
}

/// The number a decimal digit stands for.
pub open spec fn digit_value(c: char) -> nat {
    (c as int - '0' as int) as nat
}

/// The number that a sequence of decimal digits denotes, most significant
/// digit first; the empty sequence denotes zero.
pub open spec fn decimal(digits: Seq<char>) -> nat
    decreases digits.len(),
{
    if digits.len() == 0 {
        0
    } else {
        10 * decimal(digits.drop_last()) + digit_value(digits.last())
    }
}

/// The text without the single `+` it may begin with.
pub open spec fn unsigned_part(text: Seq<char>) -> Seq<char> {
    if text.len() > 0 && text[0] == '+' {
        text.skip(1)
    } else {
        text
    }
}

/// The port number that a text denotes, if it denotes one: an optional `+`,
/// then at least one decimal digit and nothing else, with a value of at most
/// 65535. Leading zeros are allowed; blanks, a `-`, or any other character
/// are not.
pub open spec fn port_of(text: Seq<char>) -> Option<u16> {
    let digits = unsigned_part(text);
    let only_digits = forall|i: int| 0 <= i < digits.len() ==> is_digit(#[trigger] digits[i]);
    if digits.len() > 0 && only_digits && decimal(digits) <= u16::MAX {
        Some(decimal(digits) as u16)
    } else {
        None
    }
}

/// The configuration that follows from the supplied flags: each field is the
/// flag's value where the flag was given, and the default where it was not
/// given or, for the port, where its text is not a port number. Any number of
/// `-v` greater than zero switches verbosity on.
pub open spec fn config_of(flags: FlagsView) -> ConfigView {
    ConfigView {
        host: match flags.host {
            Some(text) => text,
            None => default_host(),
        },
        port: match flags.port {
            Some(text) => match port_of(text) {
                Some(port) => port,
                None => DEFAULT_PORT,
            },
            None => DEFAULT_PORT,
        },
        verbose: flags.verbose > 0,
    }
}

/// Each field of the configuration is decided by its own flag alone: it is
/// the flag's value where the flag was given and, for the port, denotes a
/// port number, and the default otherwise. With no flag at all the
/// configuration is the default configuration.
pub proof fn lemma_flags_decide_the_config(flags: FlagsView)
    ensures
        flags.host matches Some(text) ==> config_of(flags).host == text,
        flags.host is None ==> config_of(flags).host == default_host(),
        flags.port matches Some(text) ==> (port_of(text) matches Some(port) ==> config_of(
            flags,
        ).port == port),
        flags.port matches Some(text) ==> (port_of(text) is None ==> config_of(flags).port
            == DEFAULT_PORT),
        flags.port is None ==> config_of(flags).port == DEFAULT_PORT,
        config_of(flags).verbose <==> flags.verbose > 0,
        flags.host is None && flags.port is None && flags.verbose == 0 ==> config_of(flags)
            == default_config(),
{
}

/// A longer run of digits never denotes a smaller number than its beginning.
pub proof fn lemma_decimal_grows(digits: Seq<char>, n: int)
    requires
        0 <= n <= digits.len(),
    ensures
        decimal(digits.take(n)) <= decimal(digits),
    decreases digits.len() - n,
{
    if n == digits.len() {
        assert(digits.take(n) =~= digits);
    } else {
        lemma_decimal_grows(digits, n + 1);
        assert(digits.take(n + 1).drop_last() =~= digits.take(n));
    }
}

/// Reads a port number from `text`.
pub fn parse_port(text: &str) -> (port: Option<u16>)
    ensures
        port == port_of(text@),
{
    let ghost digits = unsigned_part(text@);
    let ghost sign: int = text@.len() - digits.len();
    let mut value: u32 = 0;
    let mut any = false;
    let mut failed = false;
    let mut first = true;
    for c in it: text.chars()
        invariant
            it.seq() == text@,
            digits == unsigned_part(text@),
            sign == text@.len() - digits.len(),
            first <==> it.index() == 0,
            !first ==> it.index() >= sign,
            any <==> it.index() > sign,
            first ==> value == 0 && !failed,
            failed ==> port_of(text@) is None,
            !failed && !first ==> value == decimal(digits.take(it.index() - sign)),
            !failed && !first ==> value <= u16::MAX,
            !failed && !first ==> forall|i: int|
                0 <= i < it.index() - sign ==> is_digit(#[trigger] digits[i]),
    {
        let ghost k: int = it.index() as int;
        if first && c == '+' {
            first = false;
            assert(digits.take(0) =~= Seq::<char>::empty());
        } else {
            first = false;
            any = true;
            proof {
                assert(digits[k - sign] == c);
                assert(digits.take(k - sign + 1).drop_last() =~= digits.take(k - sign));
                assert(digits.take(0) =~= Seq::<char>::empty());
            }
            if !failed {
                if '0' <= c && c <= '9' {
                    let digit: u32 = c as u32 - '0' as u32;
                    let next: u32 = 10 * value + digit;
                    assert(next == decimal(digits.take(k - sign + 1)));
                    if next > 65535 {
                        proof {
                            lemma_decimal_grows(digits, k - sign + 1);
                        }
                        failed = true;
                    } else {
                        value = next;
                    }
                } else {
                    failed = true;
                }
            }
        }
    }
    proof {
        assert(digits.take(digits.len() as int) =~= digits);
    }
    if failed || !any {
        None
    } else {
        Some(value as u16)
    }
}

impl Config {
    /// Builds the configuration that follows from the supplied flags.
    pub fn from_flags(flags: Flags) -> (config: Config)
        ensures
            config@ == config_of(flags@),
    {
        let host = match flags.host {
            Some(text) => text,
            None => String::from_str("127.0.0.1"),
        };
        let port = match flags.port {
            Some(text) => match parse_port(text.as_str()) {
                Some(port) => port,
                None => DEFAULT_PORT,
            },
            None => DEFAULT_PORT,
        };
        Config { host, port, verbose: flags.verbose > 0 }
    }
}

} // verus!
