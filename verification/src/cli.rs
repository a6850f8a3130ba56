//! How the gateway is started: its options, the address that it listens on, its process file.

use vstd::prelude::*;
use vstd::string::*;

use crate::number::{
    all_digits, decimal, decimal_string, digit_char, digits_value, parse_u64, parsed_unsigned,
};
use crate::table::names;
use crate::text::{chars_of, str_eq};

verus! {

// ---------------------------------------------------------------------------------------
// Options
// ---------------------------------------------------------------------------------------

/// What the command line says.
pub struct Options {
    pub config: Option<String>,
    pub port: Option<u16>,
    pub pid_file: Option<String>,
    /// Whether help was asked for; what stands behind that is not read.
    pub help: bool,
}

/// The model of `Options`.
pub struct OptionsView {
    pub config: Option<Seq<char>>,
    pub port: Option<u16>,
    pub pid_file: Option<Seq<char>>,
    pub help: bool,
}

impl View for Options {
    type V = OptionsView;

    open spec fn view(&self) -> OptionsView {
        OptionsView {
            config: match self.config {
                Some(s) => Some(s@),
                None => None,
            },
            port: self.port,
            pid_file: match self.pid_file {
                Some(s) => Some(s@),
                None => None,
            },
            help: self.help,
        }
    }
}

/// No options.
pub open spec fn no_options() -> OptionsView {
    OptionsView { config: None, port: None, pid_file: None, help: false }
}

/// The argument at a position.
pub open spec fn arg_at(args: Seq<Seq<char>>, i: int) -> Option<Seq<char>> {
    if 0 <= i < args.len() {
        Some(args[i])
    } else {
        None
    }
}

/// The port that a text names.
pub open spec fn port_in(text: Seq<char>) -> Option<u16> {
    match parsed_unsigned(text, u16::MAX as nat) {
        Some(n) => Some(n as u16),
        None => None,
    }
}

/// The options in the arguments from a position on, added to those before it. An option takes
/// the argument behind it; a later one replaces an earlier one; a port that is none is passed
/// over.
pub open spec fn options_from(args: Seq<Seq<char>>, i: int, o: OptionsView) -> OptionsView
    decreases args.len() + 1 - i,
{
    if i >= args.len() {
        o
    } else {
        let next = arg_at(args, i + 1);
        if args[i] == "--config"@ || args[i] == "-c"@ {
            options_from(args, i + 2, OptionsView { config: next, ..o })
        } else if args[i] == "--port"@ || args[i] == "-p"@ {
            match next {
                Some(text) => match port_in(text) {
                    Some(p) => options_from(args, i + 2, OptionsView { port: Some(p), ..o }),
                    None => options_from(args, i + 2, o),
                },
                None => options_from(args, i + 2, o),
            }
        } else if args[i] == "--pid-file"@ {
            options_from(args, i + 2, OptionsView { pid_file: next, ..o })
        } else if args[i] == "--help"@ || args[i] == "-h"@ {
            OptionsView { help: true, ..o }
        } else {
            options_from(args, i + 1, o)
        }
    }
}

/// Reads a port.
pub fn parse_port(text: &str) -> (r: Option<u16>)
    ensures
        r == port_in(text@),
{
    match parse_u64(text) {
        Some(n) => if n <= 65535 {
            Some(n as u16)
        } else {
            None
        },
        None => None,
    }
}

fn copy_arg(args: &Vec<String>, i: usize) -> (r: Option<String>)
    ensures
        match r {
            Some(s) => arg_at(names(args@), i as int) == Some(s@),
            None => arg_at(names(args@), i as int) is None,
        },
{
    if i < args.len() {
        Some(args[i].clone())
    } else {
        None
    }
}

/// Reads the options of a command line; the first argument is the name of the program.
pub fn parse_options(args: &Vec<String>) -> (r: Options)
    ensures
        r@ == options_from(names(args@), 1, no_options()),
{
    let ghost v = names(args@);
    let ghost whole = options_from(v, 1, no_options());
    let mut o: Options = Options { config: None, port: None, pid_file: None, help: false };
    let mut i: usize = 1;
    while i < args.len()
        invariant
            v == names(args@),
            v.len() == args@.len(),
            1 <= i,
            i <= args@.len() + 1,
            whole == options_from(v, 1, no_options()),
            whole == options_from(v, i as int, o@),
        decreases args@.len() + 1 - i,
    {
        let arg: &str = args[i].as_str();
        assert(v[i as int] == arg@);
        if str_eq(arg, "--config") || str_eq(arg, "-c") {
            o.config = copy_arg(args, i + 1);
            i = i + 1;
        } else if str_eq(arg, "--port") || str_eq(arg, "-p") {
            match copy_arg(args, i + 1) {
                Some(text) => match parse_port(text.as_str()) {
                    Some(p) => {
                        o.port = Some(p);
                    },
                    None => {},
                },
                None => {},
            }
            i = i + 1;
        } else if str_eq(arg, "--pid-file") {
            o.pid_file = copy_arg(args, i + 1);
            i = i + 1;
        } else if str_eq(arg, "--help") || str_eq(arg, "-h") {
            o.help = true;
            return o;
        }
        assert(whole == options_from(v, i + 1, o@));
        if i >= args.len() {
            return o;
        }
        i = i + 1;
    }
    o
}

// ---------------------------------------------------------------------------------------
// The address
// ---------------------------------------------------------------------------------------

/// The position of the first colon from a position on; the end where there is none.
pub open spec fn colon_from(s: Seq<char>, i: int) -> int
    decreases s.len() - i,
{
    if i < 0 || i >= s.len() {
        s.len() as int
    } else if s[i] == ':' {
        i
    } else {
        colon_from(s, i + 1)
    }
}

/// The position of the last colon before a position; -1 where there is none.
pub open spec fn colon_before(s: Seq<char>, i: int) -> int
    decreases i,
{
    if i <= 0 || i > s.len() {
        -1
    } else if s[i - 1] == ':' {
        i - 1
    } else {
        colon_before(s, i - 1)
    }
}

/// An address with another port: what stands before the last colon stays; without a colon
/// every address of the machine is meant.
pub open spec fn with_port(listen: Seq<char>, port: u16) -> Seq<char> {
    let i = colon_before(listen, listen.len() as int);
    let host = if i < 0 {
        "0.0.0.0"@
    } else {
        listen.take(i)
    };
    host + ":"@ + decimal(port as nat)
}

/// Gives an address another port.
pub fn replace_listen_port(listen: &str, port: u16) -> (r: String)
    ensures
        r@ == with_port(listen@, port),
{
    let c: Vec<char> = chars_of(listen);
    let mut i: usize = c.len();
    while i > 0
        invariant
            c@ == listen@,
            i <= c@.len(),
            colon_before(listen@, listen@.len() as int) == colon_before(listen@, i as int),
        decreases i,
    {
        if c[i - 1] == ':' {
            let host: &str = listen.substring_char(0, i - 1);
            assert(host@ =~= listen@.take(i - 1));
            let mut s: String = host.to_owned();
            s.append(":");
            s.append(decimal_string(port as u64).as_str());
            return s;
        }
        i = i - 1;
    }
    let mut s: String = "0.0.0.0".to_owned();
    s.append(":");
    s.append(decimal_string(port as u64).as_str());
    s
}

/// A port that is not zero.
pub open spec fn real_port(port: Option<u16>) -> bool {
    port matches Some(p) && p != 0
}

/// The address to listen on: the configured one, with the port of the command line or, where
/// that names none, of the environment.
pub open spec fn chosen_listen(
    configured: Seq<char>,
    option: Option<u16>,
    environment: Option<u16>,
) -> Seq<char> {
    if real_port(option) {
        with_port(configured, option->Some_0)
    } else if real_port(environment) {
        with_port(configured, environment->Some_0)
    } else {
        configured
    }
}

/// Chooses the address to listen on. `environment` is the text that the environment holds for
/// the port.
pub fn choose_listen(configured: String, option: Option<u16>, environment: Option<&str>) -> (r:
    String)
    ensures
        r@ == chosen_listen(
            configured@,
            option,
            match environment {
                Some(text) => port_in(text@),
                None => None,
            },
        ),
{
    match option {
        Some(p) => if p != 0 {
            return replace_listen_port(configured.as_str(), p);
        },
        None => {},
    }
    let port: Option<u16> = match environment {
        Some(text) => parse_port(text),
        None => None,
    };
    match port {
        Some(p) => if p != 0 {
            return replace_listen_port(configured.as_str(), p);
        },
        None => {},
    }
    configured
}

/// The text between the first colon and the next one, or the end.
pub open spec fn second_part(s: Seq<char>) -> Option<Seq<char>> {
    let first = colon_from(s, 0);
    if first >= s.len() {
        None
    } else {
        Some(s.subrange(first + 1, colon_from(s, first + 1)))
    }
}

/// The port of an address: the number behind its first colon, else 8080.
pub open spec fn port_of(listen: Seq<char>) -> u16 {
    match second_part(listen) {
        Some(text) => match port_in(text) {
            Some(p) => p,
            None => 8080,
        },
        None => 8080,
    }
}

fn find_colon(c: &Vec<char>, from: usize) -> (r: usize)
    requires
        from <= c@.len(),
    ensures
        r == colon_from(c@, from as int),
        from <= r <= c@.len(),
{
    let mut i: usize = from;
    while i < c.len()
        invariant
            from <= i <= c@.len(),
            colon_from(c@, from as int) == colon_from(c@, i as int),
        decreases c@.len() - i,
    {
        if c[i] == ':' {
            return i;
        }
        i = i + 1;
    }
    i
}

/// Reads the port of an address.
pub fn listen_port(listen: &str) -> (r: u16)
    ensures
        r == port_of(listen@),
{
    let c: Vec<char> = chars_of(listen);
    let first: usize = find_colon(&c, 0);
    if first >= c.len() {
        return 8080;
    }
    let end: usize = find_colon(&c, first + 1);
    let part: &str = listen.substring_char(first + 1, end);
    match parse_port(part) {
        Some(p) => p,
        None => 8080,
    }
}

/// What the process file holds: the number of the process and the port.
pub fn pid_content(pid: u32, port: u16) -> (r: String)
    ensures
        r@ == decimal(pid as nat) + ":"@ + decimal(port as nat),
{
    let mut s: String = decimal_string(pid as u64);
    s.append(":");
    s.append(decimal_string(port as u64).as_str());
    s
}

// ---------------------------------------------------------------------------------------
// Laws
// ---------------------------------------------------------------------------------------

proof fn lemma_decimal(n: nat)
    ensures
        decimal(n).len() > 0,
        all_digits(decimal(n)),
        digits_value(decimal(n)) == n,
    decreases n,
{
    if n < 10 {
        let s = seq![digit_char(n)];
        assert(s.drop_last() =~= Seq::empty());
        assert(digits_value(s.drop_last()) == 0);
        assert(s.last() as int == 48 + n);
    } else {
        lemma_decimal(n / 10);
        let s = decimal(n);
        assert(s.drop_last() =~= decimal(n / 10));
        assert(s.last() as int == 48 + n % 10);
        assert forall|i: int| 0 <= i < s.len() implies '0' <= #[trigger] s[i] <= '9' by {
            if i < s.len() - 1 {
                assert(s[i] == decimal(n / 10)[i]);
            }
        }
    }
}

proof fn lemma_no_colon(s: Seq<char>, i: int, end: int)
    requires
        0 <= i <= end <= s.len(),
        forall|k: int| i <= k < end ==> s[k] != ':',
        end == s.len() || s[end] == ':',
    ensures
        colon_from(s, i) == end,
    decreases end - i,
{
    if i < end {
        lemma_no_colon(s, i + 1, end);
    }
}

proof fn lemma_last_colon(s: Seq<char>, i: int)
    requires
        0 <= i <= s.len(),
    ensures
        colon_before(s, i) < i,
        colon_before(s, i) >= 0 ==> s[colon_before(s, i)] == ':',
    decreases i,
{
    if i > 0 && s[i - 1] != ':' {
        lemma_last_colon(s, i - 1);
    }
}

/// A number in decimal notation is read back as itself.
pub proof fn law_decimal_reads_back(n: nat, max: nat)
    requires
        n <= max,
    ensures
        parsed_unsigned(decimal(n), max) == Some(n),
{
    lemma_decimal(n);
    assert('0' <= decimal(n)[0] <= '9');
}

/// The port that an address was given is read back, where the host has no colon of its own.
pub proof fn law_port_reads_back(listen: Seq<char>, port: u16)
    requires
        forall|k: int|
            0 <= k < colon_before(listen, listen.len() as int) ==> #[trigger] listen[k] != ':',
    ensures
        port_of(with_port(listen, port)) == port,
{
    reveal_strlit("0.0.0.0");
    reveal_strlit(":");
    let i = colon_before(listen, listen.len() as int);
    lemma_last_colon(listen, listen.len() as int);
    let host = if i < 0 {
        "0.0.0.0"@
    } else {
        listen.take(i)
    };
    let d = decimal(port as nat);
    let s = with_port(listen, port);
    lemma_decimal(port as nat);
    assert(s =~= host + ":"@ + d);
    let n = host.len() as int;
    assert forall|k: int| 0 <= k < n implies s[k] != ':' by {
        assert(s[k] == host[k]);
        if i >= 0 {
            assert(host[k] == listen[k]);
        }
    }
    assert(s[n] == ':');
    lemma_no_colon(s, 0, n);
    assert forall|k: int| n + 1 <= k < s.len() implies s[k] != ':' by {
        assert(s[k] == d[k - n - 1]);
        assert('0' <= d[k - n - 1] <= '9');
    }
    lemma_no_colon(s, n + 1, s.len() as int);
    assert(s.subrange(n + 1, s.len() as int) =~= d);
    law_decimal_reads_back(port as nat, u16::MAX as nat);
}

proof fn lemma_no_colon_behind(s: Seq<char>, n: int, i: int)
    requires
        0 <= n < i <= s.len(),
        s[n] == ':',
        forall|k: int| n < k < i ==> #[trigger] s[k] != ':',
    ensures
        colon_before(s, i) == n,
    decreases i,
{
    if n < i - 1 {
        assert(s[i - 1] != ':');
        lemma_no_colon_behind(s, n, i - 1);
    }
}

/// The port that an address was given last is the one that it has.
pub proof fn law_last_port_stays(listen: Seq<char>, first: u16, last: u16)
    ensures
        with_port(with_port(listen, first), last) == with_port(listen, last),
{
    reveal_strlit(":");
    let i = colon_before(listen, listen.len() as int);
    lemma_last_colon(listen, listen.len() as int);
    let host = if i < 0 {
        "0.0.0.0"@
    } else {
        listen.take(i)
    };
    let d = decimal(first as nat);
    lemma_decimal(first as nat);
    let s = with_port(listen, first);
    let n = host.len() as int;
    assert(s =~= host + ":"@ + d);
    assert(s[n] == ':');
    assert forall|k: int| n < k < s.len() implies #[trigger] s[k] != ':' by {
        assert(s[k] == d[k - n - 1]);
        assert('0' <= d[k - n - 1] <= '9');
    }
    lemma_no_colon_behind(s, n, s.len() as int);
    assert(s.take(n) =~= host);
}

/// A number in decimal notation is all digits, and starts with a zero only where it is zero.
pub proof fn law_decimal_has_no_leading_zero(n: nat)
    ensures
        decimal(n).len() > 0,
        forall|i: int| 0 <= i < decimal(n).len() ==> '0' <= #[trigger] decimal(n)[i] <= '9',
        n > 0 ==> decimal(n)[0] != '0',
        n < 10 ==> decimal(n).len() == 1,
    decreases n,
{
    lemma_decimal(n);
    if n >= 10 {
        law_decimal_has_no_leading_zero(n / 10);
    } else {
        assert(decimal(n)[0] as int == 48 + n);
    }
}

/// An address keeps what stands before its last colon and gets the port behind it; one without a
/// colon stands for every address of the machine.
pub proof fn law_port_is_put_behind_the_host(host: Seq<char>, rest: Seq<char>, port: u16)
    requires
        forall|k: int| 0 <= k < rest.len() ==> #[trigger] rest[k] != ':',
    ensures
        with_port(host + ":"@ + rest, port) == host + ":"@ + decimal(port as nat),
        with_port(rest, port) == "0.0.0.0:"@ + decimal(port as nat),
{
    reveal_strlit(":");
    reveal_strlit("0.0.0.0");
    reveal_strlit("0.0.0.0:");
    let s = host + ":"@ + rest;
    let n = host.len() as int;
    assert(s[n] == ':');
    assert forall|k: int| n < k < s.len() implies #[trigger] s[k] != ':' by {
        assert(s[k] == rest[k - n - 1]);
    }
    lemma_no_colon_behind(s, n, s.len() as int);
    assert(s.take(n) =~= host);
    lemma_last_colon(rest, rest.len() as int);
    assert("0.0.0.0"@ + ":"@ =~= "0.0.0.0:"@);
}

/// The port of the command line counts, unless it is zero; then that of the environment, unless
/// it is zero; else the configured address stays.
pub proof fn law_command_line_comes_first(configured: Seq<char>, port: u16, other: Option<u16>)
    requires
        port != 0,
    ensures
        chosen_listen(configured, Some(port), other) == with_port(configured, port),
        chosen_listen(configured, None, Some(port)) == with_port(configured, port),
        chosen_listen(configured, Some(0), Some(port)) == with_port(configured, port),
        chosen_listen(configured, None, None) == configured,
        chosen_listen(configured, Some(0), Some(0)) == configured,
        chosen_listen(configured, None, Some(0)) == configured,
        chosen_listen(configured, Some(0), None) == configured,
{
}

/// An address without a colon, or with anything but a port behind its first one, has the port
/// 8080.
pub proof fn law_port_defaults(host: Seq<char>, rest: Seq<char>)
    requires
        forall|k: int| 0 <= k < host.len() ==> #[trigger] host[k] != ':',
        forall|k: int| 0 <= k < rest.len() ==> #[trigger] rest[k] != ':',
    ensures
        port_of(host) == 8080,
        port_in(rest) is None ==> port_of(host + ":"@ + rest) == 8080,
        port_in(rest) matches Some(p) ==> port_of(host + ":"@ + rest) == p,
{
    reveal_strlit(":");
    lemma_no_colon(host, 0, host.len() as int);
    let s = host + ":"@ + rest;
    let n = host.len() as int;
    assert forall|k: int| 0 <= k < n implies s[k] != ':' by {
        assert(s[k] == host[k]);
    }
    assert(s[n] == ':');
    lemma_no_colon(s, 0, n);
    assert forall|k: int| n + 1 <= k < s.len() implies s[k] != ':' by {
        assert(s[k] == rest[k - n - 1]);
    }
    lemma_no_colon(s, n + 1, s.len() as int);
    assert(s.subrange(n + 1, s.len() as int) =~= rest);
}

/// Whether an argument is no option.
pub open spec fn no_option(arg: Seq<char>) -> bool {
    &&& arg != "--config"@
    &&& arg != "-c"@
    &&& arg != "--port"@
    &&& arg != "-p"@
    &&& arg != "--pid-file"@
    &&& arg != "--help"@
    &&& arg != "-h"@
}

proof fn lemma_passed_over(args: Seq<Seq<char>>, i: int, end: int, o: OptionsView)
    requires
        0 <= i <= end <= args.len(),
        forall|k: int| i <= k < end ==> no_option(#[trigger] args[k]),
    ensures
        options_from(args, i, o) == options_from(args, end, o),
    decreases end - i,
{
    if i < end {
        assert(no_option(args[i]));
        lemma_passed_over(args, i + 1, end, o);
    }
}

proof fn lemma_option_words()
    ensures
        "--config"@.len() == 8,
        "-c"@.len() == 2,
        "--port"@.len() == 6,
        "-p"@.len() == 2,
        "--pid-file"@.len() == 10,
        "--help"@.len() == 6,
        "-h"@.len() == 2,
        "-c"@ != "-p"@,
        "-c"@ != "-h"@,
        "-p"@ != "-h"@,
        "--port"@ != "--help"@,
{
    reveal_strlit("--config");
    reveal_strlit("-c");
    reveal_strlit("--port");
    reveal_strlit("-p");
    reveal_strlit("--pid-file");
    reveal_strlit("--help");
    reveal_strlit("-h");
    assert("-c"@[1] == 'c');
    assert("-p"@[1] == 'p');
    assert("-h"@[1] == 'h');
    assert("--port"@[2] == 'p');
    assert("--help"@[2] == 'h');
}

/// An option among arguments that are none sets what it names, to the argument behind it, and
/// nothing else; a port that is none sets nothing. Where help is asked for, it is given.
pub proof fn law_options_set_what_they_name(args: Seq<Seq<char>>, k: int)
    requires
        1 <= k < args.len() - 1,
        forall|i: int| 1 <= i < k ==> no_option(#[trigger] args[i]),
        forall|i: int| k + 2 <= i < args.len() ==> no_option(#[trigger] args[i]),
    ensures
        ({
            let o = options_from(args, 1, no_options());
            &&& args[k] == "--config"@ || args[k] == "-c"@ ==> o == (OptionsView {
                config: Some(args[k + 1]),
                port: None,
                pid_file: None,
                help: false,
            })
            &&& args[k] == "--port"@ || args[k] == "-p"@ ==> o == (OptionsView {
                config: None,
                port: port_in(args[k + 1]),
                pid_file: None,
                help: false,
            })
            &&& args[k] == "--pid-file"@ ==> o == (OptionsView {
                config: None,
                port: None,
                pid_file: Some(args[k + 1]),
                help: false,
            })
            &&& args[k] == "--help"@ || args[k] == "-h"@ ==> o == (OptionsView {
                config: None,
                port: None,
                pid_file: None,
                help: true,
            })
        }),
{
    lemma_option_words();
    let o = no_options();
    let n = args.len() as int;
    lemma_passed_over(args, 1, k, o);
    lemma_passed_over(args, k + 2, n, OptionsView { config: Some(args[k + 1]), ..o });
    lemma_passed_over(args, k + 2, n, OptionsView { port: port_in(args[k + 1]), ..o });
    lemma_passed_over(args, k + 2, n, OptionsView { pid_file: Some(args[k + 1]), ..o });
    lemma_passed_over(args, k + 2, n, o);
}

/// Arguments among which there is no option set nothing.
pub proof fn law_other_arguments_set_nothing(args: Seq<Seq<char>>)
    requires
        args.len() >= 1,
        forall|i: int| 1 <= i < args.len() ==> no_option(#[trigger] args[i]),
    ensures
        options_from(args, 1, no_options()) == no_options(),
{
    lemma_passed_over(args, 1, args.len() as int, no_options());
}

/// Of one option given twice the later one counts, whatever it was set to before; the other
/// options stay.
pub proof fn law_later_options_count(args: Seq<Seq<char>>, i: int, o: OptionsView)
    requires
        0 <= i,
        args.len() == i + 2,
    ensures
        args[i] == "--config"@ || args[i] == "-c"@ ==> options_from(args, i, o) == (OptionsView {
            config: Some(args[i + 1]),
            ..o
        }),
        args[i] == "--port"@ || args[i] == "-p"@ ==> options_from(args, i, o) == (OptionsView {
            port: match port_in(args[i + 1]) {
                Some(p) => Some(p),
                None => o.port,
            },
            ..o
        }),
        args[i] == "--pid-file"@ ==> options_from(args, i, o) == (OptionsView {
            pid_file: Some(args[i + 1]),
            ..o
        }),
        args[i] == "--help"@ || args[i] == "-h"@ ==> options_from(args, i, o) == (OptionsView {
            help: true,
            ..o
        }),
{
    lemma_option_words();
    reveal_with_fuel(options_from, 2);
}

} // verus!
