//! The command line: pins the grid, the font and the renderer for one run.
use vstd::prelude::*;
use vstd::string::*;
use crate::text::{
    char_vec, digit_char, is_digit, lowered, parse_number, same_text, text_of, text_view,
    to_lowered, views, whole_number,
};

verus! {

broadcast use vstd::string::group_string_axioms;

/// What `--help` prints.
pub const USAGE: &'static str = "rt — Wayland-native terminal multiplexer\n\nUsage: rt [OPTIONS]\n\nOptions:\n  --cols N          pin the initial grid width (cells)\n  --rows N          pin the initial grid height (cells)\n  --font \"Family\"   override the configured font family\n  --font-size PX    override the configured font size (pixels)\n  --backend gl|xrender  override the auto-selected rendering backend\n  -V, --version     print version and exit\n  -h, --help        show this message\n\nEverything else is configured in Preferences / config.toml.";

/// What the command line overrides. What is unset falls back to the configuration.
#[derive(Debug, Clone, Default)]
pub struct Cli {
    pub cols: Option<usize>,
    pub rows: Option<usize>,
    pub font: Option<String>,
    /// The text of a number: a size in pixels.
    pub font_size: Option<String>,
    /// `gl` or `xrender`, in any case.
    pub backend: Option<String>,
}

/// Why the program does not start.
#[derive(Debug, Clone)]
pub enum Stop {
    /// The version was asked for.
    Version,
    /// The usage was asked for.
    Help,
    /// The command line is wrong, in these words.
    Error(String),
}

/// What the command line overrides, with the texts as sequences of characters.
#[verifier::ext_equal]
pub struct CliModel {
    pub cols: Option<nat>,
    pub rows: Option<nat>,
    pub font: Option<Seq<char>>,
    pub font_size: Option<Seq<char>>,
    pub backend: Option<Seq<char>>,
}

/// Why the program does not start, with the words as a sequence of characters.
pub enum StopModel {
    Version,
    Help,
    Error(Seq<char>),
}

/// The value of a size that may be missing.
pub open spec fn size_view(n: Option<usize>) -> Option<nat> {
    match n {
        Some(n) => Some(n as nat),
        None => None,
    }
}

impl View for Cli {
    type V = CliModel;

    open spec fn view(&self) -> CliModel {
        CliModel {
            cols: size_view(self.cols),
            rows: size_view(self.rows),
            font: text_view(self.font),
            font_size: text_view(self.font_size),
            backend: text_view(self.backend),
        }
    }
}

impl View for Stop {
    type V = StopModel;

    open spec fn view(&self) -> StopModel {
        match self {
            Stop::Version => StopModel::Version,
            Stop::Help => StopModel::Help,
            Stop::Error(words) => StopModel::Error(words@),
        }
    }
}

/// How many digits `s` begins with.
pub open spec fn leading_digits(s: Seq<char>) -> nat
    decreases s.len(),
{
    if s.len() > 0 && digit_char(s[0]) {
        1 + leading_digits(s.skip(1))
    } else {
        0
    }
}

/// `s` without the sign that it may begin with.
pub open spec fn unsigned(s: Seq<char>) -> Seq<char> {
    if s.len() > 0 && (s[0] == '+' || s[0] == '-') {
        s.skip(1)
    } else {
        s
    }
}

/// Whether `s` is a decimal exponent: `e`, a sign or none, and digits.
pub open spec fn is_exponent(s: Seq<char>) -> bool {
    &&& s.len() > 0
    &&& s[0] == 'e' || s[0] == 'E'
    &&& unsigned(s.skip(1)).len() > 0
    &&& leading_digits(unsigned(s.skip(1))) == unsigned(s.skip(1)).len()
}

/// Whether `s` spells a decimal fraction: digits, with or without a point among or
/// round them, and an exponent or none.
pub open spec fn is_decimal(s: Seq<char>) -> bool {
    let whole = leading_digits(s);
    let after = s.skip(whole as int);
    let point = after.len() > 0 && after[0] == '.';
    let fraction = if point {
        leading_digits(after.skip(1))
    } else {
        0
    };
    let rest = if point {
        after.skip(1 + fraction as int)
    } else {
        after
    };
    whole + fraction > 0 && (rest.len() == 0 || is_exponent(rest))
}

/// Whether `s` spells a number, as a floating-point number is written: a sign or none,
/// and a decimal fraction, an infinity or no number at all.
pub open spec fn is_number(s: Seq<char>) -> bool {
    let t = unsigned(s);
    is_decimal(t) || lowered(t) == "inf"@ || lowered(t) == "infinity"@ || lowered(t) == "nan"@
}

fn digits_from(v: &Vec<char>, from: usize) -> (r: usize)
    requires
        from <= v@.len(),
    ensures
        r == leading_digits(v@.skip(from as int)),
        from + r <= v@.len(),
{
    let mut n: usize = 0;
    assert(v@.skip(from as int).skip(0) =~= v@.skip(from as int));
    while n < v.len() - from && is_digit(v[from + n])
        invariant
            from + n <= v@.len(),
            leading_digits(v@.skip(from as int)) == n + leading_digits(v@.skip(from + n)),
        ensures
            leading_digits(v@.skip(from + n)) == 0,
        decreases v@.len() - from - n,
    {
        assert(v@.skip(from + n).skip(1) =~= v@.skip(from + n + 1));
        n = n + 1;
    }
    n
}

fn exponent_from(v: &Vec<char>, from: usize) -> (r: bool)
    requires
        from <= v@.len(),
    ensures
        r == is_exponent(v@.skip(from as int)),
{
    if from >= v.len() || (v[from] != 'e' && v[from] != 'E') {
        return false;
    }
    let mut at: usize = from + 1;
    let ghost rest = v@.skip(from as int).skip(1);
    assert(rest =~= v@.skip(from + 1));
    if at < v.len() && (v[at] == '+' || v[at] == '-') {
        at = at + 1;
    }
    assert(unsigned(rest) =~= v@.skip(at as int));
    let n: usize = digits_from(v, at);
    at < v.len() && n == v.len() - at
}

/// Whether `s` spells a number.
pub fn spells_number(s: &str) -> (r: bool)
    ensures
        r == is_number(s@),
{
    let v: Vec<char> = char_vec(s);
    let from: usize = if v.len() > 0 && (v[0] == '+' || v[0] == '-') {
        1
    } else {
        0
    };
    let ghost t = unsigned(s@);
    assert(t =~= v@.skip(from as int));
    let words: String = to_lowered(text_of(&v, from, v.len()).as_str());
    assert(v@.subrange(from as int, v@.len() as int) =~= t);
    if same_text(words.as_str(), "inf") || same_text(words.as_str(), "infinity") || same_text(
        words.as_str(),
        "nan",
    ) {
        return true;
    }
    let whole: usize = digits_from(&v, from);
    let after: usize = from + whole;
    assert(t.skip(whole as int) =~= v@.skip(after as int));
    if after < v.len() && v[after] == '.' {
        let ghost behind = v@.skip(after as int);
        assert(behind.skip(1) =~= v@.skip(after + 1));
        let fraction: usize = digits_from(&v, after + 1);
        let rest: usize = after + 1 + fraction;
        assert(behind.skip(1 + fraction as int) =~= v@.skip(rest as int));
        (whole > 0 || fraction > 0) && (rest == v.len() || exponent_from(&v, rest))
    } else {
        whole > 0 && (after == v.len() || exponent_from(&v, after))
    }
}

/// Where the first `=` of `s` stands.
pub open spec fn equals_at(s: Seq<char>) -> Option<int>
    decreases s.len(),
{
    if s.len() == 0 {
        None
    } else {
        match equals_at(s.drop_last()) {
            Some(i) => Some(i),
            None => if s.last() == '=' {
                Some(s.len() - 1)
            } else {
                None
            },
        }
    }
}

/// The name of the option that an argument gives: what stands before its `=`.
pub open spec fn option_name(arg: Seq<char>) -> Seq<char> {
    match equals_at(arg) {
        Some(i) => arg.take(i),
        None => arg,
    }
}

/// The value that an argument gives its option itself.
pub open spec fn inline_value(arg: Seq<char>) -> Option<Seq<char>> {
    match equals_at(arg) {
        Some(i) => Some(arg.skip(i + 1)),
        None => None,
    }
}

/// Whether an option takes a value.
pub open spec fn takes_value(name: Seq<char>) -> bool {
    name == "--cols"@ || name == "--rows"@ || name == "--font"@ || name == "--font-size"@ || name
        == "--backend"@
}

/// What is said of a value that an option cannot take.
pub open spec fn complaint(name: Seq<char>, expects: Seq<char>, value: Seq<char>) -> Seq<char> {
    "rt: "@ + name + expects + value + "'"@
}

/// The overrides with one option set, or what is wrong with its value.
pub open spec fn with_option(cli: CliModel, name: Seq<char>, value: Seq<char>) -> Result<
    CliModel,
    Seq<char>,
> {
    if name == "--cols"@ {
        match whole_number(value, usize::MAX as nat) {
            Some(n) => Ok(CliModel { cols: Some(n), ..cli }),
            None => Err(complaint(name, " expects a whole number, got '"@, value)),
        }
    } else if name == "--rows"@ {
        match whole_number(value, usize::MAX as nat) {
            Some(n) => Ok(CliModel { rows: Some(n), ..cli }),
            None => Err(complaint(name, " expects a whole number, got '"@, value)),
        }
    } else if name == "--font"@ {
        Ok(CliModel { font: Some(value), ..cli })
    } else if name == "--font-size"@ {
        if is_number(value) {
            Ok(CliModel { font_size: Some(value), ..cli })
        } else {
            Err(complaint(name, " expects a number, got '"@, value))
        }
    } else if lowered(value) == "gl"@ || lowered(value) == "xrender"@ {
        Ok(CliModel { backend: Some(value), ..cli })
    } else {
        Err(complaint(name, " must be 'gl' or 'xrender', got '"@, value))
    }
}

/// What a command line comes to, read from left to right: the first thing that stops it
/// does.
pub open spec fn cli_outcome(args: Seq<Seq<char>>, cli: CliModel) -> Result<CliModel, StopModel>
    decreases args.len(),
{
    if args.len() == 0 {
        Ok(cli)
    } else {
        let name = option_name(args[0]);
        let inline = inline_value(args[0]);
        if takes_value(name) {
            if inline is None && args.len() < 2 {
                Err(StopModel::Error("rt: "@ + name + " needs a value"@))
            } else {
                let value = match inline {
                    Some(v) => v,
                    None => args[1],
                };
                let rest = if inline is Some {
                    args.skip(1)
                } else {
                    args.skip(2)
                };
                match with_option(cli, name, value) {
                    Ok(next) => cli_outcome(rest, next),
                    Err(words) => Err(StopModel::Error(words)),
                }
            }
        } else if name == "-V"@ || name == "--version"@ {
            Err(StopModel::Version)
        } else if name == "-h"@ || name == "--help"@ {
            Err(StopModel::Help)
        } else {
            Err(StopModel::Error("rt: unknown option '"@ + name + "' (try --help)"@))
        }
    }
}

/// The overrides of an empty command line.
pub open spec fn no_overrides() -> CliModel {
    CliModel { cols: None, rows: None, font: None, font_size: None, backend: None }
}

proof fn lemma_equals_stays(s: Seq<char>, n: int)
    requires
        0 <= n <= s.len(),
        equals_at(s.take(n)) is Some,
    ensures
        equals_at(s) == equals_at(s.take(n)),
    decreases s.len() - n,
{
    if n < s.len() {
        assert(s.take(n + 1).drop_last() =~= s.take(n));
        lemma_equals_stays(s, n + 1);
    } else {
        assert(s.take(n) =~= s);
    }
}

fn split_option(arg: &str) -> (r: (String, Option<String>))
    ensures
        r.0@ == option_name(arg@),
        text_view(r.1) == inline_value(arg@),
{
    let v: Vec<char> = char_vec(arg);
    let mut i: usize = 0;
    while i < v.len()
        invariant
            i <= v@.len(),
            v@ == arg@,
            equals_at(v@.take(i as int)) is None,
        decreases v@.len() - i,
    {
        assert(v@.take(i + 1).drop_last() =~= v@.take(i as int));
        if v[i] == '=' {
            proof {
                lemma_equals_stays(v@, i + 1);
                assert(v@.subrange(0, i as int) =~= v@.take(i as int));
                assert(v@.subrange(i + 1, v@.len() as int) =~= v@.skip(i + 1));
            }
            return (text_of(&v, 0, i), Some(text_of(&v, i + 1, v.len())));
        }
        i = i + 1;
    }
    assert(v@.take(i as int) =~= v@);
    (arg.to_string(), None)
}

fn complain(name: &str, expects: &str, value: &str) -> (r: String)
    ensures
        r@ == complaint(name@, expects@, value@),
{
    let mut out: String = "rt: ".to_string();
    out.append(name);
    out.append(expects);
    out.append(value);
    out.append("'");
    out
}

fn set_option(cli: &mut Cli, name: &str, value: String) -> (r: Result<(), String>)
    requires
        takes_value(name@),
    ensures
        match r {
            Ok(_) => with_option(old(cli)@, name@, value@) == Ok::<CliModel, Seq<char>>(final(cli)@),
            Err(words) => with_option(old(cli)@, name@, value@) == Err::<CliModel, Seq<char>>(words@),
        },
{
    let cols: bool = same_text(name, "--cols");
    if cols || same_text(name, "--rows") {
        match parse_number(value.as_str(), usize::MAX as u64) {
            Some(n) => {
                if cols {
                    cli.cols = Some(n as usize);
                } else {
                    cli.rows = Some(n as usize);
                }
            },
            None => {
                return Err(complain(name, " expects a whole number, got '", value.as_str()));
            },
        }
    } else if same_text(name, "--font") {
        cli.font = Some(value);
    } else if same_text(name, "--font-size") {
        if !spells_number(value.as_str()) {
            return Err(complain(name, " expects a number, got '", value.as_str()));
        }
        cli.font_size = Some(value);
    } else {
        let known: String = to_lowered(value.as_str());
        if !same_text(known.as_str(), "gl") && !same_text(known.as_str(), "xrender") {
            return Err(complain(name, " must be 'gl' or 'xrender', got '", value.as_str()));
        }
        cli.backend = Some(value);
    }
    Ok(())
}

/// Read the command line, without the program's own name: `--flag value` and
/// `--flag=value` alike. The first thing that is wrong, and the first request for the
/// version or the usage, ends it.
pub fn parse_cli(args: &Vec<String>) -> (r: Result<Cli, Stop>)
    ensures
        match r {
            Ok(cli) => cli_outcome(views(args@), no_overrides()) == Ok::<CliModel, StopModel>(cli@),
            Err(stop) => cli_outcome(views(args@), no_overrides()) == Err::<CliModel, StopModel>(stop@),
        },
{
    let mut cli: Cli = Cli { cols: None, rows: None, font: None, font_size: None, backend: None };
    let ghost all = views(args@);
    let ghost whole = cli_outcome(all, no_overrides());
    let mut i: usize = 0;
    assert(all.skip(0) =~= all);
    while i < args.len()
        invariant
            i <= args@.len(),
            all == views(args@),
            whole == cli_outcome(all, no_overrides()),
            cli_outcome(all.skip(i as int), cli@) == whole,
        decreases args@.len() - i,
    {
        let ghost left = all.skip(i as int);
        assert(left[0] == args@[i as int]@);
        let (name, inline): (String, Option<String>) = split_option(args[i].as_str());
        let n: &str = name.as_str();
        if same_text(n, "--cols") || same_text(n, "--rows") || same_text(n, "--font") || same_text(
            n,
            "--font-size",
        ) || same_text(n, "--backend") {
            let (value, taken): (String, usize) = match inline {
                Some(v) => (v, 1),
                None => {
                    if args.len() - i < 2 {
                        let mut words: String = "rt: ".to_string();
                        words.append(n);
                        words.append(" needs a value");
                        return Err(Stop::Error(words));
                    }
                    assert(left[1] == args@[i + 1]@);
                    (args[i + 1].clone(), 2)
                },
            };
            match set_option(&mut cli, n, value) {
                Ok(_) => {},
                Err(words) => {
                    return Err(Stop::Error(words));
                },
            }
            assert(left.skip(taken as int) =~= all.skip(i + taken));
            i = i + taken;
        } else if same_text(n, "-V") || same_text(n, "--version") {
            return Err(Stop::Version);
        } else if same_text(n, "-h") || same_text(n, "--help") {
            return Err(Stop::Help);
        } else {
            let mut words: String = "rt: unknown option '".to_string();
            words.append(n);
            words.append("' (try --help)");
            return Err(Stop::Error(words));
        }
    }
    assert(all.skip(i as int) =~= Seq::empty());
    Ok(cli)
}

} // verus!
