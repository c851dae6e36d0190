//! The command-line surface: the three options are declared to and matched
//! by getopts; everything decided from the matches is verified here.
use vstd::prelude::*;
use vstd::string::StringExecFns;
use crate::count::CountError;
use crate::count::count_error_of;
use crate::count::dec_value;
use crate::count::digits_part;
use crate::count::is_valid_count;
use crate::count::parse_count;

verus! {

#[verifier::external_type_specification]
#[verifier::external_body]
pub struct ExOptions(getopts::Options);

#[verifier::external_type_specification]
#[verifier::external_body]
pub struct ExMatches(getopts::Matches);

#[verifier::external_type_specification]
#[verifier::external_body]
pub struct ExFail(getopts::Fail);

/// One declared option: its short name, its long name, and whether it
/// takes a value.
pub type OptionDecl = (Seq<char>, Seq<char>, bool);

/// The options an option set declares, in declaration order.
pub uninterp spec fn option_groups(o: getopts::Options) -> Seq<OptionDecl>;

/// An option set as the wrappers below build it: every declared option has
/// a one-byte short name and a long name of two or more bytes, and every
/// other knob stands at its default (free arguments float, a lone `-` is
/// free, `--` ends the options).
pub uninterp spec fn options_wf(o: getopts::Options) -> bool;

/// The option names a parse result answers for.
pub uninterp spec fn match_names(m: getopts::Matches) -> Set<Seq<char>>;

/// Whether a parse result matched the named option.
pub uninterp spec fn matches_present(m: getopts::Matches, name: Seq<char>) -> bool;

/// The value a parse result holds for the named option, if one was given.
pub uninterp spec fn matches_value(m: getopts::Matches, name: Seq<char>) -> Option<Seq<char>>;

/// The positional arguments a parse result holds, in order.
pub uninterp spec fn matches_free(m: getopts::Matches) -> Seq<Seq<char>>;

/// Whether getopts parses the argument list without error against a
/// default-configured option set with the given declarations.
pub uninterp spec fn parse_ok(groups: Seq<OptionDecl>, args: Seq<Seq<char>>) -> bool;

/// Whether a successful parse of the argument list matched the named
/// option.
pub uninterp spec fn parsed_present(
    groups: Seq<OptionDecl>,
    args: Seq<Seq<char>>,
    name: Seq<char>,
) -> bool;

/// The value a successful parse of the argument list gives the named
/// option.
pub uninterp spec fn parsed_value(
    groups: Seq<OptionDecl>,
    args: Seq<Seq<char>>,
    name: Seq<char>,
) -> Option<Seq<char>>;

/// The positional arguments a successful parse of the argument list
/// leaves free.
pub uninterp spec fn parsed_free(groups: Seq<OptionDecl>, args: Seq<Seq<char>>) -> Seq<Seq<char>>;

/// Every short and long name that a declaration list holds.
pub open spec fn group_names(groups: Seq<OptionDecl>) -> Set<Seq<char>> {
    Set::new(
        |n: Seq<char>|
            exists|i: int| 0 <= i < groups.len() && ((#[trigger] groups[i]).0 == n || groups[i].1
                == n),
    )
}

/// The views of a sequence of strings.
pub open spec fn arg_views(args: Seq<String>) -> Seq<Seq<char>> {
    args.map_values(|s: String| s@)
}

/// The view of an optional string.
pub open spec fn option_view(o: Option<String>) -> Option<Seq<char>> {
    match o {
        Some(s) => Some(s@),
        None => None,
    }
}

/// Relies on getopts::Options::new: a fresh option set with nothing
/// declared in it.
#[verifier::external_body]
fn options_new() -> (r: getopts::Options)
    ensures
        option_groups(r) == Seq::<OptionDecl>::empty(),
        options_wf(r),
{
    getopts::Options::new()
}

/// Relies on getopts::Options::optflag: declares an option that takes no
/// value, under the given short and long names. getopts checks the names'
/// byte lengths, so both must be ascii for the character lengths here to
/// keep it from panicking.
#[verifier::external_body]
fn declare_flag(o: &mut getopts::Options, short: &str, long: &str, desc: &str)
    requires
        options_wf(*old(o)),
        short@.len() == 1,
        long@.len() >= 2,
        vstd::string::is_ascii(short),
        vstd::string::is_ascii(long),
    ensures
        options_wf(*final(o)),
        option_groups(*final(o)) == option_groups(*old(o)).push((short@, long@, false)),
{
    o.optflag(short, long, desc);
}

/// Relies on getopts::Options::optopt: declares an option that takes one
/// value, under the given short and long names. The same byte-length check
/// as in `declare_flag` asks for ascii names.
#[verifier::external_body]
fn declare_opt(o: &mut getopts::Options, short: &str, long: &str, desc: &str, hint: &str)
    requires
        options_wf(*old(o)),
        short@.len() == 1,
        long@.len() >= 2,
        vstd::string::is_ascii(short),
        vstd::string::is_ascii(long),
    ensures
        options_wf(*final(o)),
        option_groups(*final(o)) == option_groups(*old(o)).push((short@, long@, true)),
{
    o.optopt(short, long, desc, hint);
}

/// Relies on getopts::Options::parse: matches the argument list against
/// the declared options. On a default-configured option set the outcome is
/// a function of the declarations and the arguments alone; a successful
/// result answers for exactly the declared names, and holds what the named
/// projections of that parse say.
#[verifier::external_body]
fn parse_options(o: &getopts::Options, args: &Vec<String>) -> (r: Result<
    getopts::Matches,
    getopts::Fail,
>)
    requires
        options_wf(*o),
    ensures
        r is Ok <==> parse_ok(option_groups(*o), arg_views(args@)),
        r matches Ok(m) ==> match_names(m) == group_names(option_groups(*o)),
        r matches Ok(m) ==> forall|n: Seq<char>|
            #[trigger] matches_present(m, n) == parsed_present(
                option_groups(*o),
                arg_views(args@),
                n,
            ),
        r matches Ok(m) ==> forall|n: Seq<char>|
            #[trigger] matches_value(m, n) == parsed_value(option_groups(*o), arg_views(args@), n),
        r matches Ok(m) ==> matches_free(m) == parsed_free(option_groups(*o), arg_views(args@)),
{
    o.parse(args)
}

/// Relies on getopts::Matches::opt_present, which panics only on a name
/// that was never declared.
#[verifier::external_body]
fn opt_present(m: &getopts::Matches, name: &str) -> (r: bool)
    requires
        match_names(*m).contains(name@),
    ensures
        r == matches_present(*m, name@),
{
    m.opt_present(name)
}

/// Relies on getopts::Matches::opt_str, which panics only on a name that
/// was never declared.
#[verifier::external_body]
fn opt_str(m: &getopts::Matches, name: &str) -> (r: Option<String>)
    requires
        match_names(*m).contains(name@),
    ensures
        option_view(r) == matches_value(*m, name@),
{
    m.opt_str(name)
}

/// Relies on the public `free` field of getopts::Matches: the positional
/// arguments that no option consumed.
#[verifier::external_body]
fn free_args(m: &getopts::Matches) -> (r: Vec<String>)
    ensures
        arg_views(r@) == matches_free(*m),
{
    m.free.clone()
}

/// Relies on the Display impl of getopts::Fail: a readable description of
/// the parse failure.
#[verifier::external_body]
fn fail_message(f: &getopts::Fail) -> (r: String) {
    f.to_string()
}

/// Relies on getopts::Options::usage: the usage text over the declared
/// options, which getopts formats with the given brief line first.
#[verifier::external_body]
fn usage_string(o: &getopts::Options, brief: &str) -> (r: String)
    requires
        options_wf(*o),
    ensures
        brief@.is_prefix_of(r@),
{
    o.usage(brief)
}

/// How many lines a run generates when no count is given.
pub const DEFAULT_COUNT: u64 = 10;

/// What one invocation asks the program to do once the defaults are
/// filled in.
#[derive(Debug, PartialEq, Eq)]
pub struct Config {
    /// The suffix appended to every generated label.
    pub tld: String,
    /// How many lines to generate.
    pub count: u64,
}

/// The outcome of reading a command line.
#[derive(Debug, PartialEq, Eq)]
pub enum Invocation {
    /// Help was asked for: print the usage text and stop, successfully.
    Help,
    /// A stray positional argument stood on the line: print the usage text
    /// and stop without generating anything.
    Stray,
    /// Malformed option syntax, with getopts's description of it: report
    /// it and stop without generating anything.
    Malformed(String),
    /// The count value did not parse: report it and stop without
    /// generating anything.
    BadCount(CountError),
    /// Generate `count` lines under `tld`.
    Run(Config),
}

/// The top-level domain once its default is filled in.
pub open spec fn tld_or_default(tld_arg: Option<String>) -> Seq<char> {
    match tld_arg {
        Some(t) => t@,
        None => "onion"@,
    }
}

/// The top-level domain a matched value (or its absence) asks for.
pub open spec fn tld_of(v: Option<Seq<char>>) -> Seq<char> {
    match v {
        Some(t) => t,
        None => "onion"@,
    }
}

/// The pure decision at the heart of the program: from the facts that
/// option matching produced, choose what to do. Help wins over everything;
/// a stray positional argument stops a run; otherwise the count and the
/// top-level domain take their defaults where no value was given.
pub fn decide(
    help: bool,
    free: &Vec<String>,
    count_arg: &Option<String>,
    tld_arg: &Option<String>,
) -> (r: Invocation)
    ensures
        help ==> r is Help,
        !help && free@.len() > 0 ==> r is Stray,
        !help && free@.len() == 0 ==> match *count_arg {
            None => r matches Invocation::Run(c) && c.count == DEFAULT_COUNT && c.tld@
                == tld_or_default(*tld_arg),
            Some(s) => if is_valid_count(s@) {
                r matches Invocation::Run(c) && c.count == dec_value(digits_part(s@)) && c.tld@
                    == tld_or_default(*tld_arg)
            } else {
                r matches Invocation::BadCount(e) && e == count_error_of(s@)
            },
        },
{
    if help {
        return Invocation::Help;
    }
    if free.len() > 0 {
        return Invocation::Stray;
    }
    let tld: String = match tld_arg {
        Some(t) => t.clone(),
        None => String::from_str("onion"),
    };
    match count_arg {
        None => Invocation::Run(Config { tld, count: DEFAULT_COUNT }),
        Some(s) => match parse_count(s.as_str()) {
            Ok(c) => Invocation::Run(Config { tld, count: c }),
            Err(e) => Invocation::BadCount(e),
        },
    }
}

/// The program's three options, as they are declared to getopts: the help
/// flag, then the tld option, then the count option.
pub open spec fn program_groups() -> Seq<OptionDecl> {
    seq![("h"@, "help"@, false), ("t"@, "tld"@, true), ("c"@, "count"@, true)]
}

/// Whether getopts parses this argument list for the program's options.
pub open spec fn cli_parse_ok(args: Seq<String>) -> bool {
    parse_ok(program_groups(), arg_views(args))
}

/// Whether the argument list asks for help.
pub open spec fn cli_help(args: Seq<String>) -> bool {
    parsed_present(program_groups(), arg_views(args), "h"@)
}

/// The stray positional arguments on the argument list.
pub open spec fn cli_free(args: Seq<String>) -> Seq<Seq<char>> {
    parsed_free(program_groups(), arg_views(args))
}

/// The count value the argument list gives, if any.
pub open spec fn cli_count(args: Seq<String>) -> Option<Seq<char>> {
    parsed_value(program_groups(), arg_views(args), "count"@)
}

/// The top-level domain the argument list gives, if any.
pub open spec fn cli_tld(args: Seq<String>) -> Option<Seq<char>> {
    parsed_value(program_groups(), arg_views(args), "tld"@)
}

/// Declares the program's three options: help, tld and count.
fn program_options() -> (r: getopts::Options)
    ensures
        options_wf(r),
        option_groups(r) == program_groups(),
{
    proof {
        reveal_strlit("h");
        reveal_strlit("help");
        reveal_strlit("t");
        reveal_strlit("tld");
        reveal_strlit("c");
        reveal_strlit("count");
    }
    let mut opts = options_new();
    declare_flag(&mut opts, "h", "help", "print this help menu");
    declare_opt(&mut opts, "t", "tld", "which toplevel domain name", "onion");
    declare_opt(&mut opts, "c", "count", "how many domains to generate", "10");
    proof {
        assert(option_groups(opts) =~= program_groups());
    }
    opts
}

/// Reads a command line (the arguments after the program name) into the
/// decision of what the program does: the malformed report exactly when
/// getopts rejects the line, and otherwise the decision that `decide`
/// takes on what the parse matched — help first, then stray positional
/// arguments, then the count and the tld with their defaults.
pub fn parse_invocation(args: &Vec<String>) -> (r: Invocation)
    ensures
        r is Malformed <==> !cli_parse_ok(args@),
        cli_parse_ok(args@) && cli_help(args@) ==> r is Help,
        cli_parse_ok(args@) && !cli_help(args@) && cli_free(args@).len() > 0 ==> r is Stray,
        cli_parse_ok(args@) && !cli_help(args@) && cli_free(args@).len() == 0 ==> match cli_count(
            args@,
        ) {
            None => r matches Invocation::Run(c) && c.count == DEFAULT_COUNT && c.tld@ == tld_of(
                cli_tld(args@),
            ),
            Some(s) => if is_valid_count(s) {
                r matches Invocation::Run(c) && c.count == dec_value(digits_part(s)) && c.tld@
                    == tld_of(cli_tld(args@))
            } else {
                r matches Invocation::BadCount(e) && e == count_error_of(s)
            },
        },
{
    let opts = program_options();
    match parse_options(&opts, args) {
        Err(f) => Invocation::Malformed(fail_message(&f)),
        Ok(m) => {
            proof {
                reveal_strlit("h");
                reveal_strlit("count");
                reveal_strlit("tld");
                assert(group_names(program_groups()).contains("h"@)) by {
                    assert(program_groups()[0].0 == "h"@);
                }
                assert(group_names(program_groups()).contains("count"@)) by {
                    assert(program_groups()[2].1 == "count"@);
                }
                assert(group_names(program_groups()).contains("tld"@)) by {
                    assert(program_groups()[1].1 == "tld"@);
                }
            }
            let help = opt_present(&m, "h");
            let free = free_args(&m);
            let count_arg = opt_str(&m, "count");
            let tld_arg = opt_str(&m, "tld");
            proof {
                assert(free@.len() == cli_free(args@).len());
            }
            decide(help, &free, &count_arg, &tld_arg)
        },
    }
}

/// The brief line the usage text begins with.
pub open spec fn usage_brief(program: Seq<char>) -> Seq<char> {
    "Usage: "@ + program + " [-t onion | -c 10 ]"@
}

/// The usage text: the brief line naming the program first, then
/// getopts's description of the three options.
pub fn usage_text(program: &str) -> (r: String)
    ensures
        usage_brief(program@).is_prefix_of(r@),
{
    let opts = program_options();
    let mut brief = String::from_str("Usage: ");
    brief.append(program);
    brief.append(" [-t onion | -c 10 ]");
    usage_string(&opts, brief.as_str())
}

} // verus!
