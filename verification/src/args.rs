//! Command-line argument classification: decides whether an invocation asks
//! for help, for the download pass, for a path query, or for running a
//! configured command, and strips the verbosity and shim marker flags.

use vstd::prelude::*;

use crate::chars::{chars_eq, str_to_chars};

verus! {

/// A request to run the logical command `command_name` with `args`;
/// `from_shim` marks an invocation forwarded by the shim dispatcher.
#[derive(Debug, PartialEq, Eq)]
pub struct Invocation {
    pub command_name: String,
    pub verbose: bool,
    pub from_shim: bool,
    pub args: Vec<String>,
}

/// What the command line asks for.
#[derive(Debug, PartialEq, Eq)]
pub enum Args {
    Help,
    Download,
    Invocation(Invocation),
    GetBinaryPath { command_name: String },
    GetToolPath { tool_name: String },
}

/// Specification-level counterpart of `Invocation`.
pub struct InvocationView {
    pub command_name: Seq<char>,
    pub verbose: bool,
    pub from_shim: bool,
    pub args: Seq<Seq<char>>,
}

/// Specification-level counterpart of `Args`.
pub enum ArgsView {
    Help,
    Download,
    Invocation(InvocationView),
    GetBinaryPath(Seq<char>),
    GetToolPath(Seq<char>),
}

impl View for Invocation {
    type V = InvocationView;

    open spec fn view(&self) -> InvocationView {
        InvocationView {
            command_name: self.command_name@,
            verbose: self.verbose,
            from_shim: self.from_shim,
            args: self.args.deep_view(),
        }
    }
}

impl View for Args {
    type V = ArgsView;

    open spec fn view(&self) -> ArgsView {
        match self {
            Args::Help => ArgsView::Help,
            Args::Download => ArgsView::Download,
            Args::Invocation(inv) => ArgsView::Invocation(inv@),
            Args::GetBinaryPath { command_name } => ArgsView::GetBinaryPath(command_name@),
            Args::GetToolPath { tool_name } => ArgsView::GetToolPath(tool_name@),
        }
    }
}

/// Why a command line was rejected.
#[derive(Debug, PartialEq, Eq)]
pub enum ArgsError {
    /// A path query was not followed by its command argument.
    ExpectedCommand,
    /// A path query was not followed by its tool name argument.
    ExpectedToolName,
    /// A flag consumed the command line without leaving a command.
    NoCommand,
}

impl ArgsError {
    pub open spec fn message_view(&self) -> Seq<char> {
        match self {
            ArgsError::ExpectedCommand => "Expected a command, but none was found"@,
            ArgsError::ExpectedToolName => "Expected a tool name, but none was found"@,
            ArgsError::NoCommand => "tt: No command given"@,
        }
    }

    /// The user-facing description of this error.
    pub fn message(&self) -> (r: &'static str)
        ensures
            r@ == self.message_view(),
    {
        match self {
            ArgsError::ExpectedCommand => "Expected a command, but none was found",
            ArgsError::ExpectedToolName => "Expected a tool name, but none was found",
            ArgsError::NoCommand => "tt: No command given",
        }
    }
}

/// Strips leading `-v` and `--from-shim` flags: each consumes the next
/// argument as the new command word and sets its flag; an exhausted argument
/// list is an error.
pub open spec fn spec_strip_flags(
    command: Seq<char>,
    rest: Seq<Seq<char>>,
    verbose: bool,
    from_shim: bool,
) -> Result<InvocationView, ArgsError>
    decreases rest.len(),
{
    if command == "-v"@ {
        if rest.len() == 0 {
            Err(ArgsError::NoCommand)
        } else {
            spec_strip_flags(rest[0], rest.drop_first(), true, from_shim)
        }
    } else if command == "--from-shim"@ {
        if rest.len() == 0 {
            Err(ArgsError::NoCommand)
        } else {
            spec_strip_flags(rest[0], rest.drop_first(), verbose, true)
        }
    } else {
        Ok(
            InvocationView {
                command_name: command,
                verbose: verbose,
                from_shim: from_shim,
                args: rest,
            },
        )
    }
}

/// What `parse_args` decides for a given argument list: an empty list or
/// `--help` asks for help, `--download` for the install pass, the two path
/// queries take their argument, and anything else is a command invocation
/// after flag stripping.
pub open spec fn spec_parse_args(args: Seq<Seq<char>>, verbose_env: bool) -> Result<
    ArgsView,
    ArgsError,
> {
    if args.len() == 0 {
        Ok(ArgsView::Help)
    } else if args[0] == "--help"@ {
        Ok(ArgsView::Help)
    } else if args[0] == "--download"@ {
        Ok(ArgsView::Download)
    } else if args[0] == "--getBinaryPath"@ {
        if args.len() < 2 {
            Err(ArgsError::ExpectedCommand)
        } else {
            Ok(ArgsView::GetBinaryPath(args[1]))
        }
    } else if args[0] == "--getToolPath"@ {
        if args.len() < 2 {
            Err(ArgsError::ExpectedToolName)
        } else {
            Ok(ArgsView::GetToolPath(args[1]))
        }
    } else {
        match spec_strip_flags(args[0], args.drop_first(), verbose_env, false) {
            Ok(inv) => Ok(ArgsView::Invocation(inv)),
            Err(e) => Err(e),
        }
    }
}

fn str_eq(a: &str, b: &str) -> (r: bool)
    ensures
        r == (a@ == b@),
{
    let av = str_to_chars(a);
    let bv = str_to_chars(b);
    chars_eq(&av, &bv)
}

/// Clones `args[from..]`.
fn tail_of(args: &Vec<String>, from: usize) -> (r: Vec<String>)
    requires
        from <= args@.len(),
    ensures
        r.deep_view() == args.deep_view().skip(from as int),
{
    let mut r: Vec<String> = Vec::new();
    let mut i: usize = from;
    while i < args.len()
        invariant
            from <= i <= args@.len(),
            r@.len() == i - from,
            forall|k: int| 0 <= k < i - from ==> (#[trigger] r@[k])@ == args@[from + k]@,
        decreases args@.len() - i,
    {
        r.push(args[i].clone());
        i += 1;
    }
    proof {
        assert forall|k: int| 0 <= k < r.deep_view().len() implies r.deep_view()[k]
            == args.deep_view().skip(from as int)[k] by {
            assert(r@[k]@ == args@[from + k]@);
        }
        assert(r.deep_view() =~= args.deep_view().skip(from as int));
    }
    r
}

/// Classifies the command line (the program's own name already removed).
pub fn parse_args(args: Vec<String>, verbose_env: bool) -> (r: Result<Args, ArgsError>)
    ensures
        match r {
            Ok(a) => spec_parse_args(args.deep_view(), verbose_env) == Ok::<ArgsView, ArgsError>(
                a@,
            ),
            Err(e) => spec_parse_args(args.deep_view(), verbose_env) == Err::<ArgsView, ArgsError>(
                e,
            ),
        },
{
    if args.len() == 0 {
        return Ok(Args::Help);
    }
    if str_eq(args[0].as_str(), "--help") {
        return Ok(Args::Help);
    }
    if str_eq(args[0].as_str(), "--download") {
        return Ok(Args::Download);
    }
    if str_eq(args[0].as_str(), "--getBinaryPath") {
        if args.len() < 2 {
            return Err(ArgsError::ExpectedCommand);
        }
        return Ok(Args::GetBinaryPath { command_name: args[1].clone() });
    }
    if str_eq(args[0].as_str(), "--getToolPath") {
        if args.len() < 2 {
            return Err(ArgsError::ExpectedToolName);
        }
        return Ok(Args::GetToolPath { tool_name: args[1].clone() });
    }
    let mut verbose = verbose_env;
    let mut from_shim = false;
    let mut idx: usize = 0;
    let ghost dv = args.deep_view();
    proof {
        assert(dv.drop_first() =~= dv.skip(1));
    }
    loop
        invariant
            dv == args.deep_view(),
            idx < dv.len(),
            spec_parse_args(dv, verbose_env) == (match spec_strip_flags(
                dv[idx as int],
                dv.skip(idx + 1),
                verbose,
                from_shim,
            ) {
                Ok(inv) => Ok::<ArgsView, ArgsError>(ArgsView::Invocation(inv)),
                Err(e) => Err::<ArgsView, ArgsError>(e),
            }),
        decreases dv.len() - idx,
    {
        proof {
            assert(dv[idx as int] == args@[idx as int]@);
        }
        let is_v = str_eq(args[idx].as_str(), "-v");
        let is_shim = str_eq(args[idx].as_str(), "--from-shim");
        if is_v || is_shim {
            if idx + 1 == args.len() {
                proof {
                    assert(dv.skip(idx + 1) =~= Seq::<Seq<char>>::empty());
                }
                return Err(ArgsError::NoCommand);
            }
            proof {
                assert(dv.skip(idx + 1).drop_first() =~= dv.skip(idx + 2));
                assert(dv.skip(idx + 1)[0] == dv[idx + 1]);
            }
            if is_v {
                verbose = true;
            } else {
                from_shim = true;
            }
            idx += 1;
        } else {
            let command_name = args[idx].clone();
            let rest = tail_of(&args, idx + 1);
            let result = Args::Invocation(
                Invocation { command_name, verbose, from_shim, args: rest },
            );
            proof {
                assert(spec_strip_flags(dv[idx as int], dv.skip(idx + 1), verbose, from_shim)
                    == Ok::<InvocationView, ArgsError>(
                    InvocationView {
                        command_name: dv[idx as int],
                        verbose: verbose,
                        from_shim: from_shim,
                        args: dv.skip(idx + 1),
                    },
                ));
            }
            return Ok(result);
        }
    }
}

} // verus!
