//! The command line: which stage to show, whether to pretty-print, and the
//! input file, with the options of building and running.
use vstd::prelude::*;

use crate::diagnostics::{Error, ErrorKind, SpecError};
use crate::text::{copy_string, push_str, str_eq};

verus! {

/// Where the trace of a run goes.
#[derive(Debug)]
pub enum TraceTarget {
    Stdout,
    File(String),
}

/// What the driver does with the input.
#[derive(Debug)]
pub enum CommandKind {
    Tokens,
    Ast,
    Check,
    Resolve,
    ResolveJson,
    Lower,
    Ir,
    IrJson,
    PipelineJson,
    Llvm,
    Build { output: Option<String> },
    Run { output: Option<String>, trace: Option<TraceTarget> },
}

/// The parsed command line.
#[derive(Debug)]
pub struct CliArgs {
    pub input_path: String,
    pub pretty: bool,
    pub command: CommandKind,
}

pub enum TraceV {
    Stdout,
    File(Seq<char>),
}

pub enum CommandV {
    Tokens,
    Ast,
    Check,
    Resolve,
    ResolveJson,
    Lower,
    Ir,
    IrJson,
    PipelineJson,
    Llvm,
    Build { output: Option<Seq<char>> },
    Run { output: Option<Seq<char>>, trace: Option<TraceV> },
}

pub struct CliArgsV {
    pub input_path: Seq<char>,
    pub pretty: bool,
    pub command: CommandV,
}

pub open spec fn opt_text(o: Option<String>) -> Option<Seq<char>> {
    match o {
        Some(s) => Some(s@),
        None => None,
    }
}

pub open spec fn trace_v(t: TraceTarget) -> TraceV {
    match t {
        TraceTarget::Stdout => TraceV::Stdout,
        TraceTarget::File(p) => TraceV::File(p@),
    }
}

pub open spec fn command_v(c: CommandKind) -> CommandV {
    match c {
        CommandKind::Tokens => CommandV::Tokens,
        CommandKind::Ast => CommandV::Ast,
        CommandKind::Check => CommandV::Check,
        CommandKind::Resolve => CommandV::Resolve,
        CommandKind::ResolveJson => CommandV::ResolveJson,
        CommandKind::Lower => CommandV::Lower,
        CommandKind::Ir => CommandV::Ir,
        CommandKind::IrJson => CommandV::IrJson,
        CommandKind::PipelineJson => CommandV::PipelineJson,
        CommandKind::Llvm => CommandV::Llvm,
        CommandKind::Build { output } => CommandV::Build { output: opt_text(output) },
        CommandKind::Run { output, trace } => CommandV::Run {
            output: opt_text(output),
            trace: match trace {
                Some(t) => Some(trace_v(t)),
                None => None,
            },
        },
    }
}

pub open spec fn args_v(a: CliArgs) -> CliArgsV {
    CliArgsV { input_path: a.input_path@, pretty: a.pretty, command: command_v(a.command) }
}

/// The command a flag selects, for the flags that only select one.
pub open spec fn flag_command(a: Seq<char>) -> Option<CommandV> {
    if a == "--tokens"@ {
        Some(CommandV::Tokens)
    } else if a == "--ast"@ {
        Some(CommandV::Ast)
    } else if a == "--check"@ {
        Some(CommandV::Check)
    } else if a == "--resolve"@ {
        Some(CommandV::Resolve)
    } else if a == "--resolve-json"@ {
        Some(CommandV::ResolveJson)
    } else if a == "--lower"@ {
        Some(CommandV::Lower)
    } else if a == "--ir"@ {
        Some(CommandV::Ir)
    } else if a == "--ir-json"@ {
        Some(CommandV::IrJson)
    } else if a == "--pipeline-json"@ {
        Some(CommandV::PipelineJson)
    } else if a == "--llvm"@ || a == "--emit-llvm"@ {
        Some(CommandV::Llvm)
    } else if a == "--build"@ {
        Some(CommandV::Build { output: None })
    } else if a == "--run"@ {
        Some(CommandV::Run { output: None, trace: None })
    } else {
        None
    }
}

/// What the scan of the arguments has gathered.
pub struct ScanState {
    pub command: CommandV,
    pub pretty: bool,
    pub output: Option<Seq<char>>,
    pub trace: Option<TraceV>,
    pub input: Option<Seq<char>>,
}

/// The arguments from `i` on, read into `st`: flags in any order, the last
/// choice of a command winning; the first other argument is the input and
/// must be the last one.
pub open spec fn scan(args: Seq<Seq<char>>, i: int, st: ScanState) -> Result<ScanState, Seq<char>>
    decreases args.len() - i,
{
    if i < 0 || i >= args.len() {
        Ok(st)
    } else {
        let a = args[i];
        if a == "--pretty"@ {
            scan(args, i + 1, ScanState { pretty: true, ..st })
        } else if flag_command(a) is Some {
            scan(args, i + 1, ScanState { command: flag_command(a)->0, ..st })
        } else if a == "--trace-json"@ {
            if i + 1 < args.len() {
                let t = if args[i + 1] == "-"@ {
                    TraceV::Stdout
                } else {
                    TraceV::File(args[i + 1])
                };
                scan(args, i + 2, ScanState { trace: Some(t), ..st })
            } else {
                Err("expected output path after --trace-json"@)
            }
        } else if a == "--out"@ {
            if i + 1 < args.len() {
                scan(args, i + 2, ScanState { output: Some(args[i + 1]), ..st })
            } else {
                Err("expected output path after --out"@)
            }
        } else if i + 1 < args.len() {
            Err("unexpected extra argument '"@ + args[i + 1] + "'"@)
        } else {
            Ok(ScanState { input: Some(a), ..st })
        }
    }
}

/// The command line an argument list stands for, or the reason it is
/// refused.
pub open spec fn parse_args_spec(args: Seq<Seq<char>>) -> Result<CliArgsV, Seq<char>> {
    let start = ScanState { command: CommandV::Ast, pretty: false, output: None, trace: None, input: None };
    match scan(args, 0, start) {
        Err(m) => Err(m),
        Ok(st) => match st.input {
            None => Err("missing input file"@),
            Some(input) => if st.trace is Some && !(st.command is Run) {
                Err("--trace-json is only supported with --run"@)
            } else {
                let command = match st.command {
                    CommandV::Build { .. } => CommandV::Build { output: st.output },
                    CommandV::Run { .. } => CommandV::Run { output: st.output, trace: st.trace },
                    other => other,
                };
                Ok(CliArgsV { input_path: input, pretty: st.pretty, command })
            },
        },
    }
}

fn command_for(a: &str) -> (r: Option<CommandKind>)
    ensures
        match r {
            Some(c) => flag_command(a@) == Some(command_v(c)),
            None => flag_command(a@) is None,
        },
{
    if str_eq(a, "--tokens") {
        Some(CommandKind::Tokens)
    } else if str_eq(a, "--ast") {
        Some(CommandKind::Ast)
    } else if str_eq(a, "--check") {
        Some(CommandKind::Check)
    } else if str_eq(a, "--resolve") {
        Some(CommandKind::Resolve)
    } else if str_eq(a, "--resolve-json") {
        Some(CommandKind::ResolveJson)
    } else if str_eq(a, "--lower") {
        Some(CommandKind::Lower)
    } else if str_eq(a, "--ir") {
        Some(CommandKind::Ir)
    } else if str_eq(a, "--ir-json") {
        Some(CommandKind::IrJson)
    } else if str_eq(a, "--pipeline-json") {
        Some(CommandKind::PipelineJson)
    } else if str_eq(a, "--llvm") || str_eq(a, "--emit-llvm") {
        Some(CommandKind::Llvm)
    } else if str_eq(a, "--build") {
        Some(CommandKind::Build { output: None })
    } else if str_eq(a, "--run") {
        Some(CommandKind::Run { output: None, trace: None })
    } else {
        None
    }
}

fn refuse(message: &str) -> (e: Error)
    ensures
        e@ == (SpecError { kind: ErrorKind::Parse, span: None, message: message@ }),
{
    Error::parse(None, message)
}

/// Reads the arguments after the program name: a parse error names what is
/// wrong with them.
pub fn parse_args(args: &Vec<String>) -> (r: Result<CliArgs, Error>)
    ensures
        match r {
            Ok(a) => parse_args_spec(crate::text::views(args@)) == Ok::<CliArgsV, Seq<char>>(args_v(a)),
            Err(e) => e.kind == ErrorKind::Parse && e.span is None && parse_args_spec(crate::text::views(args@))
                == Err::<CliArgsV, Seq<char>>(e.message@),
        },
{
    let ghost av = crate::text::views(args@);
    let ghost start = ScanState { command: CommandV::Ast, pretty: false, output: None, trace: None, input: None };
    let mut command = CommandKind::Ast;
    let mut pretty = false;
    let mut output: Option<String> = None;
    let mut trace: Option<TraceTarget> = None;
    let mut input: Option<String> = None;
    let mut i: usize = 0;
    while i < args.len()
        invariant_except_break
            input is None,
            scan(av, 0, start) == scan(
                av,
                i as int,
                ScanState {
                    command: command_v(command),
                    pretty,
                    output: opt_text(output),
                    trace: match trace {
                        Some(t) => Some(trace_v(t)),
                        None => None,
                    },
                    input: None,
                },
            ),
        invariant
            i <= args.len(),
            av == crate::text::views(args@),
            start == (ScanState { command: CommandV::Ast, pretty: false, output: None, trace: None, input: None }),
        ensures
            scan(av, 0, start) == Ok::<ScanState, Seq<char>>(
                ScanState {
                    command: command_v(command),
                    pretty,
                    output: opt_text(output),
                    trace: match trace {
                        Some(t) => Some(trace_v(t)),
                        None => None,
                    },
                    input: opt_text(input),
                },
            ),
        decreases args.len() - i,
    {
        let a = args[i].as_str();
        assert(av[i as int] == a@);
        if str_eq(a, "--pretty") {
            pretty = true;
            i = i + 1;
        } else {
            match command_for(a) {
                Some(c) => {
                    command = c;
                    i = i + 1;
                },
                None => {
                    if str_eq(a, "--trace-json") {
                        if i + 1 < args.len() {
                            let target = args[i + 1].as_str();
                            assert(av[i + 1] == target@);
                            trace = Some(
                                if str_eq(target, "-") {
                                    TraceTarget::Stdout
                                } else {
                                    TraceTarget::File(copy_string(&args[i + 1]))
                                },
                            );
                            i = i + 2;
                        } else {
                            return Err(refuse("expected output path after --trace-json"));
                        }
                    } else if str_eq(a, "--out") {
                        if i + 1 < args.len() {
                            assert(av[i + 1] == args[i + 1]@);
                            output = Some(copy_string(&args[i + 1]));
                            i = i + 2;
                        } else {
                            return Err(refuse("expected output path after --out"));
                        }
                    } else if i + 1 < args.len() {
                        let mut m = String::new();
                        push_str(&mut m, "unexpected extra argument '");
                        push_str(&mut m, args[i + 1].as_str());
                        push_str(&mut m, "'");
                        assert(av[i + 1] == args[i + 1]@);
                        assert(m@ =~= "unexpected extra argument '"@ + av[i + 1] + "'"@);
                        return Err(Error::parse_owned(None, m));
                    } else {
                        input = Some(copy_string(&args[i]));
                        break;
                    }
                },
            }
        }
    }
    let input_path = match input {
        Some(p) => p,
        None => {
            return Err(refuse("missing input file"));
        },
    };
    let is_run = match &command {
        CommandKind::Run { .. } => true,
        _ => false,
    };
    if trace.is_some() && !is_run {
        return Err(refuse("--trace-json is only supported with --run"));
    }
    let command = match command {
        CommandKind::Build { .. } => CommandKind::Build { output },
        CommandKind::Run { .. } => CommandKind::Run { output, trace },
        other => other,
    };
    Ok(CliArgs { input_path, pretty, command })
}

} // verus!
