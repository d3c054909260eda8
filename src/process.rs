//! From a parsed script spec to a platform-specific process descriptor, and
//! the classification of how a process ended.

use vstd::prelude::*;
use vstd::string::StringExecFns;
use crate::script::{env_view, ScriptSpec, ScriptView};
use crate::text::{chars_of, string_of};

verus! {

/// How the target platform starts a process.
#[derive(Clone, Copy, PartialEq, Eq, Structural, Debug)]
pub enum Platform {
    /// The binary is executed directly with its argument vector.
    Posix,
    /// The command goes through `cmd /C` as one string; the executable is
    /// looked up before the working directory changes.
    Windows,
}

/// What to execute: working directory, program, arguments, environment
/// overlay.
pub struct ProcessDescriptor {
    pub workdir: String,
    pub program: String,
    pub args: Vec<String>,
    pub env: Vec<(String, String)>,
}

pub struct DescriptorView {
    pub workdir: Seq<char>,
    pub program: Seq<char>,
    pub args: Seq<Seq<char>>,
    pub env: Seq<(Seq<char>, Seq<char>)>,
}

impl View for ProcessDescriptor {
    type V = DescriptorView;

    open spec fn view(&self) -> DescriptorView {
        DescriptorView {
            workdir: self.workdir@,
            program: self.program@,
            args: self.args@.map_values(|w: String| w@),
            env: env_view(self.env@),
        }
    }
}

pub open spec fn verbatim_prefix() -> Seq<char> {
    seq!['\\', '\\', '?', '\\']
}

/// A canonical path without the `\\?\` prefix that Windows puts before it.
pub open spec fn strip_verbatim(p: Seq<char>) -> Seq<char> {
    if p.len() >= 4 && p.take(4) == verbatim_prefix() {
        p.skip(4)
    } else {
        p
    }
}

pub open spec fn is_separator(c: char) -> bool {
    c == '/' || c == '\\'
}

/// A relative path of more than one component: it holds a separator, does
/// not start with one, and has no drive letter.
pub open spec fn is_relative_multi(b: Seq<char>) -> bool {
    &&& exists|i: int| 0 <= i < b.len() && is_separator(#[trigger] b[i])
    &&& !is_separator(b[0])
    &&& !(b.len() >= 2 && b[1] == ':')
}

/// The binary that the platform should look up.
pub open spec fn resolved_binary(
    binary: Seq<char>,
    cd: Option<Seq<char>>,
    workdir: Seq<char>,
    platform: Platform,
) -> Seq<char> {
    if platform == Platform::Windows && cd is Some && is_relative_multi(binary) {
        workdir + seq!['\\'] + binary
    } else {
        binary
    }
}

/// A program and its arguments as one line: each argument after a space.
pub open spec fn command_line(program: Seq<char>, args: Seq<Seq<char>>) -> Seq<char>
    decreases args.len(),
{
    if args.len() == 0 {
        program
    } else {
        command_line(program, args.drop_last()) + seq![' '] + args.last()
    }
}

pub open spec fn cmd_program() -> Seq<char> {
    seq!['c', 'm', 'd']
}

pub open spec fn cmd_flag() -> Seq<char> {
    seq!['/', 'C']
}

/// The descriptor for a parsed spec, given the resolved working directory.
pub open spec fn described(spec: ScriptView, workdir: Seq<char>, platform: Platform) -> DescriptorView {
    let wd = if platform == Platform::Windows {
        strip_verbatim(workdir)
    } else {
        workdir
    };
    let bin = resolved_binary(spec.binary, spec.cd, wd, platform);
    if platform == Platform::Windows {
        DescriptorView {
            workdir: wd,
            program: cmd_program(),
            args: seq![cmd_flag(), command_line(bin, spec.args)],
            env: spec.env,
        }
    } else {
        DescriptorView { workdir: wd, program: bin, args: spec.args, env: spec.env }
    }
}

fn strip_verbatim_exec(p: String) -> (r: String)
    ensures
        r@ == strip_verbatim(p@),
{
    let cs = chars_of(p.as_str());
    if cs.len() >= 4 && cs[0] == '\\' && cs[1] == '\\' && cs[2] == '?' && cs[3] == '\\' {
        assert(cs@.take(4) =~= verbatim_prefix());
        let mut out: Vec<char> = Vec::new();
        let mut i: usize = 4;
        while i < cs.len()
            invariant
                4 <= i <= cs@.len(),
                out@ == cs@.subrange(4, i as int),
            decreases cs@.len() - i,
        {
            out.push(cs[i]);
            assert(cs@.subrange(4, i as int + 1) =~= cs@.subrange(4, i as int).push(cs@[i as int]));
            i = i + 1;
        }
        assert(cs@.subrange(4, i as int) =~= cs@.skip(4));
        string_of(&out)
    } else {
        assert(!(cs@.len() >= 4 && cs@.take(4) == verbatim_prefix())) by {
            if cs@.len() >= 4 && cs@.take(4) == verbatim_prefix() {
                assert(cs@.take(4)[0] == cs@[0]);
                assert(cs@.take(4)[1] == cs@[1]);
                assert(cs@.take(4)[2] == cs@[2]);
                assert(cs@.take(4)[3] == cs@[3]);
            }
        }
        p
    }
}

fn relative_multi(b: &Vec<char>) -> (r: bool)
    requires
        b@.len() > 0,
    ensures
        r == is_relative_multi(b@),
{
    if b[0] == '/' || b[0] == '\\' {
        return false;
    }
    if b.len() >= 2 && b[1] == ':' {
        return false;
    }
    let mut i: usize = 0;
    while i < b.len()
        invariant
            i <= b@.len(),
            forall|j: int| 0 <= j < i ==> !is_separator(#[trigger] b@[j]),
            !is_separator(b@[0]),
            !(b@.len() >= 2 && b@[1] == ':'),
        decreases b@.len() - i,
    {
        if b[i] == '/' || b[i] == '\\' {
            assert(is_separator(b@[i as int]));
            return true;
        }
        i = i + 1;
    }
    false
}

/// Builds the descriptor for a parsed spec. `workdir` is the working directory
/// already resolved (the canonical `cd` directory, or the current one). On
/// Windows the `\\?\` prefix is taken off it, a relative multi-component
/// binary is joined onto it when the spec changes directory, and the command
/// goes to `cmd /C` as one line; elsewhere the binary runs directly with the
/// parsed arguments. The environment bindings are kept as an overlay.
pub fn build_descriptor(spec: ScriptSpec, workdir: String, platform: Platform) -> (r: ProcessDescriptor)
    requires
        spec.wf(),
    ensures
        r@ == described(spec@, workdir@, platform),
{
    let ghost sv = spec@;
    let wd = match platform {
        Platform::Windows => strip_verbatim_exec(workdir),
        Platform::Posix => workdir,
    };
    let ScriptSpec { binary, args, env, cd } = spec;
    let bchars = chars_of(binary.as_str());
    let bin = match platform {
        Platform::Windows => {
            if cd.is_some() && relative_multi(&bchars) {
                let mut joined = wd.clone();
                proof {
                    reveal_strlit("\\");
                }
                joined.append("\\");
                joined.append(binary.as_str());
                assert(joined@ == wd@ + seq!['\\'] + binary@);
                joined
            } else {
                binary
            }
        },
        Platform::Posix => binary,
    };
    assert(wd@ == (if platform == Platform::Windows { strip_verbatim(workdir@) } else { workdir@ }));
    assert(bin@ == resolved_binary(sv.binary, sv.cd, wd@, platform));
    match platform {
        Platform::Windows => {
            let mut line = bin.clone();
            let mut i: usize = 0;
            while i < args.len()
                invariant
                    i <= args@.len(),
                    args@.map_values(|w: String| w@) == sv.args,
                    line@ == command_line(bin@, sv.args.take(i as int)),
                decreases args@.len() - i,
            {
                assert(sv.args.take(i as int + 1).drop_last() =~= sv.args.take(i as int));
                assert(sv.args.take(i as int + 1).last() == args@[i as int]@);
                proof {
                    reveal_strlit(" ");
                }
                line.append(" ");
                line.append(args[i].as_str());
                i = i + 1;
            }
            assert(sv.args.take(i as int) =~= sv.args);
            proof {
                reveal_strlit("cmd");
                reveal_strlit("/C");
            }
            let program = String::from_str("cmd");
            let flag = String::from_str("/C");
            assert(program@ =~= cmd_program());
            assert(flag@ =~= cmd_flag());
            assert(line@ == command_line(bin@, sv.args));
            let mut out_args: Vec<String> = Vec::new();
            out_args.push(flag);
            out_args.push(line);
            assert(out_args@.map_values(|w: String| w@) =~= seq![cmd_flag(), command_line(bin@, sv.args)]);
            ProcessDescriptor { workdir: wd, program, args: out_args, env }
        },
        Platform::Posix => ProcessDescriptor { workdir: wd, program: bin, args, env },
    }
}

/// How a finished process ended.
#[derive(Clone, Copy, PartialEq, Eq, Structural, Debug)]
pub enum ExecOutcome {
    /// Exit status zero.
    Success,
    /// A non-zero exit status.
    NonZeroExit(i32),
    /// Ended by a signal, with no exit status.
    Interrupted,
}

/// Classifies a process's exit: no exit code means it was interrupted, zero is
/// success, anything else a failure that carries the code.
pub fn classify_exit(code: Option<i32>) -> (r: ExecOutcome)
    ensures
        r == (match code {
            None => ExecOutcome::Interrupted,
            Some(0) => ExecOutcome::Success,
            Some(c) => ExecOutcome::NonZeroExit(c),
        }),
{
    match code {
        None => ExecOutcome::Interrupted,
        Some(0) => ExecOutcome::Success,
        Some(c) => ExecOutcome::NonZeroExit(c),
    }
}

} // verus!
