//! Works out how to call the compiler on a test the way Cargo would.
//!
//! Cargo is asked once for its build plan of the integration test that
//! invokes the runner. The compiler's command line in that plan, with the
//! path of the integration test replaced, compiles any test.

use vstd::prelude::*;
use build_plan::BuildPlan;
use crate::config::Config;
use crate::text::{same_text, strings_view};

verus! {

/// Makes `build_plan::BuildPlan` known to the verifier, as a type of which
/// nothing is seen.
#[verifier::external_type_specification]
#[verifier::external_body]
pub struct ExBuildPlan(build_plan::BuildPlan);

/// Makes `serde_json::Error` known to the verifier, as a type of which
/// nothing is seen.
#[verifier::external_type_specification]
#[verifier::external_body]
pub struct ExJsonError(serde_json::Error);

/// What kind of artifact an invocation creates.
#[derive(PartialEq, Eq, Structural, Clone, Copy, Debug)]
pub enum TargetKind {
    Lib,
    Bin,
    Test,
    Bench,
    ExampleLib,
    ExampleBin,
    CustomBuild,
}

/// A tool invocation of a build plan, as far as the runner reads it.
#[derive(Debug)]
pub struct Invocation {
    /// The kind of artifact this invocation creates.
    pub target_kind: TargetKind,
    /// The program to invoke.
    pub program: String,
    /// Arguments to pass to the program.
    pub args: Vec<String>,
}

/// The model of an `Invocation`.
pub struct InvocationView {
    pub target_kind: TargetKind,
    pub program: Seq<char>,
    pub args: Seq<Seq<char>>,
}

impl View for Invocation {
    type V = InvocationView;

    open spec fn view(&self) -> InvocationView {
        InvocationView {
            target_kind: self.target_kind,
            program: self.program@,
            args: strings_view(self.args@),
        }
    }
}

/// The models of a sequence of invocations.
pub open spec fn invocations_view(invocations: Seq<Invocation>) -> Seq<InvocationView> {
    invocations.map_values(|i: Invocation| i@)
}

/// The invocations of the build plan that `build_plan` decodes from what
/// Cargo wrote, or `None` where it decodes none.
pub uninterp spec fn plan_of(raw: Seq<u8>) -> Option<Seq<InvocationView>>;

/// The invocations that a build plan holds, in order.
pub uninterp spec fn invocations_of(plan: BuildPlan) -> Seq<InvocationView>;

/// Assumed without proof: wraps `BuildPlan::from_cargo_output` of the crate
/// `build_plan`, which decodes Cargo's output as JSON. The contract names
/// what is decoded and says no more of it.
#[verifier::external_body]
fn plan_from_cargo_output(raw: &[u8]) -> (r: Result<BuildPlan, serde_json::Error>)
    ensures
        match r {
            Ok(plan) => plan_of(raw@) == Some(invocations_of(plan)),
            Err(_) => plan_of(raw@) is None,
        },
{
    BuildPlan::from_cargo_output(raw)
}

/// Assumed without proof: gives the length of the field `invocations` of a
/// `BuildPlan`.
#[verifier::external_body]
fn invocation_count(plan: &BuildPlan) -> (n: usize)
    ensures
        n == invocations_of(*plan).len(),
{
    plan.invocations.len()
}

/// Assumed without proof: reads the invocation at index `i` of the field
/// `invocations` of a `BuildPlan` into the library's own type: the kind of
/// target without the library kinds that `Lib` and `ExampleLib` carry, the
/// program and the arguments.
#[verifier::external_body]
fn invocation_at(plan: &BuildPlan, i: usize) -> (invocation: Invocation)
    requires
        i < invocations_of(*plan).len(),
    ensures
        invocation@ == invocations_of(*plan)[i as int],
{
    let found = &plan.invocations[i];
    let target_kind = match found.target_kind {
        build_plan::TargetKind::Lib(_) => TargetKind::Lib,
        build_plan::TargetKind::Bin => TargetKind::Bin,
        build_plan::TargetKind::Test => TargetKind::Test,
        build_plan::TargetKind::Bench => TargetKind::Bench,
        build_plan::TargetKind::ExampleLib(_) => TargetKind::ExampleLib,
        build_plan::TargetKind::ExampleBin => TargetKind::ExampleBin,
        build_plan::TargetKind::CustomBuild => TargetKind::CustomBuild,
    };
    Invocation { target_kind, program: found.program.clone(), args: found.args.clone() }
}

/// The invocations among the first `n` that build a test.
pub open spec fn test_invocations(invocations: Seq<InvocationView>, n: nat) -> Seq<InvocationView>
    decreases n,
{
    if n == 0 {
        Seq::empty()
    } else {
        let before = test_invocations(invocations, (n - 1) as nat);
        if invocations[n - 1].target_kind == TargetKind::Test {
            before.push(invocations[n - 1])
        } else {
            before
        }
    }
}

/// The first `n` arguments without the flag `--test`.
pub open spec fn without_test_flag(args: Seq<Seq<char>>, n: nat) -> Seq<Seq<char>>
    decreases n,
{
    if n == 0 {
        Seq::empty()
    } else {
        let before = without_test_flag(args, (n - 1) as nat);
        if args[n - 1] == "--test"@ {
            before
        } else {
            before.push(args[n - 1])
        }
    }
}

/// The places among the first `n` arguments at which `wanted` stands.
pub open spec fn positions_of(args: Seq<Seq<char>>, wanted: Seq<char>, n: nat) -> Seq<nat>
    decreases n,
{
    if n == 0 {
        Seq::empty()
    } else {
        let before = positions_of(args, wanted, (n - 1) as nat);
        if args[n - 1] == wanted {
            before.push((n - 1) as nat)
        } else {
            before
        }
    }
}

/// The model of a `Blueprint`.
pub struct BlueprintView {
    pub program: Seq<char>,
    pub args: Seq<Seq<char>>,
    pub source_file_index: nat,
    pub out_dir: Option<Seq<char>>,
}

/// Why no blueprint could be made.
#[derive(Debug)]
pub enum BlueprintError {
    /// What Cargo wrote is no build plan.
    InvalidPlan(serde_json::Error),
    /// The plan does not hold exactly one invocation that builds a test.
    TestTargets { found: usize },
    /// No argument of the compiler is the path of the wrapper test.
    WrapperTestNotFound,
    /// More than one argument of the compiler is the path of the wrapper
    /// test; `positions` counts them from 0.
    WrapperTestAmbiguous { positions: Vec<usize> },
}

/// The model of a `BlueprintError`.
pub enum BlueprintErrorView {
    InvalidPlan,
    TestTargets { found: nat },
    WrapperTestNotFound,
    WrapperTestAmbiguous { positions: Seq<nat> },
}

impl View for BlueprintError {
    type V = BlueprintErrorView;

    open spec fn view(&self) -> BlueprintErrorView {
        match *self {
            BlueprintError::InvalidPlan(_) => BlueprintErrorView::InvalidPlan,
            BlueprintError::TestTargets { found } => BlueprintErrorView::TestTargets {
                found: found as nat,
            },
            BlueprintError::WrapperTestNotFound => BlueprintErrorView::WrapperTestNotFound,
            BlueprintError::WrapperTestAmbiguous { positions } => {
                BlueprintErrorView::WrapperTestAmbiguous {
                    positions: positions@.map_values(|p: usize| p as nat),
                }
            },
        }
    }
}

/// The blueprint that the invocations of a build plan give: the command line
/// of the one invocation that builds a test, without the flag `--test`, in
/// which exactly one argument is the path of the wrapper test.
pub open spec fn blueprint_of(invocations: Seq<InvocationView>, wrapper_test: Seq<char>) -> Result<
    BlueprintView,
    BlueprintErrorView,
> {
    let tests = test_invocations(invocations, invocations.len());
    if tests.len() != 1 {
        Err(BlueprintErrorView::TestTargets { found: tests.len() })
    } else {
        let args = without_test_flag(tests[0].args, tests[0].args.len());
        let positions = positions_of(args, wrapper_test, args.len());
        if positions.len() == 0 {
            Err(BlueprintErrorView::WrapperTestNotFound)
        } else if positions.len() > 1 {
            Err(BlueprintErrorView::WrapperTestAmbiguous { positions })
        } else {
            Ok(
                BlueprintView {
                    program: tests[0].program,
                    args,
                    source_file_index: positions[0],
                    out_dir: None,
                },
            )
        }
    }
}

/// The blueprint that Cargo's output gives.
pub open spec fn blueprint_of_plan(plan: Option<Seq<InvocationView>>, wrapper_test: Seq<char>) -> Result<
    BlueprintView,
    BlueprintErrorView,
> {
    match plan {
        None => Err(BlueprintErrorView::InvalidPlan),
        Some(invocations) => blueprint_of(invocations, wrapper_test),
    }
}

/// Command line blueprint for compiling tests like Cargo would.
#[derive(Debug)]
pub struct Blueprint {
    /// Compiler executable.
    program: String,
    /// Compiler arguments.
    args: Vec<String>,
    /// Index in `args` of the argument to replace with the source file to
    /// compile.
    source_file_index: usize,
    out_dir: Option<String>,
}

/// A program and the arguments to call it with.
#[derive(Debug, PartialEq, Eq)]
pub struct CommandLine {
    pub program: String,
    pub args: Vec<String>,
}

impl View for Blueprint {
    type V = BlueprintView;

    closed spec fn view(&self) -> BlueprintView {
        BlueprintView {
            program: self.program@,
            args: strings_view(self.args@),
            source_file_index: self.source_file_index as nat,
            out_dir: match self.out_dir {
                Some(dir) => Some(dir@),
                None => None,
            },
        }
    }
}

/// The model of what making a blueprint gives.
pub open spec fn blueprint_result_view(r: Result<Blueprint, BlueprintError>) -> Result<
    BlueprintView,
    BlueprintErrorView,
> {
    match r {
        Ok(blueprint) => Ok(blueprint@),
        Err(e) => Err(e@),
    }
}

/// Whether the argument after the first `n` is the value of `--out-dir`
/// that has not been dealt with yet.
pub open spec fn awaits_out_dir(blueprint: BlueprintView, n: nat) -> bool
    decreases n,
{
    if n == 0 {
        false
    } else {
        let before = awaits_out_dir(blueprint, (n - 1) as nat);
        if n - 1 == blueprint.source_file_index {
            before
        } else if before && blueprint.out_dir is Some {
            false
        } else {
            before || blueprint.args[n - 1] == "--out-dir"@
        }
    }
}

/// The argument at place `i` of the command line that compiles `source`: the
/// source in place of the wrapper test, the output directory, if one is set,
/// in place of the value of `--out-dir`, and the blueprint's own argument
/// everywhere else.
pub open spec fn command_arg(blueprint: BlueprintView, source: Seq<char>, i: int) -> Seq<char> {
    if i == blueprint.source_file_index {
        source
    } else if awaits_out_dir(blueprint, i as nat) && blueprint.out_dir is Some {
        blueprint.out_dir->Some_0
    } else {
        blueprint.args[i]
    }
}

/// The arguments that compile `source`.
pub open spec fn command_args(blueprint: BlueprintView, source: Seq<char>) -> Seq<Seq<char>> {
    Seq::new(blueprint.args.len(), |i: int| command_arg(blueprint, source, i))
}

fn clone_string(s: &String) -> (copy: String)
    ensures
        copy@ == s@,
{
    s.clone()
}

fn clone_strings(strings: &Vec<String>) -> (copy: Vec<String>)
    ensures
        strings_view(copy@) == strings_view(strings@),
{
    let mut copy: Vec<String> = Vec::new();
    let mut i: usize = 0;
    while i < strings.len()
        invariant
            i <= strings.len(),
            copy@.len() == i,
            forall|j: int| 0 <= j < i ==> (#[trigger] copy@[j])@ == strings@[j]@,
        decreases strings.len() - i,
    {
        copy.push(clone_string(&strings[i]));
        i += 1;
    }
    assert(strings_view(copy@) =~= strings_view(strings@));
    copy
}

impl Clone for Blueprint {
    fn clone(&self) -> (copy: Self)
        ensures
            copy@ == self@,
    {
        proof {
            use_type_invariant(self);
        }
        let args = clone_strings(&self.args);
        assert(strings_view(args@).len() == args@.len());
        assert(strings_view(self.args@).len() == self.args@.len());
        Blueprint {
            program: clone_string(&self.program),
            args,
            source_file_index: self.source_file_index,
            out_dir: match &self.out_dir {
                Some(dir) => Some(clone_string(dir)),
                None => None,
            },
        }
    }
}

impl Blueprint {
    #[verifier::type_invariant]
    spec fn inv(&self) -> bool {
        self.source_file_index < self.args@.len()
    }

    /// Makes the blueprint from the invocations of a build plan.
    pub fn from_invocations(invocations: &[Invocation], wrapper_test: &str) -> (r: Result<
        Blueprint,
        BlueprintError,
    >)
        ensures
            blueprint_result_view(r) == blueprint_of(
                invocations_view(invocations@),
                wrapper_test@,
            ),
    {
        let ghost all = invocations_view(invocations@);
        let mut found: usize = 0;
        let mut which: usize = 0;
        let mut i: usize = 0;
        while i < invocations.len()
            invariant
                i <= invocations.len(),
                all == invocations_view(invocations@),
                found == test_invocations(all, i as nat).len(),
                found <= i,
                found > 0 ==> which < i && test_invocations(all, i as nat).last() == all[which as int],
            decreases invocations.len() - i,
        {
            assert(all[i as int] == invocations@[i as int]@);
            if invocations[i].target_kind == TargetKind::Test {
                found += 1;
                which = i;
            }
            i += 1;
        }
        if found != 1 {
            return Err(BlueprintError::TestTargets { found });
        }
        let invocation = &invocations[which];
        assert(test_invocations(all, all.len())[0] == invocation@);
        let ghost given = strings_view(invocation.args@);
        let mut args: Vec<String> = Vec::new();
        let mut k: usize = 0;
        assert(strings_view(args@) =~= without_test_flag(given, 0));
        while k < invocation.args.len()
            invariant
                k <= invocation.args.len(),
                given == strings_view(invocation.args@),
                strings_view(args@) == without_test_flag(given, k as nat),
            decreases invocation.args.len() - k,
        {
            assert(given[k as int] == invocation.args@[k as int]@);
            let ghost before = strings_view(args@);
            if !same_text(invocation.args[k].as_str(), "--test") {
                let arg = clone_string(&invocation.args[k]);
                args.push(arg);
                assert(strings_view(args@) =~= before.push(arg@));
            }
            k += 1;
        }
        let ghost kept = strings_view(args@);
        let mut positions: Vec<usize> = Vec::new();
        let mut p: usize = 0;
        assert(positions@.map_values(|p: usize| p as nat) =~= positions_of(kept, wrapper_test@, 0));
        while p < args.len()
            invariant
                p <= args.len(),
                kept == strings_view(args@),
                positions@.map_values(|p: usize| p as nat) == positions_of(
                    kept,
                    wrapper_test@,
                    p as nat,
                ),
                forall|j: int| 0 <= j < positions@.len() ==> #[trigger] positions@[j] < p,
            decreases args.len() - p,
        {
            assert(kept[p as int] == args@[p as int]@);
            let ghost before = positions@.map_values(|p: usize| p as nat);
            if same_text(args[p].as_str(), wrapper_test) {
                positions.push(p);
                assert(positions@.map_values(|p: usize| p as nat) =~= before.push(p as nat));
            }
            p += 1;
        }
        if positions.len() == 0 {
            return Err(BlueprintError::WrapperTestNotFound);
        }
        if positions.len() > 1 {
            return Err(BlueprintError::WrapperTestAmbiguous { positions });
        }
        let source_file_index = positions[0];
        assert(positions@.map_values(|p: usize| p as nat)[0] == source_file_index as nat);
        Ok(
            Blueprint {
                program: clone_string(&invocation.program),
                args,
                source_file_index,
                out_dir: None,
            },
        )
    }

    /// Makes the blueprint from what Cargo wrote when it was asked for the
    /// build plan of the wrapper test.
    pub fn obtain(config: &Config, raw_plan: &[u8]) -> (r: Result<Blueprint, BlueprintError>)
        ensures
            blueprint_result_view(r) == blueprint_of_plan(plan_of(raw_plan@), config.wrapper_test@),
    {
        match plan_from_cargo_output(raw_plan) {
            Err(e) => Err(BlueprintError::InvalidPlan(e)),
            Ok(plan) => {
                let count = invocation_count(&plan);
                let mut invocations: Vec<Invocation> = Vec::new();
                let mut i: usize = 0;
                while i < count
                    invariant
                        i <= count,
                        count == invocations_of(plan).len(),
                        invocations@.len() == i,
                        forall|j: int|
                            0 <= j < i ==> (#[trigger] invocations@[j])@ == invocations_of(plan)[j],
                    decreases count - i,
                {
                    let invocation = invocation_at(&plan, i);
                    invocations.push(invocation);
                    i += 1;
                }
                assert(invocations_view(invocations@) =~= invocations_of(plan));
                Blueprint::from_invocations(invocations.as_slice(), config.wrapper_test)
            },
        }
    }

    /// Sets the directory that the compiler is to write to.
    pub fn set_out_dir(&mut self, out_dir: String)
        ensures
            final(self)@ == (BlueprintView { out_dir: Some(out_dir@), ..old(self)@ }),
    {
        proof {
            use_type_invariant(&*self);
        }
        self.out_dir = Some(out_dir);
    }

    /// Builds the command line that has the compiler compile the file
    /// `source`.
    pub fn build_command(&self, source: &str) -> (command: CommandLine)
        ensures
            command.program@ == self@.program,
            strings_view(command.args@) == command_args(self@, source@),
    {
        proof {
            use_type_invariant(self);
        }
        let mut args: Vec<String> = Vec::new();
        let mut out_dir = false;
        let mut i: usize = 0;
        while i < self.args.len()
            invariant
                i <= self.args.len(),
                out_dir == awaits_out_dir(self@, i as nat),
                args@.len() == i,
                forall|j: int|
                    0 <= j < i ==> (#[trigger] args@[j])@ == command_arg(self@, source@, j),
            decreases self.args.len() - i,
        {
            assert(strings_view(self.args@)[i as int] == self.args@[i as int]@);
            if i == self.source_file_index {
                args.push(source.to_owned());
            } else {
                match &self.out_dir {
                    Some(dir) if out_dir => {
                        out_dir = false;
                        args.push(clone_string(dir));
                    },
                    _ => {
                        if same_text(self.args[i].as_str(), "--out-dir") {
                            out_dir = true;
                        }
                        args.push(clone_string(&self.args[i]));
                    },
                }
            }
            i += 1;
        }
        assert(strings_view(args@) =~= command_args(self@, source@));
        CommandLine { program: clone_string(&self.program), args }
    }
}

} // verus!
