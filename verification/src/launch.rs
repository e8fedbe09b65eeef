//! Launch command construction.
//!
//! On the product's own platform the executable is spawned directly. For a
//! build of another platform the command is wrapped in a compatibility
//! runtime, optionally with a dedicated prefix directory; a caller-supplied
//! wrapper command may additionally be prepended. Spawning and waiting
//! happen outside the engine: it only decides the argument vector and the
//! prefix to set.

use vstd::prelude::*;

verus! {

/// How the executable is to be run.
#[derive(Clone, Debug)]
pub enum LaunchStrategy {
    /// The build matches this platform: spawn it directly.
    Native,
    /// Run through a compatibility runtime, optionally with a dedicated
    /// prefix directory.
    Compat { runtime: Vec<u8>, prefix: Option<Vec<u8>> },
}

/// The command to spawn: its argument vector, and the compatibility
/// prefix to put in the environment, if any.
#[derive(Clone, Debug)]
pub struct LaunchCommand {
    /// Program and arguments, in order.
    pub argv: Vec<Vec<u8>>,
    /// Compatibility prefix directory to set, if one was asked for.
    pub prefix: Option<Vec<u8>>,
}

/// The argument vector owed: the wrapper's words first, then the
/// compatibility runtime if one is used, then the executable, then its
/// arguments.
pub open spec fn launch_argv_spec(
    exe: Seq<u8>,
    args: Seq<Seq<u8>>,
    strategy: LaunchStrategy,
    wrapper: Option<Vec<Vec<u8>>>,
) -> Seq<Seq<u8>> {
    let wrap = match wrapper {
        Some(w) => w@.map_values(|v: Vec<u8>| v@),
        None => Seq::empty(),
    };
    let runtime = match strategy {
        LaunchStrategy::Native => Seq::empty(),
        LaunchStrategy::Compat { runtime, .. } => seq![runtime@],
    };
    wrap + runtime + seq![exe] + args
}

/// The prefix owed: the compatibility strategy's, if it names one.
pub open spec fn launch_prefix_spec(strategy: LaunchStrategy) -> Option<Seq<u8>> {
    match strategy {
        LaunchStrategy::Native => None,
        LaunchStrategy::Compat { prefix, .. } => match prefix {
            Some(p) => Some(p@),
            None => None,
        },
    }
}

/// Build the command that launches `exe` with `args` under the given
/// strategy, exactly as `launch_argv_spec` and `launch_prefix_spec`
/// describe.
#[verifier::loop_isolation(false)]
pub fn build_launch_command(
    exe: Vec<u8>,
    args: Vec<Vec<u8>>,
    strategy: LaunchStrategy,
    wrapper: Option<Vec<Vec<u8>>>,
) -> (r: LaunchCommand)
    ensures
        r.argv@.map_values(|v: Vec<u8>| v@) == launch_argv_spec(exe@, args@.map_values(|v: Vec<u8>| v@), strategy, wrapper),
        (match r.prefix {
            Some(p) => launch_prefix_spec(strategy) == Some(p@),
            None => launch_prefix_spec(strategy) is None,
        }),
{
    let ghost arg_models = args@.map_values(|v: Vec<u8>| v@);
    let mut argv: Vec<Vec<u8>> = Vec::new();
    let ghost wrap_models = (match &wrapper {
        Some(w) => w@.map_values(|v: Vec<u8>| v@),
        None => Seq::empty(),
    });
    match &wrapper {
        Some(w) => {
            let mut k: usize = 0;
            assert(argv@.map_values(|v: Vec<u8>| v@) =~= wrap_models.take(0));
            while k < w.len()
                invariant
                    k <= w.len(),
                    wrap_models == w@.map_values(|v: Vec<u8>| v@),
                    argv@.map_values(|v: Vec<u8>| v@) == wrap_models.take(k as int),
                decreases w.len() - k,
            {
                let ghost before = argv@.map_values(|v: Vec<u8>| v@);
                argv.push(w[k].clone());
                assert(argv@.map_values(|v: Vec<u8>| v@) =~= before.push(w@[k as int]@));
                assert(wrap_models.take(k as int + 1)
                    =~= wrap_models.take(k as int).push(wrap_models[k as int]));
                k += 1;
            }
            assert(wrap_models.take(w@.len() as int) =~= wrap_models);
        },
        None => {
            assert(argv@.map_values(|v: Vec<u8>| v@) =~= wrap_models);
        },
    }
    let prefix: Option<Vec<u8>> = match strategy {
        LaunchStrategy::Native => None,
        LaunchStrategy::Compat { runtime, prefix } => {
            let ghost before = argv@.map_values(|v: Vec<u8>| v@);
            let ghost rt = runtime@;
            argv.push(runtime);
            assert(argv@.map_values(|v: Vec<u8>| v@) =~= before.push(rt));
            prefix
        },
    };
    let ghost with_rt = argv@.map_values(|v: Vec<u8>| v@);
    argv.push(exe);
    assert(argv@.map_values(|v: Vec<u8>| v@) =~= with_rt.push(exe@));
    let mut k: usize = 0;
    let ghost with_exe = argv@.map_values(|v: Vec<u8>| v@);
    assert(with_exe + arg_models.take(0) =~= with_exe);
    while k < args.len()
        invariant
            k <= args.len(),
            argv@.map_values(|v: Vec<u8>| v@) == with_exe + arg_models.take(k as int),
        decreases args.len() - k,
    {
        let ghost before = argv@.map_values(|v: Vec<u8>| v@);
        argv.push(args[k].clone());
        assert(argv@.map_values(|v: Vec<u8>| v@) =~= before.push(args@[k as int]@));
        assert(with_exe + arg_models.take(k as int + 1)
            =~= (with_exe + arg_models.take(k as int)).push(arg_models[k as int]));
        k += 1;
    }
    assert(arg_models.take(args@.len() as int) =~= arg_models);
    assert(argv@.map_values(|v: Vec<u8>| v@)
        =~= launch_argv_spec(exe@, arg_models, strategy, wrapper));
    LaunchCommand { argv, prefix }
}

} // verus!
