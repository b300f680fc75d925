//! The command line: what the program is asked to do.
use vstd::prelude::*;
use vstd::string::*;

use crate::sound::{resolve_sound, resolved_sound, DEFAULT_SOUND, DEFAULT_VOLUME};

verus! {

/// What the command line asks for.
pub enum CliAction {
    /// Run as gpg-agent's scdaemon, passing on the arguments after the program name.
    Wrapper,
    /// Show the help text.
    Help,
    /// List the system sounds.
    ListSounds,
    /// Install the wrapper with this alert sound and volume.
    Setup { sound: String, volume: String },
    /// Remove the wrapper.
    Uninstall,
    /// An option that the program does not know.
    UnknownOption { option: String },
    /// Nothing to do: show the usage text.
    Usage,
}

/// What the command line asks for, as values.
pub enum CliChoice {
    Wrapper,
    Help,
    ListSounds,
    Setup { sound: Seq<char>, volume: Seq<char> },
    Uninstall,
    UnknownOption { option: Seq<char> },
    Usage,
}

impl View for CliAction {
    type V = CliChoice;

    open spec fn view(&self) -> CliChoice {
        match self {
            CliAction::Wrapper => CliChoice::Wrapper,
            CliAction::Help => CliChoice::Help,
            CliAction::ListSounds => CliChoice::ListSounds,
            CliAction::Setup { sound, volume } => CliChoice::Setup {
                sound: sound@,
                volume: volume@,
            },
            CliAction::Uninstall => CliChoice::Uninstall,
            CliAction::UnknownOption { option } => CliChoice::UnknownOption { option: option@ },
            CliAction::Usage => CliChoice::Usage,
        }
    }
}

/// The sound and volume that the options after `--setup`, from position `j`
/// on, give: `--sound NAME` and `--volume VALUE` set them, a flag without a
/// value is ignored, and anything else is skipped.
pub open spec fn setup_options(args: Seq<Seq<char>>, j: int, sound: Seq<char>, volume: Seq<char>) -> (
    Seq<char>,
    Seq<char>,
)
    decreases args.len() + 1 - j,
{
    if j < 0 || j >= args.len() {
        (sound, volume)
    } else if args[j] == "--sound"@ {
        if j + 1 < args.len() {
            setup_options(args, j + 2, resolved_sound(args[j + 1]), volume)
        } else {
            (sound, volume)
        }
    } else if args[j] == "--volume"@ {
        if j + 1 < args.len() {
            setup_options(args, j + 2, sound, args[j + 1])
        } else {
            (sound, volume)
        }
    } else {
        setup_options(args, j + 1, sound, volume)
    }
}

/// What the options from position `i` on ask for, with the sound and volume
/// set so far: the first command among them decides; `--sound` and
/// `--volume` before it set the sound and volume (a missing value gives the
/// `Funk` sound or the default volume); an unknown option stops the program.
pub open spec fn cli_choice(args: Seq<Seq<char>>, i: int, sound: Seq<char>, volume: Seq<char>) -> CliChoice
    decreases args.len() + 1 - i,
{
    if i < 0 || i >= args.len() {
        CliChoice::Usage
    } else {
        let a = args[i];
        if a == "--help"@ || a == "-h"@ {
            CliChoice::Help
        } else if a == "--list-sounds"@ {
            CliChoice::ListSounds
        } else if a == "--setup"@ {
            let opts = setup_options(args, i + 1, sound, volume);
            CliChoice::Setup { sound: opts.0, volume: opts.1 }
        } else if a == "--uninstall"@ {
            CliChoice::Uninstall
        } else if a == "--sound"@ {
            let s = if i + 1 < args.len() {
                resolved_sound(args[i + 1])
            } else {
                resolved_sound("Funk"@)
            };
            cli_choice(args, i + 2, s, volume)
        } else if a == "--volume"@ {
            let v = if i + 1 < args.len() {
                args[i + 1]
            } else {
                DEFAULT_VOLUME@
            };
            cli_choice(args, i + 2, sound, v)
        } else {
            CliChoice::UnknownOption { option: a }
        }
    }
}

/// What a command line (the program name first) asks for: gpg-agent starts
/// the wrapper with `--multi-server` among its arguments; otherwise the
/// options after the program name decide, starting from the default sound
/// and volume.
pub open spec fn cli_action_of(args: Seq<Seq<char>>) -> CliChoice {
    if exists|i: int| 0 <= i < args.len() && args[i] == "--multi-server"@ {
        CliChoice::Wrapper
    } else {
        cli_choice(args, 1, DEFAULT_SOUND@, DEFAULT_VOLUME@)
    }
}

/// The views of the arguments.
pub open spec fn arg_views(args: Seq<String>) -> Seq<Seq<char>> {
    args.map_values(|a: String| a@)
}

/// The sound and volume that the options after `--setup` give.
fn parse_setup_options(args: &Vec<String>, start: usize, sound0: String, volume0: String) -> (r: (
    String,
    String,
))
    ensures
        (r.0@, r.1@) == setup_options(arg_views(args@), start as int, sound0@, volume0@),
{
    let ghost av = arg_views(args@);
    let sound_flag = String::from_str("--sound");
    let volume_flag = String::from_str("--volume");
    let mut sound = sound0;
    let mut volume = volume0;
    let mut j = start;
    while j < args.len()
        invariant
            av == arg_views(args@),
            sound_flag@ == "--sound"@,
            volume_flag@ == "--volume"@,
            setup_options(av, start as int, sound0@, volume0@) == setup_options(
                av,
                j as int,
                sound@,
                volume@,
            ),
        decreases args.len() - j,
    {
        assert(av[j as int] == args@[j as int]@);
        if args[j] == sound_flag {
            if j + 1 < args.len() {
                assert(av[j + 1] == args@[j + 1]@);
                sound = resolve_sound(args[j + 1].as_str());
                j = j + 2;
            } else {
                return (sound, volume);
            }
        } else if args[j] == volume_flag {
            if j + 1 < args.len() {
                assert(av[j + 1] == args@[j + 1]@);
                volume = args[j + 1].clone();
                j = j + 2;
            } else {
                return (sound, volume);
            }
        } else {
            j = j + 1;
        }
    }
    (sound, volume)
}

/// Decide what the command line (the program name first) asks for.
pub fn parse_args(args: &Vec<String>) -> (r: CliAction)
    ensures
        r@ == cli_action_of(arg_views(args@)),
{
    let ghost av = arg_views(args@);
    let multi = String::from_str("--multi-server");
    let mut k: usize = 0;
    while k < args.len()
        invariant
            av == arg_views(args@),
            multi@ == "--multi-server"@,
            forall|i: int| 0 <= i < k ==> av[i] != "--multi-server"@,
        decreases args.len() - k,
    {
        assert(av[k as int] == args@[k as int]@);
        if args[k] == multi {
            return CliAction::Wrapper;
        }
        k = k + 1;
    }
    let help = String::from_str("--help");
    let short_help = String::from_str("-h");
    let list = String::from_str("--list-sounds");
    let setup = String::from_str("--setup");
    let uninstall = String::from_str("--uninstall");
    let sound_flag = String::from_str("--sound");
    let volume_flag = String::from_str("--volume");
    let mut sound = String::from_str(DEFAULT_SOUND);
    let mut volume = String::from_str(DEFAULT_VOLUME);
    let mut i: usize = 1;
    while i < args.len()
        invariant
            av == arg_views(args@),
            help@ == "--help"@,
            short_help@ == "-h"@,
            list@ == "--list-sounds"@,
            setup@ == "--setup"@,
            uninstall@ == "--uninstall"@,
            sound_flag@ == "--sound"@,
            volume_flag@ == "--volume"@,
            i >= 1,
            cli_action_of(av) == cli_choice(av, i as int, sound@, volume@),
        decreases args.len() - i,
    {
        assert(av[i as int] == args@[i as int]@);
        let a = &args[i];
        if *a == help || *a == short_help {
            return CliAction::Help;
        } else if *a == list {
            return CliAction::ListSounds;
        } else if *a == setup {
            let (s, v) = parse_setup_options(args, i + 1, sound, volume);
            return CliAction::Setup { sound: s, volume: v };
        } else if *a == uninstall {
            return CliAction::Uninstall;
        } else if *a == sound_flag {
            let ghost prev = sound@;
            if i + 1 < args.len() {
                assert(av[i + 1] == args@[i + 1]@);
                sound = resolve_sound(args[i + 1].as_str());
            } else {
                sound = resolve_sound("Funk");
            }
            assert(cli_choice(av, i as int, prev, volume@) == cli_choice(av, i + 2, sound@, volume@));
            if i + 1 >= args.len() {
                return CliAction::Usage;
            }
            i = i + 2;
        } else if *a == volume_flag {
            let ghost prev = volume@;
            if i + 1 < args.len() {
                assert(av[i + 1] == args@[i + 1]@);
                volume = args[i + 1].clone();
            } else {
                volume = String::from_str(DEFAULT_VOLUME);
            }
            assert(cli_choice(av, i as int, sound@, prev) == cli_choice(av, i + 2, sound@, volume@));
            if i + 1 >= args.len() {
                return CliAction::Usage;
            }
            i = i + 2;
        } else {
            return CliAction::UnknownOption { option: a.clone() };
        }
    }
    CliAction::Usage
}

/// The option flag of the `k`-th pair of arguments from position `b`.
pub open spec fn setup_flag(args: Seq<Seq<char>>, b: int, k: int) -> Seq<char> {
    args[b + 2 * k]
}

/// The value of the `k`-th pair of arguments from position `b`.
pub open spec fn setup_value(args: Seq<Seq<char>>, b: int, k: int) -> Seq<char> {
    args[b + 2 * k + 1]
}

/// The number of pairs of arguments from position `b` to the end.
pub open spec fn setup_pair_count(args: Seq<Seq<char>>, b: int) -> int {
    (args.len() - b) / 2
}

/// Arguments that, from position `b` to the end, are `--sound` and
/// `--volume` options, each with its value.
pub open spec fn setup_pairs(args: Seq<Seq<char>>, b: int) -> bool {
    &&& 0 <= b <= args.len()
    &&& (args.len() - b) % 2 == 0
    &&& forall|k: int|
        0 <= k < setup_pair_count(args, b) ==> #[trigger] setup_flag(args, b, k) == "--sound"@
            || setup_flag(args, b, k) == "--volume"@
}

proof fn lemma_setup_pairs_from(
    args: Seq<Seq<char>>,
    b: int,
    p: int,
    sound: Seq<char>,
    volume: Seq<char>,
)
    requires
        setup_pairs(args, b),
        0 <= p <= setup_pair_count(args, b),
        "--sound"@ != "--volume"@,
    ensures
        ({
            let r = setup_options(args, b + 2 * p, sound, volume);
            let n = setup_pair_count(args, b);
            &&& (forall|k: int| p <= k < n ==> #[trigger] setup_flag(args, b, k) != "--sound"@)
                ==> r.0 == sound
            &&& forall|k: int|
                p <= k < n && #[trigger] setup_flag(args, b, k) == "--sound"@ && (forall|m: int|
                    k < m < n ==> #[trigger] setup_flag(args, b, m) != "--sound"@) ==> r.0
                    == resolved_sound(setup_value(args, b, k))
            &&& (forall|k: int| p <= k < n ==> #[trigger] setup_flag(args, b, k) != "--volume"@)
                ==> r.1 == volume
            &&& forall|k: int|
                p <= k < n && #[trigger] setup_flag(args, b, k) == "--volume"@ && (forall|m: int|
                    k < m < n ==> #[trigger] setup_flag(args, b, m) != "--volume"@) ==> r.1
                    == setup_value(args, b, k)
        }),
    decreases setup_pair_count(args, b) - p,
{
    let n = setup_pair_count(args, b);
    if p < n {
        let f = setup_flag(args, b, p);
        if f == "--sound"@ {
            let s2 = resolved_sound(setup_value(args, b, p));
            lemma_setup_pairs_from(args, b, p + 1, s2, volume);
            assert(setup_options(args, b + 2 * p, sound, volume) == setup_options(
                args,
                b + 2 * (p + 1),
                s2,
                volume,
            ));
        } else {
            lemma_setup_pairs_from(args, b, p + 1, sound, setup_value(args, b, p));
            assert(setup_options(args, b + 2 * p, sound, volume) == setup_options(
                args,
                b + 2 * (p + 1),
                sound,
                setup_value(args, b, p),
            ));
        }
    }
}

/// Arguments other than `--sound` and `--volume` are passed over.
proof fn lemma_setup_skips_other_arguments(
    args: Seq<Seq<char>>,
    j: int,
    b: int,
    sound: Seq<char>,
    volume: Seq<char>,
)
    requires
        0 <= j <= b <= args.len(),
        forall|i: int| j <= i < b ==> args[i] != "--sound"@ && args[i] != "--volume"@,
    ensures
        setup_options(args, j, sound, volume) == setup_options(args, b, sound, volume),
    decreases b - j,
{
    if j < b {
        lemma_setup_skips_other_arguments(args, j + 1, b, sound, volume);
    }
}

/// The options after `--setup` are read to the end, in whatever order they
/// come: on a command line whose arguments after `--setup` are first any
/// arguments that are not options, then `--sound` and `--volume` options,
/// each with its value, the setup uses the last `--sound` value (as a sound
/// name) and the last `--volume` value, and the defaults where there is none.
pub proof fn lemma_setup_reads_every_option(args: Seq<Seq<char>>, b: int)
    requires
        args.len() >= 2,
        args[1] == "--setup"@,
        forall|i: int| 0 <= i < args.len() ==> args[i] != "--multi-server"@,
        2 <= b,
        forall|i: int| 2 <= i < b ==> args[i] != "--sound"@ && args[i] != "--volume"@,
        setup_pairs(args, b),
    ensures
        ({
            let c = cli_action_of(args);
            let n = setup_pair_count(args, b);
            &&& c is Setup
            &&& (forall|k: int| 0 <= k < n ==> #[trigger] setup_flag(args, b, k) != "--sound"@)
                ==> c->sound == DEFAULT_SOUND@
            &&& forall|k: int|
                0 <= k < n && #[trigger] setup_flag(args, b, k) == "--sound"@ && (forall|m: int|
                    k < m < n ==> #[trigger] setup_flag(args, b, m) != "--sound"@) ==> c->sound
                    == resolved_sound(setup_value(args, b, k))
            &&& (forall|k: int| 0 <= k < n ==> #[trigger] setup_flag(args, b, k) != "--volume"@)
                ==> c->volume == DEFAULT_VOLUME@
            &&& forall|k: int|
                0 <= k < n && #[trigger] setup_flag(args, b, k) == "--volume"@ && (forall|m: int|
                    k < m < n ==> #[trigger] setup_flag(args, b, m) != "--volume"@) ==> c->volume
                    == setup_value(args, b, k)
        }),
{
    reveal_strlit("--sound");
    reveal_strlit("--volume");
    reveal_strlit("--help");
    reveal_strlit("-h");
    reveal_strlit("--list-sounds");
    reveal_strlit("--setup");
    assert("--sound"@[2] != "--volume"@[2]);
    assert("--setup"@ != "--help"@ && "--setup"@ != "-h"@ && "--setup"@ != "--list-sounds"@) by {
        assert("--setup"@[2] != "--help"@[2]);
        assert("--setup"@.len() != "-h"@.len());
        assert("--setup"@[2] != "--list-sounds"@[2]);
    }
    lemma_setup_skips_other_arguments(args, 2, b, DEFAULT_SOUND@, DEFAULT_VOLUME@);
    lemma_setup_pairs_from(args, b, 0, DEFAULT_SOUND@, DEFAULT_VOLUME@);
}

} // verus!
