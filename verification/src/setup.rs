//! Installing and removing the wrapper: finding the real scdaemon in
//! `gpgconf` output, and planning the edits to `gpg-agent.conf`.
use vstd::prelude::*;
use vstd::string::*;

use crate::config::{Config, ConfigView};
use crate::proxy::{from_utf8_lossy, utf8_lossy};
use crate::text::{
    chars_of, has_prefix_in, lemma_lines_cons, lemma_lines_have_no_newline,
    lemma_trim_end_keeps, lemma_trim_strip_cr, lines, lines_of, split, split_on, strip_cr, trim,
    trim_bounds, trim_end, trim_start, views,
};

verus! {

#[verifier::external_type_specification]
#[verifier::external_body]
pub struct ExIoError(std::io::Error);

#[derive(Debug)]
pub enum SetupError {
    ScdaemonNotFound,
    SelfReference,
    Io(std::io::Error),
}

/// The result of planning a setup operation.
#[derive(Debug)]
pub struct SetupPlan {
    pub config: Config,
    pub gpg_agent_conf_lines: Vec<String>,
}

/// The scdaemon path that one line of `gpgconf --list-components` output
/// names: the third `:`-separated field of a line whose first field is
/// `scdaemon`, when that field is not empty.
pub open spec fn scdaemon_in_gpgconf_line(line: Seq<char>) -> Option<Seq<char>> {
    let parts = split(line, ':');
    if parts.len() >= 3 && parts[0] == "scdaemon"@ && parts[2].len() > 0 {
        Some(parts[2])
    } else {
        None
    }
}

/// The scdaemon path named by the first line of `ls` that names one.
pub open spec fn scdaemon_in_gpgconf_lines(ls: Seq<Seq<char>>) -> Option<Seq<char>>
    decreases ls.len(),
{
    if ls.len() == 0 {
        None
    } else {
        match scdaemon_in_gpgconf_line(ls[0]) {
            Some(p) => Some(p),
            None => scdaemon_in_gpgconf_lines(ls.drop_first()),
        }
    }
}

/// Parse the scdaemon path from `gpgconf --list-components` output.
pub fn parse_scdaemon_from_gpgconf(output: &str) -> (r: Option<String>)
    ensures
        match r {
            Some(p) => scdaemon_in_gpgconf_lines(lines(output@)) == Some(p@),
            None => scdaemon_in_gpgconf_lines(lines(output@)) is None,
        },
{
    let ls = lines_of(output);
    let name = String::from_str("scdaemon");
    let mut i: usize = 0;
    assert(views(ls@).skip(0) =~= views(ls@));
    while i < ls.len()
        invariant
            i <= ls.len(),
            name@ == "scdaemon"@,
            views(ls@) == lines(output@),
            scdaemon_in_gpgconf_lines(lines(output@)) == scdaemon_in_gpgconf_lines(
                views(ls@).skip(i as int),
            ),
        decreases ls.len() - i,
    {
        assert(views(ls@).skip(i as int).drop_first() =~= views(ls@).skip(i + 1));
        assert(views(ls@).skip(i as int)[0] == ls@[i as int]@);
        let parts = split_on(ls[i].as_str(), ':');
        assert(views(parts@) == split(ls@[i as int]@, ':'));
        if parts.len() >= 3 && parts[0] == name {
            assert(views(parts@)[0] == parts@[0]@);
            assert(views(parts@)[2] == parts@[2]@);
            if parts[2].as_str().unicode_len() > 0 {
                return Some(parts[2].clone());
            }
        }
        i = i + 1;
    }
    None
}

/// The scdaemon path named in the raw standard output of
/// `gpgconf --list-components`, decoded as `String::from_utf8_lossy` decodes it.
pub fn scdaemon_from_gpgconf_output(stdout: &[u8]) -> (r: Option<String>)
    ensures
        match r {
            Some(p) => scdaemon_in_gpgconf_lines(lines(utf8_lossy(stdout@))) == Some(p@),
            None => scdaemon_in_gpgconf_lines(lines(utf8_lossy(stdout@))) is None,
        },
{
    let text = from_utf8_lossy(stdout);
    parse_scdaemon_from_gpgconf(text.as_str())
}

/// Whether a `gpg-agent.conf` line sets `scdaemon-program`.
pub open spec fn is_program_line(l: Seq<char>) -> bool {
    let t = trim(l);
    ||| "scdaemon-program "@.is_prefix_of(t)
    ||| "scdaemon-program\t"@.is_prefix_of(t)
    ||| t == "scdaemon-program"@
}

/// `ls` without its `scdaemon-program` lines, in order.
pub open spec fn without_program_lines(ls: Seq<Seq<char>>) -> Seq<Seq<char>>
    decreases ls.len(),
{
    if ls.len() == 0 {
        seq![]
    } else if is_program_line(ls[0]) {
        without_program_lines(ls.drop_first())
    } else {
        seq![ls[0]] + without_program_lines(ls.drop_first())
    }
}

/// The lines of a `gpg-agent.conf` text that remain once its
/// `scdaemon-program` lines are removed.
pub open spec fn kept_conf_lines(conf: Seq<char>) -> Seq<Seq<char>> {
    without_program_lines(lines(conf))
}

/// The `gpg-agent.conf` line that makes gpg-agent start `exe` as its scdaemon.
pub open spec fn program_line(exe: Seq<char>) -> Seq<char> {
    "scdaemon-program "@ + exe
}

/// Each line of `ls` followed by a newline.
pub open spec fn terminated_lines(ls: Seq<Seq<char>>) -> Seq<char>
    decreases ls.len(),
{
    if ls.len() == 0 {
        Seq::empty()
    } else {
        ls[0] + "\n"@ + terminated_lines(ls.drop_first())
    }
}

/// The text of a configuration file written from `ls`: the lines joined by
/// newlines, with a final newline.
pub open spec fn rendered_conf(ls: Seq<Seq<char>>) -> Seq<char> {
    if ls.len() == 0 {
        "\n"@
    } else {
        terminated_lines(ls)
    }
}

/// Whether a `gpg-agent.conf` line sets `scdaemon-program`.
fn is_program_conf_line(line: &str) -> (r: bool)
    ensures
        r == is_program_line(line@),
{
    let cs = chars_of(line);
    let (lo, hi) = trim_bounds(&cs);
    if has_prefix_in(&cs, lo, hi, "scdaemon-program ") || has_prefix_in(
        &cs,
        lo,
        hi,
        "scdaemon-program\t",
    ) {
        return true;
    }
    let t = String::from_str(line.substring_char(lo, hi));
    t == String::from_str("scdaemon-program")
}

/// The lines of `conf` without its `scdaemon-program` lines.
fn kept_lines_of(conf: &str) -> (r: Vec<String>)
    ensures
        views(r@) == kept_conf_lines(conf@),
{
    let ls = lines_of(conf);
    let mut out: Vec<String> = Vec::new();
    let mut i: usize = 0;
    assert(views(ls@).skip(0) =~= views(ls@));
    while i < ls.len()
        invariant
            i <= ls.len(),
            views(ls@) == lines(conf@),
            kept_conf_lines(conf@) == views(out@) + without_program_lines(
                views(ls@).skip(i as int),
            ),
        decreases ls.len() - i,
    {
        let ghost rest = views(ls@).skip(i as int);
        assert(rest.drop_first() =~= views(ls@).skip(i + 1));
        assert(rest[0] == ls@[i as int]@);
        if !is_program_conf_line(ls[i].as_str()) {
            let ghost before = out@;
            out.push(ls[i].clone());
            assert(views(out@) =~= views(before).push(ls@[i as int]@));
            assert(views(out@) + without_program_lines(views(ls@).skip(i + 1)) =~= views(before)
                + without_program_lines(rest));
        }
        i = i + 1;
    }
    assert(views(ls@).skip(ls.len() as int) =~= Seq::<Seq<char>>::empty());
    assert(views(out@) + Seq::<Seq<char>>::empty() =~= views(out@));
    out
}

/// Plan a setup: the configuration to save and the new lines of
/// `gpg-agent.conf`, which keep every line of the existing file but its
/// `scdaemon-program` lines and end with one that starts this program.
pub fn plan_setup(
    current_exe: &str,
    detected_scdaemon: Option<String>,
    existing_conf: Option<&str>,
    sound: &str,
    volume: &str,
) -> (r: Result<SetupPlan, SetupError>)
    ensures
        match detected_scdaemon {
            None => r matches Err(SetupError::ScdaemonNotFound),
            Some(p) => if p@ == current_exe@ {
                r matches Err(SetupError::SelfReference)
            } else {
                r matches Ok(plan) && plan.config@ == (ConfigView {
                    scdaemon: Some(p@),
                    sound: sound@,
                    volume: volume@,
                }) && views(plan.gpg_agent_conf_lines@) == kept_conf_lines(
                    match existing_conf {
                        Some(c) => c@,
                        None => Seq::empty(),
                    },
                ).push(program_line(current_exe@))
            },
        },
{
    let scdaemon_path = match detected_scdaemon {
        Some(p) => p,
        None => {
            return Err(SetupError::ScdaemonNotFound);
        },
    };
    if scdaemon_path == String::from_str(current_exe) {
        return Err(SetupError::SelfReference);
    }
    let config = Config {
        scdaemon: Some(scdaemon_path),
        sound: String::from_str(sound),
        volume: String::from_str(volume),
    };
    let existing = match existing_conf {
        Some(c) => c,
        None => "",
    };
    proof {
        reveal_strlit("");
    }
    let mut lines = kept_lines_of(existing);
    let mut program = String::from_str("scdaemon-program ");
    program.append(current_exe);
    let ghost before = lines@;
    lines.push(program);
    assert(views(lines@) =~= views(before).push(program_line(current_exe@)));
    Ok(SetupPlan { config, gpg_agent_conf_lines: lines })
}

/// Plan an uninstall: the lines of `gpg-agent.conf` without its
/// `scdaemon-program` lines.
pub fn plan_uninstall(existing_conf: &str) -> (r: Vec<String>)
    ensures
        views(r@) == kept_conf_lines(existing_conf@),
{
    kept_lines_of(existing_conf)
}

/// The text of a configuration file with the given lines: the lines joined
/// by newlines, with a final newline.
pub fn render_conf_lines(lines: &Vec<String>) -> (r: String)
    ensures
        r@ == rendered_conf(views(lines@)),
{
    let mut out = String::new();
    if lines.len() == 0 {
        out.append("\n");
        return out;
    }
    let mut i: usize = 0;
    assert(views(lines@).skip(0) =~= views(lines@));
    assert(out@ + terminated_lines(views(lines@)) =~= terminated_lines(views(lines@)));
    while i < lines.len()
        invariant
            i <= lines.len(),
            out@ + terminated_lines(views(lines@).skip(i as int)) == terminated_lines(views(lines@)),
        decreases lines.len() - i,
    {
        let ghost rest = views(lines@).skip(i as int);
        assert(rest.drop_first() =~= views(lines@).skip(i + 1));
        assert(rest[0] == lines@[i as int]@);
        let ghost before = out@;
        out.append(lines[i].as_str());
        out.append("\n");
        assert(out@ + terminated_lines(views(lines@).skip(i + 1)) =~= before + terminated_lines(
            rest,
        ));
        i = i + 1;
    }
    assert(views(lines@).skip(lines.len() as int) =~= Seq::<Seq<char>>::empty());
    assert(out@ + Seq::<char>::empty() =~= out@);
    out
}

/// The real scdaemon's path: the configured one, else the detected one, else
/// the usual install location.
pub fn get_real_scdaemon(config: &Config, detected: Option<String>) -> (r: String)
    ensures
        r@ == match config.scdaemon {
            Some(p) => p@,
            None => match detected {
                Some(d) => d@,
                None => "/usr/local/libexec/scdaemon"@,
            },
        },
{
    match &config.scdaemon {
        Some(path) => path.clone(),
        None => match detected {
            Some(d) => d,
            None => String::from_str("/usr/local/libexec/scdaemon"),
        },
    }
}

/// Reading back lines written one per line gives them again, less any final
/// carriage return.
proof fn lemma_lines_of_terminated(ls: Seq<Seq<char>>)
    requires
        forall|i: int| 0 <= i < ls.len() ==> !(#[trigger] ls[i]).contains('\n'),
    ensures
        lines(terminated_lines(ls)) == ls.map_values(|l: Seq<char>| strip_cr(l)),
    decreases ls.len(),
{
    if ls.len() == 0 {
        assert(lines(Seq::<char>::empty()) =~= Seq::<Seq<char>>::empty());
        assert(ls.map_values(|l: Seq<char>| strip_cr(l)) =~= Seq::<Seq<char>>::empty());
    } else {
        let rest = ls.drop_first();
        assert forall|i: int| 0 <= i < rest.len() implies !(#[trigger] rest[i]).contains('\n') by {
            assert(rest[i] == ls[i + 1]);
        }
        lemma_lines_of_terminated(rest);
        assert(!ls[0].contains('\n'));
        lemma_lines_cons(ls[0], terminated_lines(rest));
        assert(ls.map_values(|l: Seq<char>| strip_cr(l)) =~= seq![strip_cr(ls[0])]
            + rest.map_values(|l: Seq<char>| strip_cr(l)));
    }
}

/// The line that setup adds is a `scdaemon-program` line.
proof fn lemma_program_line_is_program_line(exe: Seq<char>)
    ensures
        is_program_line(program_line(exe)),
{
    reveal_strlit("scdaemon-program ");
    reveal_strlit("scdaemon-program");
    let line = program_line(exe);
    assert(line[0] == 's');
    assert(trim_start(line) == line);
    assert(line[15] == 'm');
    lemma_trim_end_keeps(line, 15);
    let t = trim_end(line);
    if t.len() == 16 {
        assert(t =~= "scdaemon-program"@);
    } else {
        assert(t.subrange(0, 17) =~= "scdaemon-program "@);
    }
}

/// No line that remains after removal is a `scdaemon-program` line, and
/// removal adds no newline to any line.
proof fn lemma_without_program_lines_kept(ls: Seq<Seq<char>>)
    ensures
        forall|i: int|
            0 <= i < without_program_lines(ls).len() ==> !is_program_line(
                #[trigger] without_program_lines(ls)[i],
            ),
        (forall|i: int| 0 <= i < ls.len() ==> !(#[trigger] ls[i]).contains('\n')) ==> forall|
            i: int,
        |
            0 <= i < without_program_lines(ls).len() ==> !(
            #[trigger] without_program_lines(ls)[i]).contains('\n'),
    decreases ls.len(),
{
    if ls.len() > 0 {
        let rest = ls.drop_first();
        lemma_without_program_lines_kept(rest);
        if (forall|i: int| 0 <= i < ls.len() ==> !(#[trigger] ls[i]).contains('\n')) {
            assert forall|i: int| 0 <= i < rest.len() implies !(#[trigger] rest[i]).contains(
                '\n',
            ) by {
                assert(rest[i] == ls[i + 1]);
            }
        }
        let w = without_program_lines(ls);
        if is_program_line(ls[0]) {
            assert(w == without_program_lines(rest));
        } else {
            assert(w =~= seq![ls[0]] + without_program_lines(rest));
            assert forall|i: int| 0 <= i < w.len() implies !is_program_line(#[trigger] w[i]) by {
                if i > 0 {
                    assert(w[i] == without_program_lines(rest)[i - 1]);
                }
            }
            if (forall|i: int| 0 <= i < ls.len() ==> !(#[trigger] ls[i]).contains('\n')) {
                assert forall|i: int| 0 <= i < w.len() implies !(#[trigger] w[i]).contains('\n') by {
                    if i > 0 {
                        assert(w[i] == without_program_lines(rest)[i - 1]);
                    } else {
                        assert(w[0] == ls[0]);
                    }
                }
            }
        }
    }
}

/// Removing the `scdaemon-program` lines a second time removes nothing more.
proof fn lemma_without_program_lines_idempotent(ls: Seq<Seq<char>>)
    ensures
        without_program_lines(without_program_lines(ls)) == without_program_lines(ls),
    decreases ls.len(),
{
    if ls.len() > 0 {
        let rest = ls.drop_first();
        lemma_without_program_lines_idempotent(rest);
        if !is_program_line(ls[0]) {
            let w = without_program_lines(ls);
            assert(w.drop_first() =~= without_program_lines(rest));
        }
    }
}

/// Removal works line by line.
proof fn lemma_without_program_lines_concat(a: Seq<Seq<char>>, b: Seq<Seq<char>>)
    ensures
        without_program_lines(a + b) == without_program_lines(a) + without_program_lines(b),
    decreases a.len(),
{
    if a.len() == 0 {
        assert(a + b =~= b);
        assert(without_program_lines(a) + without_program_lines(b) =~= without_program_lines(b));
    } else {
        assert((a + b).drop_first() =~= a.drop_first() + b);
        assert((a + b)[0] == a[0]);
        lemma_without_program_lines_concat(a.drop_first(), b);
        if !is_program_line(a[0]) {
            assert(seq![a[0]] + (without_program_lines(a.drop_first()) + without_program_lines(b))
                =~= seq![a[0]] + without_program_lines(a.drop_first()) + without_program_lines(b));
        }
    }
}

/// Dropping final carriage returns changes no remaining line when none of
/// them ends with one.
proof fn lemma_without_program_lines_strip_cr(ls: Seq<Seq<char>>)
    requires
        forall|i: int|
            0 <= i < without_program_lines(ls).len() ==> strip_cr(
                #[trigger] without_program_lines(ls)[i],
            ) == without_program_lines(ls)[i],
    ensures
        without_program_lines(ls.map_values(|l: Seq<char>| strip_cr(l))) == without_program_lines(
            ls,
        ),
    decreases ls.len(),
{
    let ms = ls.map_values(|l: Seq<char>| strip_cr(l));
    if ls.len() > 0 {
        let rest = ls.drop_first();
        assert(ms.drop_first() =~= rest.map_values(|l: Seq<char>| strip_cr(l)));
        assert(ms[0] == strip_cr(ls[0]));
        lemma_trim_strip_cr(ls[0]);
        let w = without_program_lines(ls);
        if is_program_line(ls[0]) {
            assert(w == without_program_lines(rest));
        } else {
            assert forall|i: int| 0 <= i < without_program_lines(rest).len() implies strip_cr(
                #[trigger] without_program_lines(rest)[i],
            ) == without_program_lines(rest)[i] by {
                assert(without_program_lines(rest)[i] == w[i + 1]);
            }
            assert(w[0] == ls[0]);
        }
        lemma_without_program_lines_strip_cr(rest);
    }
}

/// Uninstalling right after a setup gives back the lines that the existing
/// `gpg-agent.conf` had besides its `scdaemon-program` lines, when the
/// program's path has no line break and none of those lines ends with a
/// carriage return.
pub proof fn lemma_uninstall_undoes_setup(existing: Seq<char>, exe: Seq<char>)
    requires
        !exe.contains('\n'),
        forall|i: int|
            0 <= i < kept_conf_lines(existing).len() ==> strip_cr(
                #[trigger] kept_conf_lines(existing)[i],
            ) == kept_conf_lines(existing)[i],
    ensures
        kept_conf_lines(rendered_conf(kept_conf_lines(existing).push(program_line(exe))))
            == kept_conf_lines(existing),
{
    reveal_strlit("scdaemon-program ");
    let k = kept_conf_lines(existing);
    let prog = program_line(exe);
    let ls = k.push(prog);
    lemma_lines_have_no_newline(existing);
    lemma_without_program_lines_kept(lines(existing));
    assert(!prog.contains('\n')) by {
        if prog.contains('\n') {
            let j = choose|j: int| 0 <= j < prog.len() && prog[j] == '\n';
            if j >= 17 {
                assert(exe[j - 17] == '\n');
            }
        }
    }
    assert forall|i: int| 0 <= i < ls.len() implies !(#[trigger] ls[i]).contains('\n') by {
        if i < k.len() {
            assert(ls[i] == k[i]);
        }
    }
    lemma_lines_of_terminated(ls);
    lemma_program_line_is_program_line(exe);
    assert(without_program_lines(seq![prog]) =~= Seq::<Seq<char>>::empty()) by {
        assert(seq![prog].drop_first() =~= Seq::<Seq<char>>::empty());
        assert(seq![prog][0] == prog);
        assert(without_program_lines(Seq::<Seq<char>>::empty()) =~= Seq::<Seq<char>>::empty());
    }
    lemma_without_program_lines_concat(k, seq![prog]);
    assert(k + seq![prog] =~= ls);
    lemma_without_program_lines_idempotent(lines(existing));
    assert(without_program_lines(ls) =~= k);
    lemma_without_program_lines_strip_cr(ls);
}

/// Uninstalling twice writes the same `gpg-agent.conf` as uninstalling once,
/// when no remaining line ends with a carriage return.
pub proof fn lemma_uninstall_twice(existing: Seq<char>)
    requires
        forall|i: int|
            0 <= i < kept_conf_lines(existing).len() ==> strip_cr(
                #[trigger] kept_conf_lines(existing)[i],
            ) == kept_conf_lines(existing)[i],
    ensures
        rendered_conf(kept_conf_lines(rendered_conf(kept_conf_lines(existing)))) == rendered_conf(
            kept_conf_lines(existing),
        ),
{
    reveal_strlit("\n");
    reveal_strlit("scdaemon-program ");
    reveal_strlit("scdaemon-program\t");
    reveal_strlit("scdaemon-program");
    let k = kept_conf_lines(existing);
    lemma_without_program_lines_idempotent(lines(existing));
    if k.len() == 0 {
        let e = Seq::<char>::empty();
        assert("\n"@ =~= e + "\n"@ + e);
        lemma_lines_cons(e, e);
        assert(!e.contains('\n'));
        assert(lines(e) =~= Seq::<Seq<char>>::empty());
        assert(lines("\n"@) =~= seq![e]);
        assert(trim(e) =~= e);
        assert(!is_program_line(e));
        assert(seq![e].drop_first() =~= Seq::<Seq<char>>::empty());
        assert(without_program_lines(seq![e]) =~= seq![e]);
        assert(terminated_lines(Seq::<Seq<char>>::empty()) =~= e);
        assert(rendered_conf(seq![e]) =~= "\n"@);
    } else {
        lemma_lines_have_no_newline(existing);
        lemma_without_program_lines_kept(lines(existing));
        lemma_lines_of_terminated(k);
        assert(k.map_values(|l: Seq<char>| strip_cr(l)) =~= k);
    }
}

/// After setup, `gpg-agent.conf` has exactly one `scdaemon-program` line:
/// the last one, which starts this program.
pub proof fn lemma_setup_leaves_one_program_line(existing: Seq<char>, exe: Seq<char>)
    ensures
        ({
            let ls = kept_conf_lines(existing).push(program_line(exe));
            &&& forall|i: int| 0 <= i < ls.len() - 1 ==> !is_program_line(#[trigger] ls[i])
            &&& is_program_line(ls.last())
        }),
{
    let k = kept_conf_lines(existing);
    let ls = k.push(program_line(exe));
    lemma_without_program_lines_kept(lines(existing));
    lemma_program_line_is_program_line(exe);
    assert forall|i: int| 0 <= i < ls.len() - 1 implies !is_program_line(#[trigger] ls[i]) by {
        assert(ls[i] == k[i]);
    }
}

/// Only active `scdaemon-program` option lines are removed: a line counts as
/// one exactly when its trimmed text is `scdaemon-program`, alone or followed
/// by a space or a tab; a line whose trimmed text begins with `#` (a comment)
/// never does; and lines none of which begins with `scdaemon-program` all stay,
/// in order.
pub proof fn lemma_only_option_lines_are_removed(l: Seq<char>, ls: Seq<Seq<char>>)
    ensures
        is_program_line(l) <==> ("scdaemon-program"@.is_prefix_of(trim(l)) && (trim(l).len() == 16
            || trim(l)[16] == ' ' || trim(l)[16] == '\t')),
        trim(l).len() > 0 && trim(l)[0] == '#' ==> !is_program_line(l),
        (forall|i: int| 0 <= i < ls.len() ==> !"scdaemon-program"@.is_prefix_of(trim(#[trigger] ls[i])))
            ==> without_program_lines(ls) == ls,
    decreases ls.len(),
{
    reveal_strlit("scdaemon-program ");
    reveal_strlit("scdaemon-program\t");
    reveal_strlit("scdaemon-program");
    let t = trim(l);
    let p = "scdaemon-program"@;
    assert("scdaemon-program "@ =~= p.push(' '));
    assert("scdaemon-program\t"@ =~= p.push('\t'));
    if t.len() >= 17 {
        assert(t.subrange(0, 17) =~= t.subrange(0, 16).push(t[16]));
        if p.is_prefix_of(t) && t[16] == ' ' {
            assert(t.subrange(0, 16) =~= p);
            assert("scdaemon-program "@.is_prefix_of(t));
        }
        if p.is_prefix_of(t) && t[16] == '\t' {
            assert(t.subrange(0, 16) =~= p);
            assert("scdaemon-program\t"@.is_prefix_of(t));
        }
    }
    if "scdaemon-program "@.is_prefix_of(t) {
        assert(t.subrange(0, 16) =~= p);
        assert(t[16] == t.subrange(0, 17)[16]);
        assert(t[16] == ' ');
    }
    if "scdaemon-program\t"@.is_prefix_of(t) {
        assert(t.subrange(0, 16) =~= p);
        assert(t[16] == t.subrange(0, 17)[16]);
        assert(t[16] == '\t');
    }
    if t == p {
        assert(t.subrange(0, 16) =~= p);
    }
    if p.is_prefix_of(t) && t.len() == 16 {
        assert(t =~= t.subrange(0, 16));
    }
    if t.len() > 0 && t[0] == '#' && p.is_prefix_of(t) {
        assert(t[0] == t.subrange(0, 16)[0]);
    }
    if ls.len() > 0 && (forall|i: int| 0 <= i < ls.len() ==> !"scdaemon-program"@.is_prefix_of(
        trim(#[trigger] ls[i]),
    )) {
        let rest = ls.drop_first();
        assert forall|i: int| 0 <= i < rest.len() implies !"scdaemon-program"@.is_prefix_of(
            trim(#[trigger] rest[i]),
        ) by {
            assert(rest[i] == ls[i + 1]);
        }
        lemma_only_option_lines_are_removed(ls[0], rest);
        assert(!"scdaemon-program"@.is_prefix_of(trim(ls[0])));
        assert(ls =~= seq![ls[0]] + rest);
    }
}

} // verus!
