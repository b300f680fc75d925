//! Sound names, paths and the timing constants of the alert.
use vstd::prelude::*;
use vstd::string::*;

use crate::text::{chars_of, has_prefix_in, split, split_on, views};

verus! {

pub const DEFAULT_SOUND: &'static str = "/System/Library/Sounds/Funk.aiff";

pub const DEFAULT_VOLUME: &'static str = "2.0";

pub const BURST_COUNT: usize = 3;

pub const BURST_DELAY_MS: u64 = 400;

pub const BURST_PAUSE_MS: u64 = 2000;

pub const GRACE_PERIOD_MS: u64 = 1000;

pub const ERROR_SOUND: &'static str = "/System/Library/Sounds/Basso.aiff";

pub const SUCCESS_SOUND: &'static str = "/System/Library/Sounds/Glass.aiff";

pub const SOUNDS: [&'static str; 14] = [
    "/System/Library/Sounds/Funk.aiff",
    "/System/Library/Sounds/Basso.aiff",
    "/System/Library/Sounds/Blow.aiff",
    "/System/Library/Sounds/Bottle.aiff",
    "/System/Library/Sounds/Frog.aiff",
    "/System/Library/Sounds/Glass.aiff",
    "/System/Library/Sounds/Hero.aiff",
    "/System/Library/Sounds/Morse.aiff",
    "/System/Library/Sounds/Ping.aiff",
    "/System/Library/Sounds/Pop.aiff",
    "/System/Library/Sounds/Purr.aiff",
    "/System/Library/Sounds/Sosumi.aiff",
    "/System/Library/Sounds/Submarine.aiff",
    "/System/Library/Sounds/Tink.aiff",
];

/// `s` with every trailing repetition of `p` removed, as `str::trim_end_matches` does.
pub open spec fn strip_suffix_all(s: Seq<char>, p: Seq<char>) -> Seq<char>
    decreases s.len(),
{
    if p.len() > 0 && p.is_suffix_of(s) {
        strip_suffix_all(s.take(s.len() - p.len()), p)
    } else {
        s
    }
}

/// The path of the sound that a user names: an absolute path is taken as it
/// is; any other name is a system sound, with or without its `.aiff` extension.
pub open spec fn resolved_sound(name: Seq<char>) -> Seq<char> {
    if name.len() > 0 && name[0] == '/' {
        name
    } else {
        "/System/Library/Sounds/"@ + strip_suffix_all(name, ".aiff"@) + ".aiff"@
    }
}

/// The last component of a `/`-separated path.
pub open spec fn file_name(path: Seq<char>) -> Seq<char> {
    split(path, '/').last()
}

/// `s` with every trailing repetition of the non-empty `p` removed.
fn trim_end_matches_str(s: &str, p: &str) -> (r: String)
    requires
        p@.len() > 0,
    ensures
        r@ == strip_suffix_all(s@, p@),
{
    let cs = chars_of(s);
    let plen = chars_of(p).len();
    let mut end = cs.len();
    assert(cs@.take(end as int) =~= cs@);
    while end >= plen && has_prefix_in(&cs, end - plen, end, p)
        invariant
            end <= cs.len(),
            cs@ == s@,
            plen == p@.len() > 0,
            strip_suffix_all(cs@, p@) == strip_suffix_all(cs@.take(end as int), p@),
        decreases end,
    {
        let ghost t = cs@.take(end as int);
        assert(cs@.subrange(end - plen, end as int) =~= t.subrange(t.len() - p@.len(), t.len() as int));
        assert(p@.is_suffix_of(t));
        assert(t.take(t.len() - p@.len()) =~= cs@.take(end - plen));
        end = end - plen;
    }
    let ghost t = cs@.take(end as int);
    if end >= plen {
        assert(cs@.subrange(end - plen, end as int) =~= t.subrange(t.len() - p@.len(), t.len() as int));
    }
    assert(!(p@.is_suffix_of(t)));
    assert(t =~= cs@.subrange(0, end as int));
    String::from_str(s.substring_char(0, end))
}

/// Resolve a sound name to the path of a sound file.
pub fn resolve_sound(name: &str) -> (r: String)
    ensures
        r@ == resolved_sound(name@),
{
    let cs = chars_of(name);
    if cs.len() > 0 && cs[0] == '/' {
        return String::from_str(name);
    }
    proof {
        reveal_strlit(".aiff");
    }
    let base = trim_end_matches_str(name, ".aiff");
    let mut path = String::from_str("/System/Library/Sounds/");
    path.append(base.as_str());
    path.append(".aiff");
    path
}

/// The sound played when a touch operation ends: one for success, one for failure.
pub fn completion_sound(success: bool) -> (r: &'static str)
    ensures
        r@ == (if success {
            SUCCESS_SOUND@
        } else {
            ERROR_SOUND@
        }),
{
    if success {
        SUCCESS_SOUND
    } else {
        ERROR_SOUND
    }
}

/// The last component of a sound's path, as a listing shows it.
pub fn sound_file_name(path: &str) -> (r: String)
    ensures
        r@ == file_name(path@),
{
    let parts = split_on(path, '/');
    assert(views(parts@).len() >= 1);
    let last = parts.len() - 1;
    assert(views(parts@)[last as int] == parts@[last as int]@);
    parts[last].clone()
}

/// The file names of the system sounds, in the order of `SOUNDS`.
pub fn sound_file_names() -> (r: Vec<String>)
    ensures
        r.len() == SOUNDS@.len(),
        forall|i: int| 0 <= i < r.len() ==> #[trigger] r@[i]@ == file_name(SOUNDS@[i]@),
{
    let mut r: Vec<String> = Vec::new();
    let mut i: usize = 0;
    while i < SOUNDS.len()
        invariant
            i <= SOUNDS@.len(),
            r.len() == i,
            forall|j: int| 0 <= j < i ==> #[trigger] r@[j]@ == file_name(SOUNDS@[j]@),
        decreases SOUNDS@.len() - i,
    {
        r.push(sound_file_name(SOUNDS[i]));
        i = i + 1;
    }
    r
}

} // verus!
