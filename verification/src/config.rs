//! The wrapper's own configuration: a `key=value` file with the real
//! scdaemon's path, the alert sound and its volume.
use vstd::prelude::*;
use vstd::string::*;

use crate::sound::{DEFAULT_SOUND, DEFAULT_VOLUME};
use crate::text::{
    chars_of, is_ws, lemma_lines_cons, lemma_seg_len_concat, lemma_trim_unchanged, lines, lines_of,
    seg_len, strip_cr, trim, trim_str, views,
};

verus! {

/// The map that a sequence of insertions builds, a later insertion of a key
/// replacing an earlier one.
pub open spec fn map_of_entries(es: Seq<(String, String)>) -> Map<Seq<char>, Seq<char>>
    decreases es.len(),
{
    if es.len() == 0 {
        Map::empty()
    } else {
        map_of_entries(es.drop_last()).insert(es.last().0@, es.last().1@)
    }
}

/// A map from configuration keys to values.
pub struct ConfigMap {
    entries: Vec<(String, String)>,
}

impl View for ConfigMap {
    type V = Map<Seq<char>, Seq<char>>;

    closed spec fn view(&self) -> Map<Seq<char>, Seq<char>> {
        map_of_entries(self.entries@)
    }
}

/// When no entry from position `i` on has key `k`, the map's entry for `k`
/// is the one built by the first `i` insertions.
proof fn lemma_map_of_entries_prefix(es: Seq<(String, String)>, i: int, k: Seq<char>)
    requires
        0 <= i <= es.len(),
        forall|j: int| i <= j < es.len() ==> (#[trigger] es[j]).0@ != k,
    ensures
        map_of_entries(es).contains_key(k) == map_of_entries(es.take(i)).contains_key(k),
        map_of_entries(es).contains_key(k) ==> map_of_entries(es)[k] == map_of_entries(
            es.take(i),
        )[k],
    decreases es.len(),
{
    if es.len() > i {
        assert(es.drop_last().take(i) =~= es.take(i));
        lemma_map_of_entries_prefix(es.drop_last(), i, k);
    } else {
        assert(es.take(i) =~= es);
    }
}

impl ConfigMap {
    /// An empty map.
    pub fn new() -> (r: ConfigMap)
        ensures
            r@ == Map::<Seq<char>, Seq<char>>::empty(),
    {
        ConfigMap { entries: Vec::new() }
    }

    /// Set `key` to `value`, replacing any earlier value of `key`.
    pub fn insert(&mut self, key: String, value: String)
        ensures
            final(self)@ == old(self)@.insert(key@, value@),
    {
        let ghost before = self.entries@;
        self.entries.push((key, value));
        assert(self.entries@.drop_last() =~= before);
    }

    /// The value of `key`, if the map has one.
    pub fn get(&self, key: &str) -> (r: Option<&String>)
        ensures
            match r {
                Some(v) => self@.contains_key(key@) && v@ == self@[key@],
                None => !self@.contains_key(key@),
            },
    {
        let k = String::from_str(key);
        let mut i = self.entries.len();
        while i > 0
            invariant
                i <= self.entries.len(),
                k@ == key@,
                forall|j: int| i <= j < self.entries@.len() ==> (#[trigger] self.entries@[j]).0@ != key@,
            decreases i,
        {
            if self.entries[i - 1].0 == k {
                proof {
                    lemma_map_of_entries_prefix(self.entries@, i as int, key@);
                    let t = self.entries@.take(i as int);
                    assert(t.drop_last() =~= self.entries@.take(i - 1));
                    assert(t.last() == self.entries@[i - 1]);
                }
                return Some(&self.entries[i - 1].1);
            }
            i = i - 1;
        }
        proof {
            lemma_map_of_entries_prefix(self.entries@, 0, key@);
            assert(self.entries@.take(0) =~= Seq::<(String, String)>::empty());
        }
        None
    }

    /// Whether the map has a value for `key`.
    pub fn contains_key(&self, key: &str) -> (r: bool)
        ensures
            r == self@.contains_key(key@),
    {
        self.get(key).is_some()
    }

    /// Whether the map has no keys.
    pub fn is_empty(&self) -> (r: bool)
        ensures
            r == self@.dom().is_empty(),
    {
        let n = self.entries.len();
        if n == 0 {
            assert(self@.dom() =~= Set::<Seq<char>>::empty());
        } else {
            assert(self@.dom().contains(self.entries@.last().0@));
        }
        n == 0
    }
}

/// The key and value that one line of the configuration sets, if any: blank
/// lines, lines whose first non-blank character is `#` and lines without `=`
/// set nothing; otherwise the key is what precedes the first `=` and the value
/// what follows it, both trimmed.
pub open spec fn config_entry(line: Seq<char>) -> Option<(Seq<char>, Seq<char>)> {
    let t = trim(line);
    if t.len() == 0 || t[0] == '#' {
        None
    } else {
        let k = seg_len(t, '=');
        if k < t.len() {
            Some((trim(t.take(k as int)), trim(t.skip(k + 1int))))
        } else {
            None
        }
    }
}

/// The map that a sequence of configuration lines sets, a later line for a key
/// replacing an earlier one.
pub open spec fn config_map_of_lines(ls: Seq<Seq<char>>) -> Map<Seq<char>, Seq<char>>
    decreases ls.len(),
{
    if ls.len() == 0 {
        Map::empty()
    } else {
        let m = config_map_of_lines(ls.drop_last());
        match config_entry(ls.last()) {
            Some(kv) => m.insert(kv.0, kv.1),
            None => m,
        }
    }
}

/// The map that the configuration text `s` sets.
pub open spec fn parsed_config(s: Seq<char>) -> Map<Seq<char>, Seq<char>> {
    config_map_of_lines(lines(s))
}

/// The key and value that one configuration line sets.
fn parse_config_line(line: &str) -> (r: Option<(String, String)>)
    ensures
        match r {
            Some(kv) => config_entry(line@) == Some((kv.0@, kv.1@)),
            None => config_entry(line@) is None,
        },
{
    let t = trim_str(line);
    let cs = chars_of(t.as_str());
    let n = cs.len();
    if n == 0 || cs[0] == '#' {
        return None;
    }
    let mut k: usize = 0;
    assert(cs@.skip(0) =~= cs@);
    while k < n && cs[k] != '='
        invariant
            k <= n == cs.len(),
            seg_len(cs@, '=') == k + seg_len(cs@.skip(k as int), '='),
        decreases n - k,
    {
        assert(cs@.skip(k as int).drop_first() =~= cs@.skip(k + 1));
        k = k + 1;
    }
    if k == n {
        return None;
    }
    assert(seg_len(cs@.skip(k as int), '=') == 0);
    let key = trim_str(t.as_str().substring_char(0, k));
    let value = trim_str(t.as_str().substring_char(k + 1, n));
    assert(cs@.subrange(0, k as int) =~= cs@.take(k as int));
    assert(cs@.subrange(k + 1, n as int) =~= cs@.skip(k + 1));
    Some((key, value))
}

/// Parse configuration text into a map from keys to values.
pub fn parse_config(contents: &str) -> (r: ConfigMap)
    ensures
        r@ == parsed_config(contents@),
{
    let ls = lines_of(contents);
    let mut map = ConfigMap::new();
    let mut i: usize = 0;
    while i < ls.len()
        invariant
            i <= ls.len(),
            views(ls@) == lines(contents@),
            map@ == config_map_of_lines(views(ls@).take(i as int)),
        decreases ls.len() - i,
    {
        let ghost pre = views(ls@).take(i as int);
        let ghost next = views(ls@).take(i + 1);
        assert(next.drop_last() =~= pre);
        assert(next.last() == ls@[i as int]@);
        match parse_config_line(ls[i].as_str()) {
            Some(kv) => {
                map.insert(kv.0, kv.1);
            },
            None => {},
        }
        i = i + 1;
    }
    assert(views(ls@).take(ls.len() as int) =~= views(ls@));
    map
}

/// A configuration as values: the real scdaemon's path, if one is set, the
/// alert sound and its volume.
pub struct ConfigView {
    pub scdaemon: Option<Seq<char>>,
    pub sound: Seq<char>,
    pub volume: Seq<char>,
}

#[derive(Debug, Clone, PartialEq, Eq)]
pub struct Config {
    pub scdaemon: Option<String>,
    pub sound: String,
    pub volume: String,
}

/// The view of an optional string.
pub open spec fn opt_view(o: Option<String>) -> Option<Seq<char>> {
    match o {
        Some(s) => Some(s@),
        None => None,
    }
}

impl View for Config {
    type V = ConfigView;

    open spec fn view(&self) -> ConfigView {
        ConfigView { scdaemon: opt_view(self.scdaemon), sound: self.sound@, volume: self.volume@ }
    }
}

/// The default configuration: no scdaemon path, the default sound and volume.
pub open spec fn default_config() -> ConfigView {
    ConfigView { scdaemon: None, sound: DEFAULT_SOUND@, volume: DEFAULT_VOLUME@ }
}

/// The configuration that a map of settings gives: an empty `scdaemon` value
/// counts as none, and a missing sound or volume takes its default.
pub open spec fn config_from_map(m: Map<Seq<char>, Seq<char>>) -> ConfigView {
    ConfigView {
        scdaemon: if m.contains_key("scdaemon"@) && m["scdaemon"@].len() > 0 {
            Some(m["scdaemon"@])
        } else {
            None
        },
        sound: if m.contains_key("sound"@) {
            m["sound"@]
        } else {
            DEFAULT_SOUND@
        },
        volume: if m.contains_key("volume"@) {
            m["volume"@]
        } else {
            DEFAULT_VOLUME@
        },
    }
}

/// The text that saving a configuration writes: one `key=value` line per
/// setting, each ended by a newline, the scdaemon line only when a path is set.
pub open spec fn serialized_config(c: ConfigView) -> Seq<char> {
    (match c.scdaemon {
        Some(p) => "scdaemon="@ + p + "\n"@,
        None => Seq::empty(),
    }) + "sound="@ + c.sound + "\n"@ + "volume="@ + c.volume + "\n"@
}

impl Default for Config {
    fn default() -> (r: Config)
        ensures
            r@ == default_config(),
    {
        Config {
            scdaemon: None,
            sound: String::from_str(DEFAULT_SOUND),
            volume: String::from_str(DEFAULT_VOLUME),
        }
    }
}

impl Config {
    /// The configuration that a map of settings gives.
    pub fn from_map(map: &ConfigMap) -> (r: Config)
        ensures
            r@ == config_from_map(map@),
    {
        let scdaemon = match map.get("scdaemon") {
            Some(s) => {
                if s.as_str().unicode_len() > 0 {
                    Some(s.clone())
                } else {
                    None
                }
            },
            None => None,
        };
        let sound = match map.get("sound") {
            Some(s) => s.clone(),
            None => String::from_str(DEFAULT_SOUND),
        };
        let volume = match map.get("volume") {
            Some(s) => s.clone(),
            None => String::from_str(DEFAULT_VOLUME),
        };
        Config { scdaemon, sound, volume }
    }

    /// The configuration read from the text of a configuration file, or the
    /// defaults when there is no file to read (`None`).
    pub fn from_contents(contents: Option<&str>) -> (r: Config)
        ensures
            r@ == config_from_map(
                match contents {
                    Some(c) => parsed_config(c@),
                    None => Map::empty(),
                },
            ),
    {
        let map = match contents {
            Some(c) => parse_config(c),
            None => ConfigMap::new(),
        };
        Config::from_map(&map)
    }

    /// The text of the configuration file for this configuration.
    pub fn serialize(&self) -> (r: String)
        ensures
            r@ == serialized_config(self@),
    {
        let mut out = String::new();
        match &self.scdaemon {
            Some(scd) => {
                out.append("scdaemon=");
                out.append(scd.as_str());
                out.append("\n");
            },
            None => {},
        }
        out.append("sound=");
        out.append(self.sound.as_str());
        out.append("\n");
        out.append("volume=");
        out.append(self.volume.as_str());
        out.append("\n");
        out
    }
}

/// A value that a configuration file can hold unchanged: no line break in it,
/// and no whitespace at either end (reading the file trims values).
pub open spec fn clean_value(v: Seq<char>) -> bool {
    &&& !v.contains('\n')
    &&& v.len() > 0 ==> !is_ws(v[0]) && !is_ws(v.last())
}

/// The settings that a configuration file for `c` holds.
pub open spec fn config_settings(c: ConfigView) -> Map<Seq<char>, Seq<char>> {
    let m = match c.scdaemon {
        Some(p) => Map::<Seq<char>, Seq<char>>::empty().insert("scdaemon"@, p),
        None => Map::<Seq<char>, Seq<char>>::empty(),
    };
    m.insert("sound"@, c.sound).insert("volume"@, c.volume)
}

/// A `key=value` line with a clean key and value sets that key to that value.
proof fn lemma_setting_line(key: Seq<char>, v: Seq<char>)
    requires
        key.len() > 0,
        !key.contains('='),
        !key.contains('\n'),
        !is_ws(key[0]),
        key[0] != '#',
        !is_ws(key.last()),
        clean_value(v),
    ensures
        config_entry(key + "="@ + v) == Some((key, v)),
        !(key + "="@ + v).contains('\n'),
        strip_cr(key + "="@ + v) == key + "="@ + v,
{
    reveal_strlit("=");
    let line = key + "="@ + v;
    assert(line =~= key + seq!['='] + v);
    assert(line[0] == key[0]);
    if v.len() > 0 {
        assert(line.last() == v.last());
    } else {
        assert(line.last() == '=');
    }
    lemma_trim_unchanged(line);
    lemma_seg_len_concat(key, '=', v);
    assert(line.take(key.len() as int) =~= key);
    assert(line.skip(key.len() + 1int) =~= v);
    lemma_trim_unchanged(key);
    if v.len() > 0 {
        lemma_trim_unchanged(v);
    }
    assert(!line.contains('\n')) by {
        if line.contains('\n') {
            let j = choose|j: int| 0 <= j < line.len() && line[j] == '\n';
            if j < key.len() {
                assert(key[j] == '\n');
            } else if j > key.len() {
                assert(v[j - key.len() - 1] == '\n');
            }
        }
    }
}

/// Reading back a saved configuration gives the settings that were saved,
/// when each saved value is clean.
pub proof fn lemma_serialized_config_parses(c: ConfigView)
    requires
        clean_value(c.sound),
        clean_value(c.volume),
        c.scdaemon matches Some(p) ==> clean_value(p),
    ensures
        parsed_config(serialized_config(c)) == config_settings(c),
{
    reveal_strlit("scdaemon");
    reveal_strlit("sound");
    reveal_strlit("volume");
    reveal_strlit("scdaemon=");
    reveal_strlit("sound=");
    reveal_strlit("volume=");
    reveal_strlit("=");
    reveal_strlit("\n");
    assert("scdaemon="@ =~= "scdaemon"@ + "="@);
    assert("sound="@ =~= "sound"@ + "="@);
    assert("volume="@ =~= "volume"@ + "="@);
    assert(!"scdaemon"@.contains('=') && !"scdaemon"@.contains('\n')) by {
        assert(forall|j: int| 0 <= j < "scdaemon"@.len() ==> "scdaemon"@[j] != '=' && "scdaemon"@[j] != '\n');
    }
    assert(!"sound"@.contains('=') && !"sound"@.contains('\n')) by {
        assert(forall|j: int| 0 <= j < "sound"@.len() ==> "sound"@[j] != '=' && "sound"@[j] != '\n');
    }
    assert(!"volume"@.contains('=') && !"volume"@.contains('\n')) by {
        assert(forall|j: int| 0 <= j < "volume"@.len() ==> "volume"@[j] != '=' && "volume"@[j] != '\n');
    }
    let l1 = "sound"@ + "="@ + c.sound;
    let l2 = "volume"@ + "="@ + c.volume;
    lemma_setting_line("sound"@, c.sound);
    lemma_setting_line("volume"@, c.volume);
    let tail = l1 + "\n"@ + (l2 + "\n"@ + Seq::<char>::empty());
    lemma_lines_cons(l2, Seq::<char>::empty());
    lemma_lines_cons(l1, l2 + "\n"@ + Seq::<char>::empty());
    assert(lines(Seq::<char>::empty()) =~= Seq::<Seq<char>>::empty());
    assert(lines(tail) =~= seq![l1, l2]);
    let m0 = match c.scdaemon {
        Some(p) => Map::<Seq<char>, Seq<char>>::empty().insert("scdaemon"@, p),
        None => Map::<Seq<char>, Seq<char>>::empty(),
    };
    assert(config_map_of_lines(Seq::<Seq<char>>::empty()) == Map::<Seq<char>, Seq<char>>::empty());
    match c.scdaemon {
        Some(p) => {
            let l0 = "scdaemon"@ + "="@ + p;
            lemma_setting_line("scdaemon"@, p);
            lemma_lines_cons(l0, tail);
            let rest = "sound="@ + c.sound + "\n"@ + "volume="@ + c.volume + "\n"@;
            assert(rest =~= tail);
            assert(serialized_config(c) == "scdaemon="@ + p + "\n"@ + rest);
            assert(serialized_config(c) =~= l0 + "\n"@ + tail);
            let ls = seq![l0, l1, l2];
            assert(lines(serialized_config(c)) =~= ls);
            assert(ls.drop_last() =~= seq![l0, l1]);
            assert(ls.drop_last().drop_last() =~= seq![l0]);
            assert(ls.drop_last().drop_last().drop_last() =~= Seq::<Seq<char>>::empty());
            assert(ls.last() == l2 && ls.drop_last().last() == l1);
            assert(ls.drop_last().drop_last().last() == l0);
            assert(seq![l0].drop_last() =~= Seq::<Seq<char>>::empty());
            assert(seq![l0].last() == l0);
            assert(config_map_of_lines(seq![l0]) =~= m0);
            assert(config_map_of_lines(seq![l0, l1]) =~= m0.insert("sound"@, c.sound));
        },
        None => {
            assert(serialized_config(c) =~= tail);
            let ls = seq![l1, l2];
            assert(ls.drop_last() =~= seq![l1]);
            assert(ls.drop_last().drop_last() =~= Seq::<Seq<char>>::empty());
            assert(ls.last() == l2 && ls.drop_last().last() == l1);
            assert(seq![l1].drop_last() =~= Seq::<Seq<char>>::empty());
            assert(seq![l1].last() == l1);
            assert(config_map_of_lines(seq![l1]) =~= m0.insert("sound"@, c.sound));
        },
    }
    assert(parsed_config(serialized_config(c)) =~= config_settings(c));
}

/// Saving a configuration and loading it again gives the same configuration,
/// when each value is clean and a set scdaemon path is not empty.
pub proof fn lemma_config_round_trip(c: ConfigView)
    requires
        clean_value(c.sound),
        clean_value(c.volume),
        c.scdaemon matches Some(p) ==> clean_value(p) && p.len() > 0,
    ensures
        config_from_map(parsed_config(serialized_config(c))) == c,
{
    lemma_serialized_config_parses(c);
    reveal_strlit("scdaemon");
    reveal_strlit("sound");
    reveal_strlit("volume");
    assert("scdaemon"@ != "sound"@ && "scdaemon"@ != "volume"@ && "sound"@ != "volume"@) by {
        assert("scdaemon"@.len() != "sound"@.len());
        assert("scdaemon"@.len() != "volume"@.len());
        assert("sound"@[0] != "volume"@[0]);
    }
}

/// Without a configuration file, the configuration is the default one.
pub proof fn lemma_no_file_gives_default()
    ensures
        config_from_map(Map::empty()) == default_config(),
{
}

} // verus!
