//! The settings that are kept between runs: a text file of `key=value` lines.

use crate::config::{device_token, EncodeDevice};
use crate::text::{
    before, decimal, lemma_before_asymmetric, lemma_before_total, lemma_before_transitive, number,
    trimmed,
};
use crate::text;
use vstd::prelude::*;

verus! {

/// The key of the HTTP port.
pub const PORT_KEY: &'static str = "port";

/// The key of the audio offset.
pub const OFFSET_KEY: &'static str = "av_offset_ms";

/// The key of the encode device.
pub const DEVICE_KEY: &'static str = "encode_device";

/// The key of the token that restores a screen share.
pub const TOKEN_KEY: &'static str = "screencast_token";

/// What is said when there is no directory for the settings.
pub const NO_DIRECTORY: &'static str = "no config directory available";

/// The name of the settings file.
pub const FILE_NAME: &'static str = "settings.txt";

/// The name of the file that is written before it takes the place of the settings file.
pub const TEMPORARY_NAME: &'static str = "settings.txt.tmp";

/// The environment variable below which the settings lie.
#[derive(Clone, Copy, Debug, PartialEq, Eq, Structural)]
pub enum ConfigBase {
    /// `APPDATA`.
    AppData,
    /// `XDG_CONFIG_HOME`.
    XdgConfigHome,
    /// `.config` below `HOME`.
    HomeConfig,
}

/// Where the settings lie.
pub open spec fn base_of(windows: bool, app_data: bool, xdg: bool, home: bool) -> Option<ConfigBase> {
    if windows {
        if app_data {
            Some(ConfigBase::AppData)
        } else {
            None
        }
    } else if xdg {
        Some(ConfigBase::XdgConfigHome)
    } else if home {
        Some(ConfigBase::HomeConfig)
    } else {
        None
    }
}

/// Where the settings lie, given which environment variables are set.
pub fn config_base(windows: bool, app_data: bool, xdg: bool, home: bool) -> (r: Option<ConfigBase>)
    ensures
        r == base_of(windows, app_data, xdg, home),
{
    if windows {
        if app_data {
            Some(ConfigBase::AppData)
        } else {
            None
        }
    } else if xdg {
        Some(ConfigBase::XdgConfigHome)
    } else if home {
        Some(ConfigBase::HomeConfig)
    } else {
        None
    }
}

/// The directory of the settings below the configuration directory.
pub fn directory_name(windows: bool) -> (r: &'static str)
    ensures
        r@ == (if windows {
            "Newfoundsync"@
        } else {
            "newfoundsync"@
        }),
{
    if windows {
        "Newfoundsync"
    } else {
        "newfoundsync"
    }
}

/// A key and its value.
pub type Pair = (Seq<char>, Seq<char>);

/// Where `c` first stands in `s`, the length of `s` where it does not.
pub open spec fn first_of(s: Seq<char>, c: char) -> int
    decreases s.len(),
{
    if s.len() == 0 || s[0] == c {
        0
    } else {
        1 + first_of(s.skip(1), c)
    }
}

/// `m` with what a line states.
pub open spec fn with_line(m: Map<Seq<char>, Seq<char>>, line: Seq<char>) -> Map<
    Seq<char>,
    Seq<char>,
> {
    let e = first_of(line, '=');
    if e < line.len() {
        m.insert(trimmed(line.take(e)), trimmed(line.skip(e + 1)))
    } else {
        m
    }
}

/// `m` with what the lines of a text state, one after the other.
pub open spec fn with_lines(m: Map<Seq<char>, Seq<char>>, t: Seq<char>) -> Map<
    Seq<char>,
    Seq<char>,
>
    decreases t.len(),
{
    let e = first_of(t, '\n');
    if 0 <= e < t.len() {
        with_lines(with_line(m, t.take(e)), t.skip(e + 1))
    } else {
        with_line(m, t)
    }
}

/// What a settings file states. Of two lines with the same key the later one counts, and a line
/// without an equals sign states nothing.
pub open spec fn stored(t: Seq<char>) -> Map<Seq<char>, Seq<char>> {
    with_lines(Map::empty(), t)
}

/// The lines of a settings file.
pub open spec fn rendered(p: Seq<Pair>) -> Seq<char>
    decreases p.len(),
{
    if p.len() == 0 {
        Seq::empty()
    } else {
        p[0].0 + seq!['='] + p[0].1 + seq!['\n'] + rendered(p.skip(1))
    }
}

/// Whether the keys are in order, each of them once.
pub open spec fn in_order(p: Seq<Pair>) -> bool {
    forall|i: int, j: int| 0 <= i < j < p.len() ==> before(#[trigger] p[i].0, #[trigger] p[j].0)
}

/// Whether `key` stands in the list.
pub open spec fn has_key(p: Seq<Pair>, key: Seq<char>) -> bool {
    exists|i: int| 0 <= i < p.len() && (#[trigger] p[i]).0 == key
}

/// Where `key` stands in the list.
pub open spec fn place_of(p: Seq<Pair>, key: Seq<char>) -> int {
    choose|i: int| 0 <= i < p.len() && (#[trigger] p[i]).0 == key
}

/// The value of `key` in the list.
pub open spec fn value_of(p: Seq<Pair>, key: Seq<char>) -> Seq<char> {
    p[place_of(p, key)].1
}

/// What a list of settings states.
pub open spec fn as_map(p: Seq<Pair>) -> Map<Seq<char>, Seq<char>> {
    Map::new(|key: Seq<char>| has_key(p, key), |key: Seq<char>| value_of(p, key))
}

/// Whether a key and its value stand on one line and are read as they are written.
pub open spec fn is_plain(pair: Pair) -> bool {
    &&& !pair.0.contains('=')
    &&& !pair.0.contains('\n')
    &&& !pair.1.contains('\n')
    &&& trimmed(pair.0) == pair.0
    &&& trimmed(pair.1) == pair.1
}

/// Whether everything in `m` is read as it is written.
pub open spec fn all_plain(m: Map<Seq<char>, Seq<char>>) -> bool {
    forall|key: Seq<char>| #[trigger] m.dom().contains(key) ==> is_plain((key, m[key]))
}

proof fn lemma_first_of(s: Seq<char>, c: char)
    ensures
        0 <= first_of(s, c) <= s.len(),
        first_of(s, c) < s.len() ==> s[first_of(s, c)] == c,
        forall|i: int| 0 <= i < first_of(s, c) ==> #[trigger] s[i] != c,
    decreases s.len(),
{
    if s.len() > 0 && s[0] != c {
        lemma_first_of(s.skip(1), c);
        assert forall|i: int| 0 <= i < first_of(s, c) implies #[trigger] s[i] != c by {
            if i > 0 {
                assert(s[i] == s.skip(1)[i - 1]);
            }
        }
    }
}

proof fn lemma_first_is(s: Seq<char>, c: char, at: int)
    requires
        0 <= at <= s.len(),
        at < s.len() ==> s[at] == c,
        forall|i: int| 0 <= i < at ==> #[trigger] s[i] != c,
    ensures
        first_of(s, c) == at,
{
    lemma_first_of(s, c);
}

proof fn lemma_one_index(p: Seq<Pair>, i: int)
    requires
        in_order(p),
        0 <= i < p.len(),
    ensures
        as_map(p).dom().contains(p[i].0),
        as_map(p)[p[i].0] == p[i].1,
{
    let key = p[i].0;
    assert(has_key(p, key));
    let j = place_of(p, key);
    if i < j {
        lemma_before_asymmetric(p[i].0, p[j].0);
    } else if j < i {
        lemma_before_asymmetric(p[j].0, p[i].0);
    }
}

proof fn lemma_first_pair(p: Seq<Pair>)
    requires
        in_order(p),
        p.len() > 0,
    ensures
        in_order(p.skip(1)),
        !has_key(p.skip(1), p[0].0),
        as_map(p) == as_map(p.skip(1)).insert(p[0].0, p[0].1),
        as_map(p.skip(1)) == as_map(p).remove(p[0].0),
{
    let q = p.skip(1);
    assert forall|i: int, j: int| 0 <= i < j < q.len() implies before(
        #[trigger] q[i].0,
        #[trigger] q[j].0,
    ) by {
        assert(before(p[i + 1].0, p[j + 1].0));
    }
    if has_key(q, p[0].0) {
        let i = choose|i: int| 0 <= i < q.len() && (#[trigger] q[i]).0 == p[0].0;
        assert(before(p[0].0, p[i + 1].0));
        lemma_before_asymmetric(p[0].0, p[0].0);
    }
    let whole = as_map(p);
    let built = as_map(q).insert(p[0].0, p[0].1);
    assert forall|key: Seq<char>|
        #![trigger whole.dom().contains(key)]
        #![trigger built.dom().contains(key)]
        #![trigger whole[key]]
        whole.dom().contains(key) == built.dom().contains(key) && (whole.dom().contains(key)
            ==> whole[key]
            == built[key]) by {
        if has_key(p, key) {
            let i = choose|i: int| 0 <= i < p.len() && (#[trigger] p[i]).0 == key;
            lemma_one_index(p, i);
            if i > 0 {
                assert(q[i - 1] == p[i]);
                lemma_one_index(q, i - 1);
            }
        }
        if has_key(q, key) {
            let i = choose|i: int| 0 <= i < q.len() && (#[trigger] q[i]).0 == key;
            assert(p[i + 1] == q[i]);
        }
    }
    assert(whole =~= built);
    assert(as_map(q) =~= whole.remove(p[0].0));
}

/// There is one list of what a settings file states: two lists in order that state the same are
/// the same.
pub proof fn law_one_listing(p: Seq<Pair>, q: Seq<Pair>)
    requires
        in_order(p),
        in_order(q),
        as_map(p) == as_map(q),
    ensures
        p == q,
    decreases p.len(),
{
    if p.len() == 0 {
        if q.len() > 0 {
            lemma_one_index(q, 0);
            assert(has_key(p, q[0].0));
        }
        assert(p =~= q);
    } else {
        lemma_one_index(p, 0);
        assert(has_key(q, p[0].0));
        let j = choose|j: int| 0 <= j < q.len() && (#[trigger] q[j]).0 == p[0].0;
        lemma_one_index(q, 0);
        assert(has_key(p, q[0].0));
        let i = choose|i: int| 0 <= i < p.len() && (#[trigger] p[i]).0 == q[0].0;
        if j > 0 {
            assert(before(q[0].0, q[j].0));
            if i > 0 {
                assert(before(p[0].0, p[i].0));
            }
            lemma_before_asymmetric(q[0].0, p[0].0);
        }
        lemma_first_pair(p);
        lemma_first_pair(q);
        law_one_listing(p.skip(1), q.skip(1));
        assert(p =~= seq![p[0]] + p.skip(1));
        assert(q =~= seq![q[0]] + q.skip(1));
    }
}

proof fn lemma_line_read(m: Map<Seq<char>, Seq<char>>, pair: Pair, rest: Seq<char>)
    requires
        is_plain(pair),
    ensures
        with_lines(m, pair.0 + seq!['='] + pair.1 + seq!['\n'] + rest) == with_lines(
            m.insert(pair.0, pair.1),
            rest,
        ),
{
    let line = pair.0 + seq!['='] + pair.1;
    let t = line + seq!['\n'] + rest;
    assert forall|i: int| 0 <= i < line.len() implies #[trigger] t[i] != '\n' by {
        if i < pair.0.len() {
            assert(t[i] == pair.0[i]);
        } else if i > pair.0.len() {
            assert(t[i] == pair.1[i - pair.0.len() - 1]);
        }
    }
    lemma_first_is(t, '\n', line.len() as int);
    assert(t.take(line.len() as int) =~= line);
    assert(t.skip(line.len() as int + 1) =~= rest);
    assert forall|i: int| 0 <= i < pair.0.len() implies #[trigger] line[i] != '=' by {
        assert(line[i] == pair.0[i]);
    }
    lemma_first_is(line, '=', pair.0.len() as int);
    assert(line.take(pair.0.len() as int) =~= pair.0);
    assert(line.skip(pair.0.len() as int + 1) =~= pair.1);
}

proof fn lemma_rendered_read(m: Map<Seq<char>, Seq<char>>, p: Seq<Pair>)
    requires
        in_order(p),
        all_plain(as_map(p)),
    ensures
        with_lines(m, rendered(p)) == m.union_prefer_right(as_map(p)),
    decreases p.len(),
{
    if p.len() == 0 {
        lemma_first_of(rendered(p), '\n');
        lemma_first_of(rendered(p), '=');
        assert(m.union_prefer_right(as_map(p)) =~= m);
    } else {
        lemma_one_index(p, 0);
        lemma_first_pair(p);
        assert forall|key: Seq<char>| #[trigger]
            as_map(p.skip(1)).dom().contains(key) implies is_plain((key, as_map(p.skip(1))[key])) by {
            assert(as_map(p).dom().contains(key));
        }
        lemma_rendered_read(m.insert(p[0].0, p[0].1), p.skip(1));
        lemma_line_read(m, p[0], rendered(p.skip(1)));
        assert(m.insert(p[0].0, p[0].1).union_prefer_right(as_map(p.skip(1)))
            =~= m.union_prefer_right(as_map(p)));
    }
}

/// What is written to a settings file is read back from it.
pub proof fn law_settings_read_back(p: Seq<Pair>)
    requires
        in_order(p),
        all_plain(as_map(p)),
    ensures
        stored(rendered(p)) == as_map(p),
{
    lemma_rendered_read(Map::empty(), p);
    assert(Map::<Seq<char>, Seq<char>>::empty().union_prefer_right(as_map(p)) =~= as_map(p));
}

proof fn lemma_trimmed_front(s: Seq<char>)
    ensures
        text::trimmed_front(text::trimmed_front(s)) == text::trimmed_front(s),
        text::trimmed_front(s).is_suffix_of(s),
        text::trimmed_front(s).len() > 0 ==> !text::is_white_space(text::trimmed_front(s)[0]),
    decreases s.len(),
{
    if s.len() > 0 && text::is_white_space(s[0]) {
        lemma_trimmed_front(s.skip(1));
    }
}

proof fn lemma_trimmed_back(s: Seq<char>)
    ensures
        text::trimmed_back(text::trimmed_back(s)) == text::trimmed_back(s),
        text::trimmed_back(s).is_prefix_of(s),
        text::trimmed_back(s).len() > 0 ==> text::trimmed_back(s)[0] == s[0],
    decreases s.len(),
{
    if s.len() > 0 && text::is_white_space(s.last()) {
        lemma_trimmed_back(s.drop_last());
    }
}

proof fn lemma_trimmed(s: Seq<char>, c: char)
    ensures
        trimmed(trimmed(s)) == trimmed(s),
        !s.contains(c) ==> !trimmed(s).contains(c),
{
    let f = text::trimmed_front(s);
    lemma_trimmed_front(s);
    lemma_trimmed_back(f);
    let b = trimmed(s);
    assert(text::trimmed_front(b) == b);
    if !s.contains(c) && b.contains(c) {
        let i = choose|i: int| 0 <= i < b.len() && b[i] == c;
        assert(f[i] == c);
        assert(s[s.len() - f.len() + i] == c);
    }
}

proof fn lemma_lines_plain(m: Map<Seq<char>, Seq<char>>, t: Seq<char>)
    requires
        all_plain(m),
    ensures
        all_plain(with_lines(m, t)),
    decreases t.len(),
{
    lemma_first_of(t, '\n');
    let e = first_of(t, '\n');
    let line = t.take(e);
    assert(!line.contains('\n'));
    let k = first_of(line, '=');
    lemma_first_of(line, '=');
    if k < line.len() {
        assert(!line.take(k).contains('='));
        assert(!line.take(k).contains('\n')) by {
            assert forall|i: int| 0 <= i < k implies line.take(k)[i] != '\n' by {
                assert(line.take(k)[i] == line[i]);
            }
        }
        assert(!line.skip(k + 1).contains('\n')) by {
            let tail = line.skip(k + 1);
            assert forall|i: int| 0 <= i < tail.len() implies #[trigger] tail[i] != '\n' by {
                assert(tail[i] == line[i + k + 1]);
            }
        }
        lemma_trimmed(line.take(k), '=');
        lemma_trimmed(line.take(k), '\n');
        lemma_trimmed(line.skip(k + 1), '\n');
    }
    assert(all_plain(with_line(m, line)));
    if e < t.len() {
        lemma_lines_plain(with_line(m, line), t.skip(e + 1));
    } else {
        assert(line =~= t);
    }
}

/// Whatever a settings file holds, what it states can be written and read again.
pub proof fn law_stored_is_plain(t: Seq<char>)
    ensures
        all_plain(stored(t)),
{
    lemma_lines_plain(Map::empty(), t);
}

/// One setting.
pub struct Entry {
    /// Its key.
    pub key: String,
    /// Its value.
    pub value: String,
}

/// The settings, in the order of their keys.
pub struct Settings {
    /// Each setting once.
    pub entries: Vec<Entry>,
}

/// The keys and values of entries.
pub open spec fn pairs_of(e: Seq<Entry>) -> Seq<Pair> {
    e.map_values(|x: Entry| (x.key@, x.value@))
}

impl View for Settings {
    type V = Map<Seq<char>, Seq<char>>;

    open spec fn view(&self) -> Map<Seq<char>, Seq<char>> {
        as_map(pairs_of(self.entries@))
    }
}

fn index_of(v: &Vec<char>, from: usize, to: usize, c: char) -> (r: usize)
    requires
        from <= to <= v@.len(),
    ensures
        from <= r <= to,
        r - from == first_of(v@.subrange(from as int, to as int), c),
{
    let mut i: usize = from;
    let ghost s = v@.subrange(from as int, to as int);
    while i < to && v[i] != c
        invariant
            from <= i <= to <= v@.len(),
            s == v@.subrange(from as int, to as int),
            forall|k: int| 0 <= k < i - from ==> #[trigger] s[k] != c,
        decreases to - i,
    {
        i += 1;
    }
    proof {
        lemma_first_is(s, c, i - from);
    }
    i
}

impl Settings {
    /// The keys are in order, each of them once.
    pub open spec fn wf(&self) -> bool {
        in_order(pairs_of(self.entries@))
    }

    /// No settings.
    pub fn new() -> (s: Settings)
        ensures
            s.wf(),
            s@ == Map::<Seq<char>, Seq<char>>::empty(),
    {
        let s = Settings { entries: Vec::new() };
        assert(s@ =~= Map::<Seq<char>, Seq<char>>::empty());
        s
    }

    /// Where `key` stands or would stand.
    fn place(&self, key: &str) -> (r: usize)
        requires
            self.wf(),
        ensures
            r <= self.entries@.len(),
            forall|i: int| 0 <= i < r ==> before(#[trigger] self.entries@[i].key@, key@),
            r < self.entries@.len() ==> !before(self.entries@[r as int].key@, key@),
    {
        let mut i: usize = 0;
        while i < self.entries.len() && text::comes_before(self.entries[i].key.as_str(), key)
            invariant
                i <= self.entries@.len(),
                forall|k: int| 0 <= k < i ==> before(#[trigger] self.entries@[k].key@, key@),
            decreases self.entries@.len() - i,
        {
            i += 1;
        }
        i
    }

    /// The value of `key`.
    pub fn get(&self, key: &str) -> (r: Option<&String>)
        requires
            self.wf(),
        ensures
            match r {
                Some(v) => self@.dom().contains(key@) && self@[key@] == v@,
                None => !self@.dom().contains(key@),
            },
    {
        let ghost p = pairs_of(self.entries@);
        let at = self.place(key);
        if at < self.entries.len() && text::same_text(self.entries[at].key.as_str(), key) {
            proof {
                assert(p[at as int].0 == key@);
                lemma_one_index(p, at as int);
            }
            Some(&self.entries[at].value)
        } else {
            proof {
                if has_key(p, key@) {
                    let i = choose|i: int| 0 <= i < p.len() && (#[trigger] p[i]).0 == key@;
                    assert(p[i].0 == self.entries@[i].key@);
                    lemma_before_asymmetric(key@, key@);
                    assert(i > at);
                    assert(before(p[at as int].0, p[i].0));
                }
            }
            None
        }
    }

    /// Gives `key` a value, and leaves the other keys as they are.
    pub fn set(&mut self, key: String, value: String)
        requires
            old(self).wf(),
        ensures
            final(self).wf(),
            final(self)@ == old(self)@.insert(key@, value@),
    {
        let ghost p = pairs_of(self.entries@);
        let ghost k = key@;
        let ghost v = value@;
        let at = self.place(key.as_str());
        if at < self.entries.len() && text::same_text(self.entries[at].key.as_str(), key.as_str()) {
            self.entries.set(at, Entry { key, value });
            proof {
                let q = pairs_of(self.entries@);
                assert(q =~= p.update(at as int, (k, v)));
                assert(p[at as int].0 == k);
                assert forall|i: int, j: int| 0 <= i < j < q.len() implies before(
                    #[trigger] q[i].0,
                    #[trigger] q[j].0,
                ) by {
                    assert(before(p[i].0, p[j].0));
                }
                lemma_changed(p, q, at as int, k, v);
            }
        } else {
            let ghost e = self.entries@;
            self.entries.insert(at, Entry { key, value });
            proof {
                let q = pairs_of(self.entries@);
                assert(q =~= p.insert(at as int, (k, v)));
                lemma_inserted(p, q, at as int, k, v);
            }
        }
    }

    /// Reads a settings file.
    pub fn parse(t: &str) -> (s: Settings)
        ensures
            s.wf(),
            s@ == stored(t@),
    {
        let v = text::chars_of(t);
        let mut s = Settings::new();
        let mut from: usize = 0;
        let len: usize = v.len();
        assert(t@.skip(0) =~= t@);
        loop
            invariant
                v@ == t@,
                len == v@.len(),
                from <= len,
                s.wf(),
                with_lines(s@, t@.skip(from as int)) == stored(t@),
            ensures
                s.wf(),
                s@ == stored(t@),
            decreases len - from,
        {
            let ghost rest = t@.skip(from as int);
            assert(v@.subrange(from as int, len as int) =~= rest);
            let end = index_of(&v, from, len, '\n');
            let ghost line = t@.subrange(from as int, end as int);
            assert(rest.take(end - from) =~= line);
            assert(v@.subrange(from as int, end as int) =~= line);
            let sign = index_of(&v, from, end, '=');
            if sign < end {
                let k = text::string_of(v.as_slice(), from, sign);
                let w = text::string_of(v.as_slice(), sign + 1, end);
                assert(line.take(sign - from) =~= k@);
                assert(line.skip(sign - from + 1) =~= w@);
                s.set(text::trim(k.as_str()), text::trim(w.as_str()));
            }
            if end == len {
                assert(rest =~= line);
                break;
            }
            assert(rest.skip(end - from + 1) =~= t@.skip(end + 1));
            from = end + 1;
        }
        s
    }

    /// The text of the settings file.
    pub fn text(&self) -> (t: String)
        requires
            self.wf(),
        ensures
            t@ == rendered(pairs_of(self.entries@)),
            all_plain(self@) ==> stored(t@) == self@,
    {
        let ghost p = pairs_of(self.entries@);
        let mut t = String::new();
        let mut i: usize = 0;
        assert(p.skip(0) =~= p);
        assert(t@ + rendered(p) =~= rendered(p));
        while i < self.entries.len()
            invariant
                i <= self.entries@.len(),
                p == pairs_of(self.entries@),
                t@ + rendered(p.skip(i as int)) == rendered(p),
            decreases self.entries@.len() - i,
        {
            let ghost done = t@;
            let ghost here = p.skip(i as int);
            assert(here[0] == p[i as int]);
            assert(here.skip(1) =~= p.skip(i + 1));
            t.append(self.entries[i].key.as_str());
            t.append("=");
            t.append(self.entries[i].value.as_str());
            t.append("\n");
            proof {
                reveal_strlit("=");
                reveal_strlit("\n");
                assert(t@ =~= done + here[0].0 + seq!['='] + here[0].1 + seq!['\n']);
                assert(t@ + rendered(here.skip(1)) =~= done + rendered(here));
            }
            i += 1;
        }
        assert(p.skip(i as int) =~= Seq::empty());
        assert(t@ =~= t@ + rendered(p.skip(i as int)));
        proof {
            if all_plain(self@) {
                law_settings_read_back(p);
            }
        }
        t
    }
}

proof fn lemma_changed(p: Seq<Pair>, q: Seq<Pair>, at: int, k: Seq<char>, v: Seq<char>)
    requires
        in_order(p),
        in_order(q),
        0 <= at < p.len(),
        p[at].0 == k,
        q == p.update(at, (k, v)),
    ensures
        as_map(q) == as_map(p).insert(k, v),
{
    let x = as_map(q);
    let y = as_map(p).insert(k, v);
    lemma_one_index(q, at);
    assert forall|key: Seq<char>|
        #![trigger x.dom().contains(key)]
        #![trigger y.dom().contains(key)]
        #![trigger x[key]]
        x.dom().contains(key) == y.dom().contains(key) && (x.dom().contains(key) ==> x[key]
            == y[key]) by {
        if has_key(p, key) {
            let i = choose|i: int| 0 <= i < p.len() && (#[trigger] p[i]).0 == key;
            assert(q[i].0 == key);
            lemma_one_index(p, i);
            lemma_one_index(q, i);
            if i != at && key == k {
                lemma_before_asymmetric(k, k);
                if i < at {
                    assert(before(p[i].0, p[at].0));
                } else {
                    assert(before(p[at].0, p[i].0));
                }
            }
        }
        if has_key(q, key) {
            let i = choose|i: int| 0 <= i < q.len() && (#[trigger] q[i]).0 == key;
            assert(p[i].0 == key);
        }
    }
    assert(x =~= y);
}

proof fn lemma_inserted(p: Seq<Pair>, q: Seq<Pair>, at: int, k: Seq<char>, v: Seq<char>)
    requires
        in_order(p),
        0 <= at <= p.len(),
        forall|i: int| 0 <= i < at ==> before(#[trigger] p[i].0, k),
        at < p.len() ==> !before(p[at].0, k) && p[at].0 != k,
        q == p.insert(at, (k, v)),
    ensures
        in_order(q),
        as_map(q) == as_map(p).insert(k, v),
{
    assert forall|i: int| at <= i < p.len() implies before(k, #[trigger] p[i].0) by {
        lemma_before_total(p[at].0, k);
        if i > at {
            assert(before(p[at].0, p[i].0));
            lemma_before_transitive(k, p[at].0, p[i].0);
        }
    }
    assert forall|i: int, j: int| 0 <= i < j < q.len() implies before(
        #[trigger] q[i].0,
        #[trigger] q[j].0,
    ) by {
        let a = if i < at {
            i
        } else {
            i - 1
        };
        let b = if j < at {
            j
        } else {
            j - 1
        };
        if i == at {
            assert(q[j] == p[b]);
        } else if j == at {
            assert(q[i] == p[a]);
        } else {
            assert(q[i] == p[a]);
            assert(q[j] == p[b]);
            assert(before(p[a].0, p[b].0));
        }
    }
    let x = as_map(q);
    let y = as_map(p).insert(k, v);
    lemma_one_index(q, at);
    assert(q[at] == (k, v));
    assert forall|key: Seq<char>|
        #![trigger x.dom().contains(key)]
        #![trigger y.dom().contains(key)]
        #![trigger x[key]]
        x.dom().contains(key) == y.dom().contains(key) && (x.dom().contains(key) ==> x[key]
            == y[key]) by {
        if has_key(p, key) {
            let i = choose|i: int| 0 <= i < p.len() && (#[trigger] p[i]).0 == key;
            lemma_one_index(p, i);
            if i < at {
                assert(q[i] == p[i]);
                lemma_one_index(q, i);
                if key == k {
                    lemma_before_asymmetric(k, k);
                }
            } else {
                assert(q[i + 1] == p[i]);
                lemma_one_index(q, i + 1);
                if key == k {
                    lemma_before_asymmetric(k, k);
                }
            }
        }
        if has_key(q, key) {
            let i = choose|i: int| 0 <= i < q.len() && (#[trigger] q[i]).0 == key;
            if i < at {
                assert(p[i] == q[i]);
            } else if i > at {
                assert(p[i - 1] == q[i]);
            }
        }
    }
    assert(x =~= y);
}

/// Whether `t` lists what `m` states, in the order of the keys.
pub open spec fn lists(t: Seq<char>, m: Map<Seq<char>, Seq<char>>) -> bool {
    exists|p: Seq<Pair>| in_order(p) && as_map(p) == m && t == #[trigger] rendered(p)
}

/// A settings file with one key set and every other key kept.
pub fn save_key(t: &str, key: &str, value: &str) -> (r: String)
    ensures
        lists(r@, stored(t@).insert(key@, value@)),
        is_plain((key@, value@)) ==> stored(r@) == stored(t@).insert(key@, value@),
{
    let mut s = Settings::parse(t);
    s.set(key.to_string(), value.to_string());
    proof {
        law_stored_is_plain(t@);
        assert(is_plain((key@, value@)) ==> all_plain(s@));
    }
    s.text()
}

/// The port that settings state, if they state one.
pub open spec fn port_in(m: Map<Seq<char>, Seq<char>>) -> Option<nat> {
    if m.dom().contains(PORT_KEY@) {
        match number(m[PORT_KEY@], 65535) {
            Some(n) => if n != 0 {
                Some(n)
            } else {
                None
            },
            None => None,
        }
    } else {
        None
    }
}

/// The whole number that a text states, if it states one: digits, perhaps behind a sign.
pub open spec fn whole_number(s: Seq<char>) -> Option<int> {
    if s.len() > 1 && s[0] == '-' && s[1] != '+' {
        match number(s.skip(1), 0x8000_0000) {
            Some(n) => Some(-(n as int)),
            None => None,
        }
    } else {
        match number(s, 0x7FFF_FFFF) {
            Some(n) => Some(n as int),
            None => None,
        }
    }
}

/// The audio offset that settings state, if they state one.
pub open spec fn offset_in(m: Map<Seq<char>, Seq<char>>) -> Option<int> {
    if m.dom().contains(OFFSET_KEY@) {
        whole_number(m[OFFSET_KEY@])
    } else {
        None
    }
}

/// The encode device that settings state, if they state one.
pub open spec fn device_in(m: Map<Seq<char>, Seq<char>>, d: EncodeDevice) -> bool {
    m.dom().contains(DEVICE_KEY@) && m[DEVICE_KEY@] == device_token(d)
}

/// The token that settings state, if they state one.
pub open spec fn token_in(m: Map<Seq<char>, Seq<char>>) -> Option<Seq<char>> {
    if m.dom().contains(TOKEN_KEY@) && m[TOKEN_KEY@].len() > 0 {
        Some(m[TOKEN_KEY@])
    } else {
        None
    }
}

/// The saved HTTP port, if the settings file holds a valid one.
pub fn load_port(t: &str) -> (r: Option<u16>)
    ensures
        match r {
            Some(n) => port_in(stored(t@)) == Some(n as nat),
            None => port_in(stored(t@)) is None,
        },
{
    let s = Settings::parse(t);
    match s.get(PORT_KEY) {
        Some(v) => match text::parse_number(v.as_str(), 65535) {
            Some(n) => if n != 0 {
                Some(n as u16)
            } else {
                None
            },
            None => None,
        },
        None => None,
    }
}

/// The settings file with the HTTP port in it.
pub fn save_port(t: &str, port: u16) -> (r: String)
    ensures
        lists(r@, stored(t@).insert(PORT_KEY@, decimal(port as nat))),
        stored(r@) == stored(t@).insert(PORT_KEY@, decimal(port as nat)),
        port != 0 ==> port_in(stored(r@)) == Some(port as nat),
        offset_in(stored(r@)) == offset_in(stored(t@)),
        token_in(stored(r@)) == token_in(stored(t@)),
{
    proof {
        lemma_port_is_plain(port as nat);
        let m = stored(t@);
        if port != 0 {
            law_port_read_back(m, port);
        }
        let none = Seq::<char>::empty();
        law_other_settings_stay(m, decimal(port as nat), none, none, none, EncodeDevice::Auto);
    }
    let v = text::decimal_text(port as u64);
    save_key(t, PORT_KEY, v.as_str())
}

fn parse_whole(s: &str) -> (r: Option<i32>)
    ensures
        match r {
            Some(i) => whole_number(s@) == Some(i as int),
            None => whole_number(s@) is None,
        },
{
    let v = text::chars_of(s);
    let size: usize = v.len();
    if size > 1 && v[0] == '-' && v[1] != '+' {
        let behind = text::string_of(v.as_slice(), 1, size);
        assert(behind@ =~= s@.skip(1));
        match text::parse_number(behind.as_str(), 0x8000_0000) {
            Some(n) => Some((0 - n as i64) as i32),
            None => None,
        }
    } else {
        match text::parse_number(s, 0x7FFF_FFFF) {
            Some(n) => Some(n as i32),
            None => None,
        }
    }
}

/// The saved audio offset in milliseconds, if the settings file holds one.
pub fn load_av_offset_ms(t: &str) -> (r: Option<i32>)
    ensures
        match r {
            Some(ms) => offset_in(stored(t@)) == Some(ms as int),
            None => offset_in(stored(t@)) is None,
        },
{
    let s = Settings::parse(t);
    match s.get(OFFSET_KEY) {
        Some(v) => parse_whole(v.as_str()),
        None => None,
    }
}

/// The settings file with the audio offset in it.
pub fn save_av_offset_ms(t: &str, ms: i32) -> (r: String)
    ensures
        lists(r@, stored(t@).insert(OFFSET_KEY@, text::decimal_int(ms as int))),
        stored(r@) == stored(t@).insert(OFFSET_KEY@, text::decimal_int(ms as int)),
        offset_in(stored(r@)) == Some(ms as int),
        port_in(stored(r@)) == port_in(stored(t@)),
        token_in(stored(r@)) == token_in(stored(t@)),
{
    proof {
        lemma_offset_is_plain(ms as int);
        let m = stored(t@);
        law_offset_read_back(m, ms);
        let none = Seq::<char>::empty();
        let v = text::decimal_int(ms as int);
        law_other_settings_stay(m, none, none, none, v, EncodeDevice::Auto);
    }
    let mut v = String::new();
    text::append_decimal_int(&mut v, ms as i64);
    assert(v@ =~= text::decimal_int(ms as int));
    save_key(t, OFFSET_KEY, v.as_str())
}

/// The saved encode device, if the settings file holds one.
pub fn load_encode_device(t: &str) -> (r: Option<EncodeDevice>)
    ensures
        match r {
            Some(d) => device_in(stored(t@), d),
            None => forall|d: EncodeDevice| !#[trigger] device_in(stored(t@), d),
        },
{
    let s = Settings::parse(t);
    match s.get(DEVICE_KEY) {
        Some(v) => {
            let r = EncodeDevice::parse(v.as_str());
            proof {
                assert forall|d: EncodeDevice| r is None implies !#[trigger] device_in(
                    stored(t@),
                    d,
                ) by {
                    assert(v@ != device_token(d));
                }
            }
            r
        },
        None => None,
    }
}

/// The settings file with the encode device in it.
pub fn save_encode_device(t: &str, d: EncodeDevice) -> (r: String)
    ensures
        lists(r@, stored(t@).insert(DEVICE_KEY@, device_token(d))),
        stored(r@) == stored(t@).insert(DEVICE_KEY@, device_token(d)),
        forall|e: EncodeDevice| #[trigger] device_in(stored(r@), e) <==> e == d,
        port_in(stored(r@)) == port_in(stored(t@)),
        offset_in(stored(r@)) == offset_in(stored(t@)),
        token_in(stored(r@)) == token_in(stored(t@)),
{
    proof {
        lemma_device_is_plain(d);
        let m = stored(t@);
        assert forall|e: EncodeDevice| #[trigger]
            device_in(m.insert(DEVICE_KEY@, device_token(d)), e) <==> e == d by {
            law_device_read_back(m, d, e);
        }
        let none = Seq::<char>::empty();
        law_other_settings_stay(m, none, device_token(d), none, none, d);
    }
    save_key(t, DEVICE_KEY, d.token())
}

/// The saved token that restores a screen share, if the settings file holds one.
pub fn load_screencast_token(t: &str) -> (r: Option<String>)
    ensures
        match r {
            Some(v) => token_in(stored(t@)) == Some(v@),
            None => token_in(stored(t@)) is None,
        },
{
    let s = Settings::parse(t);
    match s.get(TOKEN_KEY) {
        Some(v) => {
            let c = text::chars_of(v.as_str());
            if c.len() > 0 {
                Some(text::string_of(c.as_slice(), 0, c.len()))
            } else {
                None
            }
        },
        None => None,
    }
}

/// The settings file with the token in it.
pub fn save_screencast_token(t: &str, token: &str) -> (r: String)
    ensures
        lists(r@, stored(t@).insert(TOKEN_KEY@, token@)),
        is_plain((TOKEN_KEY@, token@)) ==> stored(r@) == stored(t@).insert(TOKEN_KEY@, token@),
        is_plain((TOKEN_KEY@, token@)) && token@.len() > 0 ==> token_in(stored(r@)) == Some(token@),
        is_plain((TOKEN_KEY@, token@)) ==> port_in(stored(r@)) == port_in(stored(t@)),
        is_plain((TOKEN_KEY@, token@)) ==> offset_in(stored(r@)) == offset_in(stored(t@)),
{
    proof {
        let none = Seq::<char>::empty();
        law_other_settings_stay(stored(t@), none, none, token@, none, EncodeDevice::Auto);
    }
    save_key(t, TOKEN_KEY, token)
}

proof fn lemma_solid(s: Seq<char>)
    requires
        s.len() > 0,
        !text::is_white_space(s[0]),
        !text::is_white_space(s.last()),
    ensures
        trimmed(s) == s,
{
}

proof fn lemma_port_is_plain(n: nat)
    ensures
        is_plain((PORT_KEY@, decimal(n))),
{
    reveal_strlit("port");
    let d = decimal(n);
    text::law_decimal_read_back(n);
    assert forall|i: int| 0 <= i < d.len() implies text::is_digit(#[trigger] d[i]) by {
        assert(text::number_digits(d)[i] == d[i]);
    }
    lemma_solid(d);
    lemma_solid(PORT_KEY@);
}

proof fn lemma_offset_is_plain(ms: int)
    ensures
        is_plain((OFFSET_KEY@, text::decimal_int(ms))),
{
    reveal_strlit("av_offset_ms");
    let n: nat = if ms < 0 {
        (-ms) as nat
    } else {
        ms as nat
    };
    let d = decimal(n);
    text::law_decimal_read_back(n);
    assert forall|i: int| 0 <= i < d.len() implies text::is_digit(#[trigger] d[i]) by {
        assert(text::number_digits(d)[i] == d[i]);
    }
    let v = text::decimal_int(ms);
    assert forall|i: int| 0 <= i < v.len() implies text::is_digit(#[trigger] v[i]) || v[i] == '-' by {
        if ms < 0 && i > 0 {
            assert(v[i] == d[i - 1]);
        }
    }
    lemma_solid(v);
    lemma_solid(OFFSET_KEY@);
}

proof fn lemma_device_is_plain(d: EncodeDevice)
    ensures
        is_plain((DEVICE_KEY@, device_token(d))),
{
    reveal_strlit("encode_device");
    reveal_strlit("auto");
    reveal_strlit("gpu");
    reveal_strlit("cpu");
    lemma_solid(DEVICE_KEY@);
    lemma_solid(device_token(d));
}

/// A port that was saved is read back, whatever else the settings hold.
pub proof fn law_port_read_back(m: Map<Seq<char>, Seq<char>>, port: u16)
    requires
        port != 0,
    ensures
        port_in(m.insert(PORT_KEY@, decimal(port as nat))) == Some(port as nat),
{
    text::law_decimal_read_back(port as nat);
}

/// An audio offset that was saved is read back, whatever else the settings hold.
pub proof fn law_offset_read_back(m: Map<Seq<char>, Seq<char>>, ms: i32)
    ensures
        offset_in(m.insert(OFFSET_KEY@, text::decimal_int(ms as int))) == Some(ms as int),
{
    let n: nat = if ms < 0 {
        (-ms) as nat
    } else {
        ms as nat
    };
    let d = decimal(n);
    text::law_decimal_read_back(n);
    let v = text::decimal_int(ms as int);
    assert forall|i: int| 0 <= i < d.len() implies text::is_digit(#[trigger] d[i]) by {
        assert(text::number_digits(d)[i] == d[i]);
    }
    assert(text::is_digit(d[0]));
    if ms < 0 {
        assert(v.skip(1) =~= d);
        assert(v[1] == d[0]);
    } else {
        assert(v[0] == d[0]);
    }
}

/// An encode device that was saved is read back, and no other is.
pub proof fn law_device_read_back(
    m: Map<Seq<char>, Seq<char>>,
    saved: EncodeDevice,
    read: EncodeDevice,
)
    ensures
        device_in(m.insert(DEVICE_KEY@, device_token(saved)), read) <==> read == saved,
{
    reveal_strlit("auto");
    reveal_strlit("gpu");
    reveal_strlit("cpu");
    assert("auto"@.len() == 4);
    assert("gpu"@[0] == 'g');
    assert("cpu"@[0] == 'c');
}

/// A token that was saved is read back, unless it is empty.
pub proof fn law_token_read_back(m: Map<Seq<char>, Seq<char>>, token: Seq<char>)
    requires
        token.len() > 0,
    ensures
        token_in(m.insert(TOKEN_KEY@, token)) == Some(token),
{
}

/// Saving one setting leaves the others as they were.
pub proof fn law_other_settings_stay(
    m: Map<Seq<char>, Seq<char>>,
    port: Seq<char>,
    device: Seq<char>,
    token: Seq<char>,
    offset: Seq<char>,
    d: EncodeDevice,
)
    ensures
        port_in(m.insert(DEVICE_KEY@, device)) == port_in(m),
        port_in(m.insert(TOKEN_KEY@, token)) == port_in(m),
        device_in(m.insert(PORT_KEY@, port), d) == device_in(m, d),
        device_in(m.insert(TOKEN_KEY@, token), d) == device_in(m, d),
        token_in(m.insert(PORT_KEY@, port)) == token_in(m),
        token_in(m.insert(DEVICE_KEY@, device)) == token_in(m),
        port_in(m.insert(OFFSET_KEY@, offset)) == port_in(m),
        device_in(m.insert(OFFSET_KEY@, offset), d) == device_in(m, d),
        token_in(m.insert(OFFSET_KEY@, offset)) == token_in(m),
        offset_in(m.insert(PORT_KEY@, port)) == offset_in(m),
        offset_in(m.insert(DEVICE_KEY@, device)) == offset_in(m),
        offset_in(m.insert(TOKEN_KEY@, token)) == offset_in(m),
{
    reveal_strlit("av_offset_ms");
    assert(OFFSET_KEY@.len() == 12);
    reveal_strlit("port");
    reveal_strlit("encode_device");
    reveal_strlit("screencast_token");
    assert(PORT_KEY@.len() == 4);
    assert(DEVICE_KEY@.len() == 13);
    assert(TOKEN_KEY@.len() == 16);
}

/// The first place of a character is one where it stands, and it stands nowhere before.
pub proof fn law_first_place(s: Seq<char>, c: char)
    ensures
        0 <= first_of(s, c) <= s.len(),
        first_of(s, c) < s.len() ==> s[first_of(s, c)] == c,
        forall|i: int| 0 <= i < first_of(s, c) ==> #[trigger] s[i] != c,
    decreases s.len(),
{
    if s.len() > 0 && s[0] != c {
        let t = s.skip(1);
        law_first_place(t, c);
        assert forall|i: int| 0 <= i < first_of(s, c) implies #[trigger] s[i] != c by {
            if i > 0 {
                assert(t[i - 1] == s[i]);
            }
        }
    }
}

proof fn lemma_first_behind(front: Seq<char>, c: char, behind: Seq<char>)
    requires
        !front.contains(c),
    ensures
        first_of(front + seq![c] + behind, c) == front.len(),
{
    let s = front + seq![c] + behind;
    law_first_place(s, c);
    let e = first_of(s, c);
    assert(s[front.len() as int] == c);
    if e < front.len() {
        assert(s[e] == front[e]);
    }
}

/// A line states one setting: what stands before its first equals sign has as its value what stands
/// behind it, both without the white space around them. Further equals signs belong to the value.
pub proof fn law_line_states_a_setting(m: Map<Seq<char>, Seq<char>>, key: Seq<char>, value: Seq<char>)
    requires
        !key.contains('='),
    ensures
        with_line(m, key + seq!['='] + value) == m.insert(trimmed(key), trimmed(value)),
{
    let line = key + seq!['='] + value;
    lemma_first_behind(key, '=', value);
    assert(line.take(key.len() as int) =~= key);
    assert(line.skip((key.len() + 1) as int) =~= value);
}

/// A line without an equals sign states nothing, whatever is in it.
pub proof fn law_other_lines_state_nothing(m: Map<Seq<char>, Seq<char>>, line: Seq<char>)
    requires
        !line.contains('='),
    ensures
        with_line(m, line) == m,
{
    law_first_place(line, '=');
    let e = first_of(line, '=');
    if e < line.len() {
        assert(line[e] == '=');
    }
}

/// Lines are read one after the other, so that of two with the same key the later one counts.
pub proof fn law_lines_are_read_in_order(
    m: Map<Seq<char>, Seq<char>>,
    line: Seq<char>,
    rest: Seq<char>,
)
    requires
        !line.contains('\n'),
    ensures
        with_lines(m, line + seq!['\n'] + rest) == with_lines(with_line(m, line), rest),
        with_lines(m, line) == with_line(m, line),
{
    let t = line + seq!['\n'] + rest;
    lemma_first_behind(line, '\n', rest);
    assert(t.take(line.len() as int) =~= line);
    assert(t.skip((line.len() + 1) as int) =~= rest);
    law_first_place(line, '\n');
    let e = first_of(line, '\n');
    if e < line.len() {
        assert(line[e] == '\n');
    }
}

/// A port counts if it is a number from 1 to 65535, and it stands under its own key.
pub proof fn law_port_is_checked(m: Map<Seq<char>, Seq<char>>, n: nat)
    ensures
        !m.dom().contains("port"@) ==> port_in(m) is None,
        m.dom().contains("port"@) && m["port"@] == decimal(n) && 1 <= n <= 65535
            ==> port_in(m) == Some(n),
        m.dom().contains("port"@) && m["port"@] == decimal(n) && (n == 0 || n > 65535) ==> port_in(m)
            is None,
        m.dom().contains("port"@) && m["port"@].len() == 0 ==> port_in(m) is None,
{
    text::law_numbers_are_read(Seq::empty(), n, 65535);
    if m.dom().contains("port"@) {
        text::law_numbers_are_read(m["port"@], n, 65535);
    }
}

/// The other settings stand under their own keys too: the offset as a whole number of either sign,
/// the device by its word, and the token as it is.
pub proof fn law_settings_have_their_keys(m: Map<Seq<char>, Seq<char>>, ms: i32, token: Seq<char>)
    ensures
        offset_in(m.insert("av_offset_ms"@, text::decimal_int(ms as int))) == Some(ms as int),
        !m.dom().contains("av_offset_ms"@) ==> offset_in(m) is None,
        device_in(m.insert("encode_device"@, "auto"@), EncodeDevice::Auto),
        device_in(m.insert("encode_device"@, "gpu"@), EncodeDevice::Gpu),
        device_in(m.insert("encode_device"@, "cpu"@), EncodeDevice::Cpu),
        !m.dom().contains("encode_device"@) ==> !device_in(m, EncodeDevice::Auto) && !device_in(
            m,
            EncodeDevice::Gpu,
        ) && !device_in(m, EncodeDevice::Cpu),
        token.len() > 0 ==> token_in(m.insert("screencast_token"@, token)) == Some(token),
        token_in(m.insert("screencast_token"@, Seq::empty())) is None,
        !m.dom().contains("screencast_token"@) ==> token_in(m) is None,
{
    law_offset_read_back(m, ms);
}

/// A settings file has one line for each setting, its key and its value with an equals sign between.
pub proof fn law_file_has_one_line_each(key: Seq<char>, value: Seq<char>, rest: Seq<Pair>)
    ensures
        rendered(seq![(key, value)] + rest) == key + seq!['='] + value + seq!['\n'] + rendered(rest),
        rendered(Seq::empty()).len() == 0,
{
    let p = seq![(key, value)] + rest;
    assert(p.skip(1) =~= rest);
}

/// What counts as a number of milliseconds: digits with or without a sign, as far as 32 bits go.
pub proof fn law_offsets_are_whole_numbers(n: nat)
    ensures
        n <= 0x7FFF_FFFF ==> whole_number(decimal(n)) == Some(n as int),
        n > 0x7FFF_FFFF ==> whole_number(decimal(n)) is None,
        n <= 0x8000_0000 ==> whole_number(seq!['-'] + decimal(n)) == Some(-(n as int)),
        n > 0x8000_0000 ==> whole_number(seq!['-'] + decimal(n)) is None,
        whole_number(Seq::empty()) is None,
        whole_number(seq!['-']) is None,
{
    text::law_numbers_are_read(Seq::empty(), n, 0x7FFF_FFFF);
    text::law_numbers_are_read(Seq::empty(), n, 0x8000_0000);
    text::law_numbers_are_read(seq!['-'], n, 0x7FFF_FFFF);
    text::law_decimal_read_back(n);
    let d = decimal(n);
    assert(text::is_digit(d[0])) by {
        assert(text::number_digits(d)[0] == d[0]);
    }
    let v = seq!['-'] + d;
    assert(v.skip(1) =~= d);
    assert(v[1] == d[0]);
}

/// Windows keeps settings in one place, and other systems in the first of two that there is.
pub proof fn law_settings_place(app_data: bool, xdg: bool, home: bool)
    ensures
        base_of(true, app_data, xdg, home) is Some <==> app_data,
        base_of(true, true, xdg, home) == Some(ConfigBase::AppData),
        base_of(false, app_data, true, home) == Some(ConfigBase::XdgConfigHome),
        base_of(false, app_data, false, true) == Some(ConfigBase::HomeConfig),
        base_of(false, app_data, false, false) is None,
{
}

/// Settings are listed in the order of the alphabet: of two keys that begin differently the one
/// with the earlier letter comes first, and none is listed twice.
pub proof fn law_keys_rise(p: Seq<Pair>, i: int, j: int)
    requires
        in_order(p),
        0 <= i < j < p.len(),
        p[i].0.len() > 0,
        p[j].0.len() > 0,
    ensures
        p[i].0[0] <= p[j].0[0],
        p[i].0 != p[j].0,
{
    text::law_dictionary_order(Seq::empty(), p[i].0, p[j].0);
    text::law_dictionary_order(Seq::empty(), p[j].0, p[i].0);
    assert(before(p[i].0, p[j].0));
}

} // verus!
