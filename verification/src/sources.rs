//! The applications and devices that audio can be taken from, and how they are picked and named.

use crate::text;
use vstd::prelude::*;

verus! {

/// Behind the name of a capture device that is no real one.
pub const DUMMY_TAG: &'static str = "⚠ DUMMY OUTPUT — no real audio device on this machine";

/// Something that audio can be taken from: an application or a window.
#[derive(Clone, Debug, PartialEq, Eq)]
pub struct AudioApp {
    /// The process.
    pub pid: u32,
    /// What the picker shows.
    pub name: String,
    /// The program's file.
    pub exe: String,
    /// The window, if it is one.
    pub hwnd: Option<isize>,
}

/// An application or window as plain values.
pub struct AppView {
    /// The process.
    pub pid: u32,
    /// What the picker shows.
    pub name: Seq<char>,
    /// The program's file.
    pub exe: Seq<char>,
    /// The window, if it is one.
    pub hwnd: Option<isize>,
}

impl View for AudioApp {
    type V = AppView;

    open spec fn view(&self) -> AppView {
        AppView { pid: self.pid, name: self.name@, exe: self.exe@, hwnd: self.hwnd }
    }
}

/// The plain values of a list.
pub open spec fn app_views(v: Seq<AudioApp>) -> Seq<AppView> {
    v.map_values(|a: AudioApp| a@)
}

/// What a list is ordered by.
pub open spec fn sort_key(a: AppView) -> Seq<char> {
    text::lowercase(a.name)
}

/// A sorted list with one more entry, which goes behind those that it equals.
pub open spec fn inserted(v: Seq<AppView>, a: AppView) -> Seq<AppView>
    decreases v.len(),
{
    if v.len() == 0 || !text::before(sort_key(a), sort_key(v.last())) {
        v.push(a)
    } else {
        inserted(v.drop_last(), a).push(v.last())
    }
}

/// The list ordered by name, capitals or not; equal names keep their order.
pub open spec fn by_name(v: Seq<AppView>) -> Seq<AppView>
    decreases v.len(),
{
    if v.len() == 0 {
        v
    } else {
        inserted(by_name(v.drop_last()), v.last())
    }
}

/// Whether no entry comes before an earlier one.
pub open spec fn in_order(v: Seq<AppView>) -> bool {
    forall|i: int, j: int|
        0 <= i < j < v.len() ==> !text::before(#[trigger] sort_key(v[j]), #[trigger] sort_key(v[i]))
}

proof fn lemma_inserted(v: Seq<AppView>, a: AppView)
    requires
        in_order(v),
    ensures
        in_order(inserted(v, a)),
        inserted(v, a).to_multiset() == v.to_multiset().insert(a),
        inserted(v, a).len() == v.len() + 1,
        forall|i: int| 0 <= i < v.len() + 1 ==> inserted(v, a)[i] == a
            || v.contains(#[trigger] inserted(v, a)[i]),
    decreases v.len(),
{
    broadcast use vstd::seq_lib::group_to_multiset_ensures;

    let out = inserted(v, a);
    if v.len() == 0 {
    } else if !text::before(sort_key(a), sort_key(v.last())) {
        assert forall|i: int, j: int| 0 <= i < j < out.len() implies !text::before(
            #[trigger] sort_key(out[j]),
            #[trigger] sort_key(out[i]),
        ) by {
            if j == v.len() {
                if i < v.len() - 1 {
                    assert(!text::before(sort_key(v[v.len() - 1]), sort_key(v[i])));
                    text::lemma_not_before_transitive(
                        sort_key(v[i]),
                        sort_key(v.last()),
                        sort_key(a),
                    );
                }
            } else {
                assert(!text::before(sort_key(v[j]), sort_key(v[i])));
            }
        }
        assert forall|i: int| 0 <= i < v.len() + 1 implies out[i] == a || v.contains(
            #[trigger] out[i],
        ) by {
            if i < v.len() {
                assert(v[i] == out[i]);
            }
        }
    } else {
        let front = v.drop_last();
        let last = v.last();
        assert(in_order(front)) by {
            assert forall|i: int, j: int| 0 <= i < j < front.len() implies !text::before(
                #[trigger] sort_key(front[j]),
                #[trigger] sort_key(front[i]),
            ) by {
                assert(!text::before(sort_key(v[j]), sort_key(v[i])));
            }
        }
        lemma_inserted(front, a);
        let inner = inserted(front, a);
        assert forall|i: int, j: int| 0 <= i < j < out.len() implies !text::before(
            #[trigger] sort_key(out[j]),
            #[trigger] sort_key(out[i]),
        ) by {
            if j == inner.len() {
                assert(out[j] == last);
                assert(out[i] == inner[i]);
                if inner[i] == a {
                    text::lemma_before_asymmetric(sort_key(a), sort_key(last));
                } else {
                    assert(front.contains(inner[i]));
                    let k = choose|k: int| 0 <= k < front.len() && front[k] == inner[i];
                    assert(v[k] == inner[i]);
                    assert(!text::before(sort_key(v[v.len() - 1]), sort_key(v[k])));
                }
            } else {
                assert(out[i] == inner[i] && out[j] == inner[j]);
                assert(!text::before(sort_key(inner[j]), sort_key(inner[i])));
            }
        }
        assert(v =~= front.push(last));
        assert(v.to_multiset() =~= front.to_multiset().insert(last));
        assert(out.to_multiset() =~= inner.to_multiset().insert(last));
        assert(out.to_multiset() =~= v.to_multiset().insert(a));
        assert forall|i: int| 0 <= i < v.len() + 1 implies out[i] == a || v.contains(
            #[trigger] out[i],
        ) by {
            if i < inner.len() {
                assert(out[i] == inner[i]);
                if inner[i] != a {
                    let k = choose|k: int| 0 <= k < front.len() && front[k] == inner[i];
                    assert(v[k] == out[i]);
                }
            } else {
                assert(v[v.len() - 1] == out[i]);
            }
        }
    }
}

/// The ordered list is in order and holds the same entries as the list, each as often.
pub proof fn law_by_name_orders(v: Seq<AppView>)
    ensures
        in_order(by_name(v)),
        by_name(v).to_multiset() == v.to_multiset(),
        by_name(v).len() == v.len(),
    decreases v.len(),
{
    broadcast use vstd::seq_lib::group_to_multiset_ensures;

    if v.len() > 0 {
        law_by_name_orders(v.drop_last());
        lemma_inserted(by_name(v.drop_last()), v.last());
        assert(v =~= v.drop_last().push(v.last()));
    }
}

proof fn lemma_same_members(v: Seq<AppView>, x: AppView)
    ensures
        by_name(v).contains(x) == v.contains(x),
{
    broadcast use vstd::seq_lib::group_to_multiset_ensures;

    law_by_name_orders(v);
    assert(by_name(v).to_multiset().contains(x) == v.to_multiset().contains(x));
}

fn insert_app(v: &mut Vec<AudioApp>, a: AudioApp)
    ensures
        app_views(final(v)@) == inserted(app_views(old(v)@), a@),
{
    let key = text::to_lower(a.name.as_str());
    let ghost all = app_views(v@);
    let ghost new = a@;
    let mut at: usize = v.len();
    assert(all.take(at as int) =~= all);
    assert(v@.len() == all.len());
    while at > 0 && text::comes_before(
        key.as_str(),
        text::to_lower(v[at - 1].name.as_str()).as_str(),
    )
        invariant
            at <= v@.len(),
            all == app_views(v@),
            key@ == sort_key(new),
            inserted(all, new) == inserted(all.take(at as int), new) + all.skip(at as int),
        decreases at,
    {
        proof {
            let part = all.take(at as int);
            assert(part.last() == v@[at - 1]@);
            assert(part.drop_last() =~= all.take(at - 1));
            assert(all.skip(at - 1) =~= seq![part.last()] + all.skip(at as int));
            let inner = inserted(all.take(at - 1), new);
            assert(inner.push(part.last()) + all.skip(at as int) =~= inner + all.skip(at - 1));
        }
        at -= 1;
    }
    proof {
        if at > 0 {
            assert(all.take(at as int).last() == v@[at - 1]@);
        }
        assert(inserted(all.take(at as int), new) == all.take(at as int).push(new));
    }
    v.insert(at, a);
    assert(app_views(v@) =~= all.take(at as int).push(new) + all.skip(at as int));
}

pub(crate) fn sort_by_name(apps: Vec<AudioApp>) -> (out: Vec<AudioApp>)
    ensures
        app_views(out@) == by_name(app_views(apps@)),
{
    let ghost all = app_views(apps@);
    let mut out: Vec<AudioApp> = Vec::new();
    let mut i: usize = 0;
    assert(app_views(out@) =~= by_name(all.take(0)));
    while i < apps.len()
        invariant
            i <= apps@.len(),
            all == app_views(apps@),
            app_views(out@) == by_name(all.take(i as int)),
        decreases apps@.len() - i,
    {
        let a = copy_app(&apps[i]);
        proof {
            assert(all.take(i + 1).drop_last() =~= all.take(i as int));
            assert(all.take(i + 1).last() == apps@[i as int]@);
        }
        insert_app(&mut out, a);
        i += 1;
    }
    assert(all.take(i as int) =~= all);
    out
}

pub(crate) fn copy_app(a: &AudioApp) -> (r: AudioApp)
    ensures
        r@ == a@,
{
    AudioApp { pid: a.pid, name: a.name.clone(), exe: a.exe.clone(), hwnd: a.hwnd }
}

/// One application's playback stream, which exists only while it plays.
#[derive(Clone, Debug, PartialEq, Eq)]
pub struct SinkInput {
    /// The sound server's number for the stream.
    pub index: u32,
    /// The sink that it plays to.
    pub sink: u32,
    /// The process, if the stream states it.
    pub pid: Option<u32>,
    /// The application's name.
    pub name: String,
    /// The application's program.
    pub binary: String,
}

/// What a stream is called: the application's name, else its program, else its number.
pub open spec fn stream_label(s: SinkInput) -> Seq<char> {
    if text::trimmed(s.name@).len() > 0 {
        s.name@
    } else if text::trimmed(s.binary@).len() > 0 {
        s.binary@
    } else {
        "audio stream #"@ + text::decimal(s.index as nat)
    }
}

impl SinkInput {
    /// What the stream is called.
    pub fn label(&self) -> (s: String)
        ensures
            s@ == stream_label(*self),
    {
        if !text::is_blank(self.name.as_str()) {
            return self.name.clone();
        }
        if !text::is_blank(self.binary.as_str()) {
            return self.binary.clone();
        }
        let mut s = String::from_str("audio stream #");
        text::append_decimal(&mut s, self.index as u64);
        s
    }
}

/// A playback stream as the sound server lists it.
pub struct StreamInfo {
    /// The sound server's number for the stream.
    pub index: u32,
    /// The sink that it plays to.
    pub sink: u32,
    /// The property `application.process.id`.
    pub pid: Option<String>,
    /// The property `application.name`.
    pub name: Option<String>,
    /// The property `application.process.binary`.
    pub binary: Option<String>,
}

/// The text of a property, empty if it is not set.
pub open spec fn property_text(p: Option<String>) -> Seq<char> {
    match p {
        Some(s) => s@,
        None => Seq::empty(),
    }
}

/// The process that a property states, if it states one.
pub open spec fn property_pid(p: Option<String>) -> Option<nat> {
    match p {
        Some(s) => text::number(s@, u32::MAX as nat),
        None => None,
    }
}

/// Whether `s` is what the sound server's listing says.
pub open spec fn is_stream(s: SinkInput, i: StreamInfo) -> bool {
    &&& s.index == i.index
    &&& s.sink == i.sink
    &&& s.name@ == property_text(i.name)
    &&& s.binary@ == property_text(i.binary)
    &&& match s.pid {
        Some(p) => property_pid(i.pid) == Some(p as nat),
        None => property_pid(i.pid) is None,
    }
}

fn text_or_empty(p: &Option<String>) -> (s: String)
    ensures
        s@ == property_text(*p),
{
    match p {
        Some(t) => t.clone(),
        None => String::new(),
    }
}

/// The streams that the sound server lists, in its order.
pub fn list_sink_inputs(infos: &Vec<StreamInfo>) -> (out: Vec<SinkInput>)
    ensures
        out@.len() == infos@.len(),
        forall|i: int| 0 <= i < infos@.len() ==> is_stream(#[trigger] out@[i], infos@[i]),
{
    let mut out: Vec<SinkInput> = Vec::new();
    let mut i: usize = 0;
    while i < infos.len()
        invariant
            i <= infos@.len(),
            out@.len() == i,
            forall|k: int| 0 <= k < i ==> is_stream(#[trigger] out@[k], infos@[k]),
        decreases infos@.len() - i,
    {
        let info = &infos[i];
        let pid = match &info.pid {
            Some(t) => text::parse_number(t.as_str(), u32::MAX),
            None => None,
        };
        out.push(
            SinkInput {
                index: info.index,
                sink: info.sink,
                pid,
                name: text_or_empty(&info.name),
                binary: text_or_empty(&info.binary),
            },
        );
        i += 1;
    }
    out
}

/// Whether an entry of the list is of this process.
pub open spec fn has_pid(v: Seq<AppView>, pid: u32) -> bool {
    exists|i: int| 0 <= i < v.len() && (#[trigger] v[i]).pid == pid
}

/// The entry of a stream.
pub open spec fn stream_entry(s: SinkInput, pid: u32) -> AppView {
    AppView { pid, name: stream_label(s), exe: s.binary@, hwnd: None }
}

/// One entry for each process that plays, in the order of their first streams. Streams that state no
/// process and those of the excluded process have none.
pub open spec fn playing(inputs: Seq<SinkInput>, exclude_pid: u32) -> Seq<AppView>
    decreases inputs.len(),
{
    if inputs.len() == 0 {
        Seq::empty()
    } else {
        let out = playing(inputs.drop_last(), exclude_pid);
        match inputs.last().pid {
            None => out,
            Some(pid) => if pid == exclude_pid || has_pid(out, pid) {
                out
            } else {
                out.push(stream_entry(inputs.last(), pid))
            },
        }
    }
}

pub(crate) fn lists_pid(v: &Vec<AudioApp>, pid: u32) -> (r: bool)
    ensures
        r == has_pid(app_views(v@), pid),
{
    let mut i: usize = 0;
    while i < v.len()
        invariant
            i <= v@.len(),
            forall|k: int| 0 <= k < i ==> (#[trigger] app_views(v@)[k]).pid != pid,
        decreases v@.len() - i,
    {
        assert(app_views(v@)[i as int] == v@[i as int]@);
        if v[i].pid == pid {
            return true;
        }
        i += 1;
    }
    false
}

/// The applications that play, for the picker: one entry per process, without the process
/// `exclude_pid`, ordered by name.
pub fn map_sources(inputs: Vec<SinkInput>, exclude_pid: u32) -> (out: Vec<AudioApp>)
    ensures
        app_views(out@) == by_name(playing(inputs@, exclude_pid)),
{
    let mut out: Vec<AudioApp> = Vec::new();
    let mut i: usize = 0;
    assert(app_views(out@) =~= playing(inputs@.take(0), exclude_pid));
    while i < inputs.len()
        invariant
            i <= inputs@.len(),
            app_views(out@) == playing(inputs@.take(i as int), exclude_pid),
        decreases inputs@.len() - i,
    {
        assert(inputs@.take(i + 1).drop_last() =~= inputs@.take(i as int));
        let si = &inputs[i];
        i += 1;
        if let Some(pid) = si.pid {
            if pid != exclude_pid && !lists_pid(&out, pid) {
                let a = AudioApp { pid, name: si.label(), exe: si.binary.clone(), hwnd: None };
                let ghost before = app_views(out@);
                let ghost new = a@;
                out.push(a);
                assert(app_views(out@) =~= before.push(new));
            }
        }
    }
    assert(inputs@.take(i as int) =~= inputs@);
    sort_by_name(out)
}

/// The applications that play, for the picker. A sound server that could not be asked has none.
pub fn list_sources(inputs: Option<Vec<SinkInput>>, exclude_pid: u32) -> (out: Vec<AudioApp>)
    ensures
        app_views(out@) == (match inputs {
            Some(v) => by_name(playing(v@, exclude_pid)),
            None => Seq::empty(),
        }),
{
    match inputs {
        Some(v) => map_sources(v, exclude_pid),
        None => {
            let out: Vec<AudioApp> = Vec::new();
            assert(app_views(out@) =~= Seq::<AppView>::empty());
            out
        },
    }
}

proof fn lemma_playing(inputs: Seq<SinkInput>, exclude_pid: u32)
    ensures
        forall|i: int, j: int|
            0 <= i < j < playing(inputs, exclude_pid).len() ==> (#[trigger] playing(
                inputs,
                exclude_pid,
            )[i]).pid != (#[trigger] playing(inputs, exclude_pid)[j]).pid,
        forall|i: int|
            0 <= i < playing(inputs, exclude_pid).len() ==> (#[trigger] playing(
                inputs,
                exclude_pid,
            )[i]).pid != exclude_pid && playing(inputs, exclude_pid)[i].hwnd is None,
        forall|k: int, p: u32|
            0 <= k < inputs.len() && (#[trigger] inputs[k]).pid == Some(p) && p != exclude_pid
                ==> #[trigger] has_pid(playing(inputs, exclude_pid), p),
    decreases inputs.len(),
{
    if inputs.len() > 0 {
        let out = playing(inputs.drop_last(), exclude_pid);
        let all = playing(inputs, exclude_pid);
        lemma_playing(inputs.drop_last(), exclude_pid);
        assert forall|p: u32| has_pid(out, p) implies #[trigger] has_pid(all, p) by {
            let i = choose|i: int| 0 <= i < out.len() && (#[trigger] out[i]).pid == p;
            assert(all[i].pid == p);
        }
        assert forall|k: int, p: u32|
            0 <= k < inputs.len() && (#[trigger] inputs[k]).pid == Some(p) && p
                != exclude_pid implies #[trigger] has_pid(all, p) by {
            if k < inputs.len() - 1 {
                assert(inputs.drop_last()[k] == inputs[k]);
                assert(has_pid(out, p));
            } else if !has_pid(out, p) {
                assert(all[out.len() as int].pid == p);
            }
        }
        assert forall|i: int, j: int| 0 <= i < j < all.len() implies (#[trigger] all[i]).pid != (
        #[trigger] all[j]).pid by {
            if j == out.len() {
                assert(out[i] == all[i]);
            } else {
                assert(out[i] == all[i] && out[j] == all[j]);
            }
        }
        assert forall|i: int| 0 <= i < all.len() implies (#[trigger] all[i]).pid != exclude_pid
            && all[i].hwnd is None by {
            if i < out.len() {
                assert(out[i] == all[i]);
            }
        }
    }
}

/// The picker never offers this process's own playback, and none of its entries is a window.
pub proof fn law_own_playback_is_never_offered(inputs: Seq<SinkInput>, exclude_pid: u32, x: AppView)
    requires
        by_name(playing(inputs, exclude_pid)).contains(x),
    ensures
        x.pid != exclude_pid,
        x.hwnd is None,
{
    lemma_same_members(playing(inputs, exclude_pid), x);
    lemma_playing(inputs, exclude_pid);
}

/// Every process that plays and states its number is offered.
pub proof fn law_every_playing_process_is_offered(
    inputs: Seq<SinkInput>,
    exclude_pid: u32,
    k: int,
    pid: u32,
)
    requires
        0 <= k < inputs.len(),
        inputs[k].pid == Some(pid),
        pid != exclude_pid,
    ensures
        has_pid(by_name(playing(inputs, exclude_pid)), pid),
{
    let all = playing(inputs, exclude_pid);
    lemma_playing(inputs, exclude_pid);
    assert(has_pid(all, pid));
    let i = choose|i: int| 0 <= i < all.len() && (#[trigger] all[i]).pid == pid;
    assert(all.contains(all[i]));
    lemma_same_members(all, all[i]);
    let sorted = by_name(all);
    let j = choose|j: int| 0 <= j < sorted.len() && sorted[j] == all[i];
    assert(sorted[j].pid == pid);
}

/// A process is offered once, however many streams it has.
pub proof fn law_one_entry_per_process(
    inputs: Seq<SinkInput>,
    exclude_pid: u32,
    x: AppView,
    y: AppView,
)
    requires
        by_name(playing(inputs, exclude_pid)).contains(x),
        by_name(playing(inputs, exclude_pid)).contains(y),
        x.pid == y.pid,
    ensures
        x == y,
        by_name(playing(inputs, exclude_pid)).to_multiset().count(x) == 1,
{
    broadcast use vstd::seq_lib::group_to_multiset_ensures;

    let all = playing(inputs, exclude_pid);
    lemma_same_members(all, x);
    lemma_same_members(all, y);
    lemma_playing(inputs, exclude_pid);
    let i = choose|i: int| 0 <= i < all.len() && all[i] == x;
    let j = choose|j: int| 0 <= j < all.len() && all[j] == y;
    assert(all[i].pid == all[j].pid);
    law_by_name_orders(all);
    assert(all.no_duplicates()) by {
        assert forall|a: int, b: int| 0 <= a < all.len() && 0 <= b < all.len() && a != b
            implies all[a]
            != all[b] by {
            if a < b {
                assert(all[a].pid != all[b].pid);
            } else {
                assert(all[b].pid != all[a].pid);
            }
        }
    }
    all.lemma_multiset_has_no_duplicates();
    assert(all.to_multiset().contains(x));
}

/// Where the first stream of the process stands, or the number of streams if it has none.
pub open spec fn first_of(all: Seq<SinkInput>, pid: u32) -> int
    decreases all.len(),
{
    if all.len() == 0 || all[0].pid == Some(pid) {
        0
    } else {
        1 + first_of(all.skip(1), pid)
    }
}

/// The labels of the streams, with commas between them.
pub open spec fn joined_labels(all: Seq<SinkInput>) -> Seq<char>
    decreases all.len(),
{
    if all.len() == 0 {
        Seq::empty()
    } else if all.len() == 1 {
        stream_label(all[0])
    } else {
        joined_labels(all.drop_last()) + ", "@ + stream_label(all.last())
    }
}

/// What is said when the chosen application does not play.
pub open spec fn not_playing_text(all: Seq<SinkInput>, pid: u32) -> Seq<char> {
    "no audio stream from PID "@ + text::decimal(pid as nat)
        + " — the app must be actively playing to be captured (currently playing: "@ + (
    if all.len() == 0 {
        "nothing"@
    } else {
        joined_labels(all)
    }) + ")"@
}

fn join_labels(all: &Vec<SinkInput>) -> (s: String)
    ensures
        s@ == joined_labels(all@),
{
    let mut s = String::new();
    let mut i: usize = 0;
    assert(s@ =~= joined_labels(all@.take(0)));
    while i < all.len()
        invariant
            i <= all@.len(),
            s@ == joined_labels(all@.take(i as int)),
        decreases all@.len() - i,
    {
        let label = all[i].label();
        assert(all@.take(i + 1).drop_last() =~= all@.take(i as int));
        let ghost so_far = s@;
        if i > 0 {
            s.append(", ");
        } else {
            assert(so_far =~= Seq::<char>::empty());
        }
        s.append(label.as_str());
        assert(i == 0 ==> s@ =~= label@);
        i += 1;
    }
    assert(all@.take(i as int) =~= all@);
    s
}

/// The first stream of the process `pid`, or what to say if it has none. It is never replaced by
/// anything wider.
pub fn resolve_sink_input(all: &Vec<SinkInput>, pid: u32) -> (r: Result<&SinkInput, String>)
    ensures
        match r {
            Ok(s) => first_of(all@, pid) < all@.len() && *s == all@[first_of(all@, pid)] && s.pid
                == Some(pid),
            Err(e) => first_of(all@, pid) == all@.len() && e@ == not_playing_text(all@, pid),
        },
{
    let mut i: usize = 0;
    assert(all@.skip(0) =~= all@);
    while i < all.len()
        invariant
            i <= all@.len(),
            first_of(all@, pid) == i + first_of(all@.skip(i as int), pid),
        decreases all@.len() - i,
    {
        let hit = match all[i].pid {
            Some(p) => p == pid,
            None => false,
        };
        if hit {
            return Ok(&all[i]);
        }
        assert(all@.skip(i as int).skip(1) =~= all@.skip(i + 1));
        i += 1;
    }
    let mut e = String::from_str("no audio stream from PID ");
    text::append_decimal(&mut e, pid as u64);
    e.append(" — the app must be actively playing to be captured (currently playing: ");
    if all.len() == 0 {
        e.append("nothing");
    } else {
        e.append(join_labels(all).as_str());
    }
    e.append(")");
    Err(e)
}

/// No stream in front of the first one of a process is of that process, and a process without a
/// stream is found nowhere.
pub proof fn law_first_stream_is_taken(all: Seq<SinkInput>, pid: u32)
    ensures
        0 <= first_of(all, pid) <= all.len(),
        first_of(all, pid) < all.len() ==> all[first_of(all, pid)].pid == Some(pid),
        forall|k: int| 0 <= k < first_of(all, pid) ==> (#[trigger] all[k]).pid != Some(pid),
    decreases all.len(),
{
    if all.len() > 0 && all[0].pid != Some(pid) {
        law_first_stream_is_taken(all.skip(1), pid);
        assert forall|k: int| 0 <= k < first_of(all, pid) implies (#[trigger] all[k]).pid != Some(
            pid,
        ) by {
            if k > 0 {
                assert(all.skip(1)[k - 1] == all[k]);
            }
        }
    }
}

/// The monitor of the sink that the sound server found, or what to say if it has none.
pub fn sink_monitor_name(found: Option<String>, sink: u32) -> (r: Result<String, String>)
    ensures
        match r {
            Ok(name) => found matches Some(f) && name@ == f@,
            Err(e) => found is None && e@ == "sink "@ + text::decimal(sink as nat)
                + " reports no monitor source"@,
        },
{
    match found {
        Some(name) => Ok(name),
        None => {
            let mut e = String::from_str("sink ");
            text::append_decimal(&mut e, sink as u64);
            e.append(" reports no monitor source");
            Err(e)
        },
    }
}

/// The sink of a monitor: its name without the ending that monitors have.
pub open spec fn sink_of(monitor: Seq<char>) -> Seq<char> {
    if ".monitor"@.is_suffix_of(monitor) {
        monitor.take(monitor.len() - ".monitor"@.len())
    } else {
        monitor
    }
}

/// Whether the sink is the placeholder that sound servers make when there is no real one.
pub open spec fn is_dummy(monitor: Seq<char>) -> bool {
    let sink = sink_of(monitor);
    sink == "auto_null"@ || sink == "null"@ || "auto_null."@.is_prefix_of(sink)
}

fn strip_monitor(monitor: &str) -> (s: String)
    ensures
        s@ == sink_of(monitor@),
{
    let v = text::chars_of(monitor);
    let e = text::chars_of(".monitor");
    if v.len() >= e.len() {
        let cut: usize = v.len() - e.len();
        let tail = text::string_of(v.as_slice(), cut, v.len());
        assert(v@.subrange(cut as int, v@.len() as int) =~= monitor@.skip(cut as int));
        if text::same_text(tail.as_str(), ".monitor") {
            let head = text::string_of(v.as_slice(), 0, cut);
            assert(head@ =~= monitor@.take(cut as int));
            assert(".monitor"@.is_suffix_of(monitor@));
            return head;
        }
        assert(!".monitor"@.is_suffix_of(monitor@)) by {
            assert(monitor@.subrange(cut as int, monitor@.len() as int) =~= tail@);
        }
    }
    text::string_of(v.as_slice(), 0, v.len())
}

/// Whether the monitor, or the sink, is of the placeholder that sound servers make when there is no
/// real device.
pub fn is_dummy_sink_monitor(monitor: &str) -> (r: bool)
    ensures
        r == is_dummy(monitor@),
{
    let sink = strip_monitor(monitor);
    text::same_text(sink.as_str(), "auto_null") || text::same_text(sink.as_str(), "null")
        || text::starts_with(sink.as_str(), "auto_null.")
}

/// Where the first real sink stands, or the number of sinks if there is none.
pub open spec fn first_real(sinks: Seq<String>) -> int
    decreases sinks.len(),
{
    if sinks.len() == 0 || !is_dummy(sinks[0]@) {
        0
    } else {
        1 + first_real(sinks.skip(1))
    }
}

/// The sink to capture: the default one, unless it is a placeholder and there is a real one.
pub open spec fn chosen_sink(default: Seq<char>, sinks: Seq<String>) -> Seq<char> {
    if is_dummy(default) && first_real(sinks) < sinks.len() {
        sinks[first_real(sinks)]@
    } else {
        default
    }
}

/// The monitor to capture for the whole system. `sinks` is asked for only when the default sink is a
/// placeholder.
pub fn default_sink_monitor(default: Option<String>, sinks: &Vec<String>) -> (r: Result<
    String,
    String,
>)
    ensures
        match r {
            Ok(m) => default matches Some(d) && m@ == chosen_sink(d@, sinks@) + ".monitor"@,
            Err(e) => default is None && e@
                == "no default sink reported — is any audio output active?"@,
        },
{
    match default {
        None => Err(String::from_str("no default sink reported — is any audio output active?")),
        Some(d) => {
            if is_dummy_sink_monitor(d.as_str()) {
                let mut i: usize = 0;
                assert(sinks@.skip(0) =~= sinks@);
                while i < sinks.len()
                    invariant
                        i <= sinks@.len(),
                        default matches Some(x) && x == d,
                        is_dummy(d@),
                        first_real(sinks@) == i + first_real(sinks@.skip(i as int)),
                    decreases sinks@.len() - i,
                {
                    if !is_dummy_sink_monitor(sinks[i].as_str()) {
                        let mut m = sinks[i].clone();
                        m.append(".monitor");
                        return Ok(m);
                    }
                    assert(sinks@.skip(i as int).skip(1) =~= sinks@.skip(i + 1));
                    i += 1;
                }
            }
            let mut m = d;
            m.append(".monitor");
            Ok(m)
        },
    }
}

/// As long as there is a real sink, no placeholder is captured.
pub proof fn law_real_sink_is_preferred(default: Seq<char>, sinks: Seq<String>, k: int)
    requires
        0 <= k < sinks.len(),
        !is_dummy(sinks[k]@),
    ensures
        !is_dummy(chosen_sink(default, sinks)),
{
    lemma_first_real(sinks, k);
}

proof fn lemma_first_real(sinks: Seq<String>, k: int)
    requires
        0 <= k < sinks.len(),
        !is_dummy(sinks[k]@),
    ensures
        0 <= first_real(sinks) <= k,
        !is_dummy(sinks[first_real(sinks)]@),
    decreases sinks.len(),
{
    if is_dummy(sinks[0]@) {
        assert(sinks.skip(1)[k - 1] == sinks[k]);
        lemma_first_real(sinks.skip(1), k - 1);
    }
}

/// What a captured monitor is called: a placeholder is marked.
pub open spec fn monitor_label(monitor: Seq<char>) -> Seq<char> {
    if is_dummy(monitor) {
        monitor + "  "@ + DUMMY_TAG@
    } else {
        monitor
    }
}

/// What a captured monitor is called.
pub fn monitor_device_name(monitor: &str) -> (s: String)
    ensures
        s@ == monitor_label(monitor@),
{
    let mut s = String::from_str(monitor);
    if is_dummy_sink_monitor(monitor) {
        s.append("  ");
        s.append(DUMMY_TAG);
    }
    s
}

/// What the capture of one application is called.
pub fn app_device_name(target: &SinkInput) -> (s: String)
    ensures
        s@ == stream_label(*target) + "  — this app only"@,
{
    let mut s = target.label();
    s.append("  — this app only");
    s
}

/// What one turn of the sound server's main loop came to.
pub enum Turn {
    /// It went through.
    Success,
    /// The loop was told to quit.
    Quit,
    /// It failed; how.
    Failed(String),
}

/// How far a query of the sound server is.
#[derive(Clone, Copy, Debug, PartialEq, Eq, Structural)]
pub enum QueryState {
    /// It runs.
    Running,
    /// It is answered.
    Done,
    /// It was cancelled.
    Cancelled,
}

/// How far a connection to the sound server, or a stream, is.
#[derive(Clone, Copy, Debug, PartialEq, Eq, Structural)]
pub enum LinkState {
    /// It is being made.
    Pending,
    /// It is ready.
    Ready,
    /// It failed.
    Failed,
    /// It has ended.
    Terminated,
}

/// What comes of one turn.
pub enum Progress {
    /// It is done.
    Done,
    /// Turn once more.
    Again,
    /// It cannot be done; why.
    Failed(String),
}

/// What comes of one turn while a query runs; `what` says what is asked.
pub open spec fn query_progress(
    turn: Turn,
    state: QueryState,
    what: Seq<char>,
    p: Progress,
) -> bool {
    match turn {
        Turn::Quit => p matches Progress::Failed(e) && e@ == "PulseAudio mainloop quit while "@
            + what,
        Turn::Failed(why) => p matches Progress::Failed(e) && e@
            == "PulseAudio mainloop error while "@ + what + ": "@ + why@,
        Turn::Success => match state {
            QueryState::Done => p is Done,
            QueryState::Running => p is Again,
            QueryState::Cancelled => p matches Progress::Failed(e) && e@
                == "PulseAudio query cancelled while "@ + what,
        },
    }
}

/// What comes of one turn while a query runs; `what` says what is asked.
pub fn wait_for(turn: Turn, state: QueryState, what: &str) -> (p: Progress)
    ensures
        query_progress(turn, state, what@, p),
{
    match turn {
        Turn::Quit => {
            let mut e = String::from_str("PulseAudio mainloop quit while ");
            e.append(what);
            Progress::Failed(e)
        },
        Turn::Failed(why) => {
            let mut e = String::from_str("PulseAudio mainloop error while ");
            e.append(what);
            e.append(": ");
            e.append(why.as_str());
            Progress::Failed(e)
        },
        Turn::Success => match state {
            QueryState::Done => Progress::Done,
            QueryState::Running => Progress::Again,
            QueryState::Cancelled => {
                let mut e = String::from_str("PulseAudio query cancelled while ");
                e.append(what);
                Progress::Failed(e)
            },
        },
    }
}

/// What comes of one turn while the connection is made.
pub open spec fn connect_progress(turn: Turn, state: LinkState, p: Progress) -> bool {
    match turn {
        Turn::Quit => p matches Progress::Failed(e) && e@
            == "PulseAudio mainloop quit during connect"@,
        Turn::Failed(why) => p matches Progress::Failed(e) && e@ == "PulseAudio mainloop error: "@
            + why@,
        Turn::Success => match state {
            LinkState::Ready => p is Done,
            LinkState::Pending => p is Again,
            _ => p matches Progress::Failed(e) && e@
                == "PulseAudio/PipeWire not available (context failed)"@,
        },
    }
}

/// What comes of one turn while the connection is made.
pub fn connect_pulse(turn: Turn, state: LinkState) -> (p: Progress)
    ensures
        connect_progress(turn, state, p),
{
    match turn {
        Turn::Quit => Progress::Failed(String::from_str("PulseAudio mainloop quit during connect")),
        Turn::Failed(why) => {
            let mut e = String::from_str("PulseAudio mainloop error: ");
            e.append(why.as_str());
            Progress::Failed(e)
        },
        Turn::Success => match state {
            LinkState::Ready => Progress::Done,
            LinkState::Pending => Progress::Again,
            _ => Progress::Failed(
                String::from_str("PulseAudio/PipeWire not available (context failed)"),
            ),
        },
    }
}

/// What comes of one turn while the stream of one application is opened.
pub open spec fn stream_progress(turn: Turn, state: LinkState, p: Progress) -> bool {
    match turn {
        Turn::Quit => p matches Progress::Failed(e) && e@
            == "mainloop quit connecting the stream"@,
        Turn::Failed(why) => p matches Progress::Failed(e) && e@ == "mainloop error: "@ + why@,
        Turn::Success => match state {
            LinkState::Ready => p is Done,
            LinkState::Pending => p is Again,
            LinkState::Failed => p matches Progress::Failed(e) && e@
                == "record stream failed to connect"@,
            LinkState::Terminated => p matches Progress::Failed(e) && e@
                == "record stream terminated"@,
        },
    }
}

/// What comes of one turn while the stream of one application is opened.
pub fn open_stream(turn: Turn, state: LinkState) -> (p: Progress)
    ensures
        stream_progress(turn, state, p),
{
    match turn {
        Turn::Quit => Progress::Failed(String::from_str("mainloop quit connecting the stream")),
        Turn::Failed(why) => {
            let mut e = String::from_str("mainloop error: ");
            e.append(why.as_str());
            Progress::Failed(e)
        },
        Turn::Success => match state {
            LinkState::Ready => Progress::Done,
            LinkState::Pending => Progress::Again,
            LinkState::Failed => Progress::Failed(
                String::from_str("record stream failed to connect"),
            ),
            LinkState::Terminated => Progress::Failed(String::from_str("record stream terminated")),
        },
    }
}

/// A list that is in order already stays as it is, so that ordering twice changes nothing more and
/// entries with equal names keep their order.
pub proof fn law_ordered_list_stays(v: Seq<AppView>)
    requires
        in_order(v),
    ensures
        by_name(v) == v,
    decreases v.len(),
{
    if v.len() > 0 {
        let rest = v.drop_last();
        assert forall|i: int, j: int| 0 <= i < j < rest.len() implies !text::before(
            #[trigger] sort_key(rest[j]),
            #[trigger] sort_key(rest[i]),
        ) by {
            assert(rest[i] == v[i] && rest[j] == v[j]);
        }
        law_ordered_list_stays(rest);
        if rest.len() > 0 {
            assert(!text::before(sort_key(v[v.len() - 1]), sort_key(v[v.len() - 2])));
            assert(rest.last() == v[v.len() - 2]);
        }
        assert(rest.push(v.last()) =~= v);
    }
}

/// A stream is called by the first of these that is not blank: the application's name, its program,
/// and its number.
pub proof fn law_streams_have_a_label(s: SinkInput)
    ensures
        text::trimmed(s.name@).len() > 0 ==> stream_label(s) == s.name@,
        text::trimmed(s.name@).len() == 0 && text::trimmed(s.binary@).len() > 0 ==> stream_label(s)
            == s.binary@,
        text::trimmed(s.name@).len() == 0 && text::trimmed(s.binary@).len() == 0 ==> stream_label(s)
            == "audio stream #"@ + text::decimal(s.index as nat),
{
}

/// What is kept of a stream is what the sound server says of it; a process is known only if it is
/// stated as a number.
pub proof fn law_streams_are_read(s: SinkInput, i: StreamInfo, pid: u32)
    requires
        is_stream(s, i),
    ensures
        s.index == i.index && s.sink == i.sink,
        i.pid is None ==> s.pid is None,
        (i.pid matches Some(t) && t@ == text::decimal(pid as nat)) ==> s.pid == Some(pid),
        i.name matches Some(n) ==> s.name@ == n@,
        i.name is None ==> s.name@.len() == 0,
        i.binary matches Some(b) ==> s.binary@ == b@,
        i.binary is None ==> s.binary@.len() == 0,
{
    text::law_numbers_are_read(Seq::empty(), pid as nat, u32::MAX as nat);
}

/// The entry of a process is that of its first stream: it has that stream's label and program.
pub proof fn law_first_stream_names_the_process(
    inputs: Seq<SinkInput>,
    exclude_pid: u32,
    k: int,
    pid: u32,
)
    requires
        0 <= k < inputs.len(),
        inputs[k].pid == Some(pid),
        pid != exclude_pid,
        forall|i: int| 0 <= i < k ==> (#[trigger] inputs[i]).pid != Some(pid),
    ensures
        playing(inputs, exclude_pid).contains(
            AppView { pid, name: stream_label(inputs[k]), exe: inputs[k].binary@, hwnd: None },
        ),
    decreases inputs.len(),
{
    let rest = inputs.drop_last();
    let out = playing(rest, exclude_pid);
    let all = playing(inputs, exclude_pid);
    let entry = AppView { pid, name: stream_label(inputs[k]), exe: inputs[k].binary@, hwnd: None };
    assert(forall|i: int| 0 <= i < rest.len() ==> (#[trigger] rest[i]) == inputs[i]);
    if k < rest.len() {
        law_first_stream_names_the_process(rest, exclude_pid, k, pid);
        let at = choose|at: int| 0 <= at < out.len() && out[at] == entry;
        assert(all[at] == entry);
    } else {
        if has_pid(out, pid) {
            lemma_played_before(rest, exclude_pid, pid);
        }
        assert(all[all.len() - 1] == entry);
    }
}

proof fn lemma_played_before(inputs: Seq<SinkInput>, exclude_pid: u32, pid: u32)
    requires
        has_pid(playing(inputs, exclude_pid), pid),
    ensures
        exists|i: int| 0 <= i < inputs.len() && (#[trigger] inputs[i]).pid == Some(pid),
    decreases inputs.len(),
{
    let rest = inputs.drop_last();
    let out = playing(rest, exclude_pid);
    let all = playing(inputs, exclude_pid);
    if has_pid(out, pid) {
        lemma_played_before(rest, exclude_pid, pid);
        let i = choose|i: int| 0 <= i < rest.len() && (#[trigger] rest[i]).pid == Some(pid);
        assert(inputs[i].pid == Some(pid));
    } else {
        let at = choose|at: int| 0 <= at < all.len() && (#[trigger] all[at]).pid == pid;
        if at < out.len() {
            assert(out[at].pid == pid);
        }
        assert(inputs[inputs.len() - 1].pid == Some(pid));
    }
}

/// A placeholder is known by its name, as a sink and as a monitor: `auto_null`, with or without a
/// number behind it, and `null`. No other device is taken for one.
pub proof fn law_placeholders_are_known(name: Seq<char>, tail: Seq<char>)
    ensures
        is_dummy("auto_null"@),
        is_dummy("null"@),
        is_dummy("auto_null"@ + ".monitor"@),
        is_dummy("null"@ + ".monitor"@),
        !".monitor"@.is_suffix_of("auto_null."@ + tail) ==> is_dummy("auto_null."@ + tail),
        is_dummy("auto_null."@ + tail + ".monitor"@),
        !".monitor"@.is_suffix_of(name) ==> is_dummy(name + ".monitor"@) == is_dummy(name),
        name.len() > 0 && name[0] != 'a' && name[0] != 'n' ==> !is_dummy(name),
{
    reveal_strlit("auto_null");
    reveal_strlit("null");
    reveal_strlit("auto_null.");
    reveal_strlit(".monitor");
    lemma_monitor_of("auto_null"@);
    lemma_monitor_of("null"@);
    lemma_monitor_of("auto_null."@ + tail);
    lemma_monitor_of(name);
    let a = "auto_null."@ + tail;
    assert("auto_null."@ =~= a.subrange(0, 10));
    if ".monitor"@.is_suffix_of("auto_null"@) {
        assert("auto_null"@.subrange(1, 9)[0] == 'u');
    }
    if name.len() > 0 && name[0] != 'a' && name[0] != 'n' {
        let sink = sink_of(name);
        if sink.len() > 0 {
            assert(sink[0] == name[0]);
            assert("auto_null"@[0] == 'a' && "null"@[0] == 'n');
            if "auto_null."@.is_prefix_of(sink) {
                assert(sink.subrange(0, 10)[0] == 'a');
            }
        }
    }
}

proof fn lemma_monitor_of(name: Seq<char>)
    ensures
        sink_of(name + ".monitor"@) == name,
{
    let m = name + ".monitor"@;
    assert(".monitor"@ =~= m.subrange(m.len() - ".monitor"@.len(), m.len() as int));
    assert(m.take(m.len() - ".monitor"@.len()) =~= name);
}

/// The default sink is captured unless it is a placeholder; then it is the first real one, in the
/// order of the sound server, and the placeholder where there is none.
pub proof fn law_default_sink_is_kept(default: Seq<char>, sinks: Seq<String>, k: int)
    ensures
        !is_dummy(default) ==> chosen_sink(default, sinks) == default,
        is_dummy(default) && 0 <= k < sinks.len() && !is_dummy(sinks[k]@) && (forall|i: int|
            0 <= i < k ==> is_dummy((#[trigger] sinks[i])@)) ==> chosen_sink(default, sinks)
            == sinks[k]@,
        (forall|i: int| 0 <= i < sinks.len() ==> is_dummy((#[trigger] sinks[i])@)) ==> chosen_sink(
            default,
            sinks,
        ) == default,
{
    lemma_first_real_place(sinks);
    let f = first_real(sinks);
    if f < sinks.len() {
        assert(!is_dummy(sinks[f]@));
    }
}

proof fn lemma_first_real_place(sinks: Seq<String>)
    ensures
        0 <= first_real(sinks) <= sinks.len(),
        first_real(sinks) < sinks.len() ==> !is_dummy(sinks[first_real(sinks)]@),
        forall|i: int| 0 <= i < first_real(sinks) ==> is_dummy((#[trigger] sinks[i])@),
    decreases sinks.len(),
{
    if sinks.len() > 0 && is_dummy(sinks[0]@) {
        let t = sinks.skip(1);
        lemma_first_real_place(t);
        assert forall|i: int| 0 <= i < first_real(sinks) implies is_dummy((#[trigger] sinks[i])@) by {
            if i > 0 {
                assert(t[i - 1] == sinks[i]);
            }
        }
    }
}

/// A captured placeholder is marked as one behind its name, and no real device is.
pub proof fn law_placeholder_is_marked(monitor: Seq<char>)
    ensures
        monitor.is_prefix_of(monitor_label(monitor)),
        is_dummy(monitor) ==> monitor_label(monitor).len() > monitor.len(),
        !is_dummy(monitor) ==> monitor_label(monitor) == monitor,
{
    reveal_strlit("  ");
    assert(monitor =~= monitor_label(monitor).subrange(0, monitor.len() as int));
}

/// Waiting for the sound server ends when it is ready or has failed, goes on while it is neither,
/// and a loop that was told to quit or failed always ends it.
pub proof fn law_waiting_ends(turn: Turn, q: QueryState, l: LinkState, what: Seq<char>, p: Progress)
    ensures
        query_progress(turn, q, what, p) ==> (p is Done <==> turn is Success && q == QueryState::Done)
            && (p is Again <==> turn is Success && q == QueryState::Running),
        connect_progress(turn, l, p) ==> (p is Done <==> turn is Success && l == LinkState::Ready)
            && (p
            is Again <==> turn is Success && l == LinkState::Pending),
        stream_progress(turn, l, p) ==> (p is Done <==> turn is Success && l == LinkState::Ready)
            && (p
            is Again <==> turn is Success && l == LinkState::Pending),
{
}

/// What is said when the chosen application does not play names its process, and what plays instead.
pub proof fn law_refusal_names_what_plays(all: Seq<SinkInput>, pid: u32, s: SinkInput)
    ensures
        text::occurs(not_playing_text(all, pid), "no audio stream from PID "@
            + text::decimal(pid as nat)),
        all.len() > 0 ==> text::occurs(not_playing_text(all, pid), joined_labels(all)),
        all.len() == 0 ==> text::occurs(not_playing_text(all, pid), "nothing"@),
        joined_labels(seq![s]) == stream_label(s),
        all.len() > 0 ==> joined_labels(all.push(s)) == joined_labels(all) + ", "@ + stream_label(s),
{
    let head = "no audio stream from PID "@ + text::decimal(pid as nat);
    let middle = " — the app must be actively playing to be captured (currently playing: "@;
    let list = if all.len() == 0 {
        "nothing"@
    } else {
        joined_labels(all)
    };
    let t = not_playing_text(all, pid);
    let none = Seq::<char>::empty();
    text::law_found_wherever_it_stands(none, head, middle + list + ")"@);
    assert(none + head + (middle + list + ")"@) =~= t);
    text::law_found_wherever_it_stands(head + middle, list, ")"@);
    assert(head + middle + list + ")"@ =~= t);
    assert(all.push(s).drop_last() =~= all);
}

} // verus!
