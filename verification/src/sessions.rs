//! The picker's list on Windows: windows with a title, and applications that play without one.

use crate::sources;
use crate::sources::AppView;
use crate::sources::AudioApp;
use crate::text;
use vstd::prelude::*;

verus! {

/// Most characters of a window's title that are shown.
pub const TITLE_MAX: usize = 56;

/// An audio session as the system lists it.
pub struct SessionInfo {
    /// Whether it has expired.
    pub expired: bool,
    /// The process, if the session states it.
    pub pid: Option<u32>,
    /// The program's file stem, if it can be found.
    pub exe: Option<String>,
}

/// The name of a session's program.
pub open spec fn session_exe(s: SessionInfo, pid: u32) -> Seq<char> {
    match s.exe {
        Some(e) => e@,
        None => "PID "@ + text::decimal(pid as nat),
    }
}

/// The entry of a session.
pub open spec fn session_entry(s: SessionInfo, pid: u32) -> AppView {
    AppView { pid, name: session_exe(s, pid), exe: session_exe(s, pid), hwnd: None }
}

/// One entry per process with a live session. System sounds, which are process 0, and the excluded
/// process have none.
pub open spec fn live_sessions(all: Seq<SessionInfo>, exclude_pid: u32) -> Seq<AppView>
    decreases all.len(),
{
    if all.len() == 0 {
        Seq::empty()
    } else {
        let out = live_sessions(all.drop_last(), exclude_pid);
        let s = all.last();
        match s.pid {
            None => out,
            Some(pid) => if s.expired || pid == 0 || pid == exclude_pid || sources::has_pid(
                out,
                pid,
            ) {
                out
            } else {
                out.push(session_entry(s, pid))
            },
        }
    }
}

/// The entries of the audio sessions.
pub fn enumerate_sessions(all: &Vec<SessionInfo>, exclude_pid: u32) -> (out: Vec<AudioApp>)
    ensures
        sources::app_views(out@) == live_sessions(all@, exclude_pid),
{
    let mut out: Vec<AudioApp> = Vec::new();
    let mut i: usize = 0;
    assert(sources::app_views(out@) =~= live_sessions(all@.take(0), exclude_pid));
    while i < all.len()
        invariant
            i <= all@.len(),
            sources::app_views(out@) == live_sessions(all@.take(i as int), exclude_pid),
        decreases all@.len() - i,
    {
        assert(all@.take(i + 1).drop_last() =~= all@.take(i as int));
        let s = &all[i];
        i += 1;
        if let Some(pid) = s.pid {
            if !s.expired && pid != 0 && pid != exclude_pid && !sources::lists_pid(&out, pid) {
                let exe = match &s.exe {
                    Some(e) => e.clone(),
                    None => {
                        let mut e = String::from_str("PID ");
                        text::append_decimal(&mut e, pid as u64);
                        e
                    },
                };
                let a = AudioApp { pid, name: exe.clone(), exe, hwnd: None };
                let ghost before = sources::app_views(out@);
                let ghost new = a@;
                out.push(a);
                assert(sources::app_views(out@) =~= before.push(new));
            }
        }
    }
    assert(all@.take(i as int) =~= all@);
    out
}

/// A top-level window as the system shows it.
pub struct WindowInfo {
    /// Whether it is visible.
    pub visible: bool,
    /// Whether another window owns it.
    pub owned: bool,
    /// Whether the system hides it.
    pub cloaked: bool,
    /// Its title.
    pub title: String,
    /// Its process.
    pub pid: u32,
    /// The program's file stem, if it can be found.
    pub exe: Option<String>,
    /// Its handle.
    pub hwnd: isize,
}

/// A title cut to what is shown.
pub open spec fn short_title(t: Seq<char>) -> Seq<char> {
    if t.len() > TITLE_MAX {
        t.take(TITLE_MAX - 1).push('…')
    } else {
        t
    }
}

/// Whether a window can be picked: it is visible, top-level, not hidden, has a title, and is neither
/// the desktop nor of the excluded process.
pub open spec fn pickable(w: WindowInfo, exclude_pid: u32) -> bool {
    let t = text::trimmed(w.title@);
    w.visible && !w.owned && !w.cloaked && t.len() > 0 && t != "Program Manager"@ && w.pid != 0
        && w.pid != exclude_pid
}

/// The program of a window, empty if it is not known.
pub open spec fn window_exe(w: WindowInfo) -> Seq<char> {
    match w.exe {
        Some(e) => e@,
        None => Seq::empty(),
    }
}

/// The entry of a window: its title, and the program behind a dash.
pub open spec fn window_view(w: WindowInfo) -> AppView {
    let title = short_title(text::trimmed(w.title@));
    AppView {
        pid: w.pid,
        name: if window_exe(w).len() > 0 {
            title + " — "@ + window_exe(w)
        } else {
            title
        },
        exe: window_exe(w),
        hwnd: Some(w.hwnd),
    }
}

fn shorten(t: &str) -> (s: String)
    ensures
        s@ == short_title(t@),
{
    let v = text::chars_of(t);
    if v.len() > TITLE_MAX {
        let mut s = text::string_of(v.as_slice(), 0, TITLE_MAX - 1);
        assert(v@.subrange(0, TITLE_MAX - 1) =~= t@.take(TITLE_MAX - 1));
        text::push_char(&mut s, '…');
        s
    } else {
        let s = text::string_of(v.as_slice(), 0, v.len());
        assert(s@ =~= t@);
        s
    }
}

/// The entry of a window, if it can be picked.
pub fn window_entry(w: &WindowInfo, exclude_pid: u32) -> (r: Option<AudioApp>)
    ensures
        r is Some <==> pickable(*w, exclude_pid),
        r matches Some(a) ==> a@ == window_view(*w),
{
    if !w.visible || w.owned || w.cloaked {
        return None;
    }
    let title = text::trim(w.title.as_str());
    if title.as_str().is_empty() || text::same_text(title.as_str(), "Program Manager") {
        return None;
    }
    if w.pid == 0 || w.pid == exclude_pid {
        return None;
    }
    let exe = match &w.exe {
        Some(e) => e.clone(),
        None => String::new(),
    };
    let mut label = shorten(title.as_str());
    if !exe.as_str().is_empty() {
        label.append(" — ");
        label.append(exe.as_str());
    }
    Some(AudioApp { pid: w.pid, name: label, exe, hwnd: Some(w.hwnd) })
}

/// Whether a window's program is this one, capitals or not.
pub open spec fn has_window(windows: Seq<AppView>, exe: Seq<char>) -> bool {
    exists|i: int|
        0 <= i < windows.len() && text::lowercase((#[trigger] windows[i]).exe) == text::lowercase(
            exe,
        )
}

/// The sessions whose program has no window.
pub open spec fn windowless(windows: Seq<AppView>, sessions: Seq<AppView>) -> Seq<AppView> {
    sessions.filter(|s: AppView| !has_window(windows, s.exe))
}

fn has_window_of(windows: &Vec<AudioApp>, exe: &str) -> (r: bool)
    ensures
        r == has_window(sources::app_views(windows@), exe@),
{
    let key = text::to_lower(exe);
    let mut i: usize = 0;
    while i < windows.len()
        invariant
            i <= windows@.len(),
            key@ == text::lowercase(exe@),
            forall|k: int|
                0 <= k < i ==> text::lowercase((#[trigger] sources::app_views(windows@)[k]).exe)
                    != text::lowercase(exe@),
        decreases windows@.len() - i,
    {
        assert(sources::app_views(windows@)[i as int] == windows@[i as int]@);
        if text::same_text(text::to_lower(windows[i].exe.as_str()).as_str(), key.as_str()) {
            return true;
        }
        i += 1;
    }
    false
}

/// The picker's list: every window, and the sessions of programs without one, ordered by name.
pub fn build_sources(windows: Vec<AudioApp>, sessions: Vec<AudioApp>) -> (out: Vec<AudioApp>)
    ensures
        sources::app_views(out@) == sources::by_name(
            sources::app_views(windows@) + windowless(
                sources::app_views(windows@),
                sources::app_views(sessions@),
            ),
        ),
{
    let ghost shown = sources::app_views(windows@);
    let ghost heard = sources::app_views(sessions@);
    let ghost lone = |s: AppView| !has_window(shown, s.exe);
    let mut extra: Vec<AudioApp> = Vec::new();
    let mut i: usize = 0;
    assert(heard.take(0).filter(lone) =~= Seq::<AppView>::empty()) by {
        reveal(Seq::filter);
    }
    assert(sources::app_views(extra@) =~= heard.take(0).filter(lone));
    while i < sessions.len()
        invariant
            i <= sessions@.len(),
            shown == sources::app_views(windows@),
            heard == sources::app_views(sessions@),
            lone == (|s: AppView| !has_window(shown, s.exe)),
            sources::app_views(extra@) == heard.take(i as int).filter(lone),
        decreases sessions@.len() - i,
    {
        proof {
            assert(heard.take(i + 1).drop_last() =~= heard.take(i as int));
            assert(heard.take(i + 1).last() == sessions@[i as int]@);
            reveal(Seq::filter);
        }
        if !has_window_of(&windows, sessions[i].exe.as_str()) {
            let ghost before = sources::app_views(extra@);
            let a = sources::copy_app(&sessions[i]);
            let ghost new = a@;
            extra.push(a);
            assert(sources::app_views(extra@) =~= before.push(new));
        }
        i += 1;
    }
    assert(heard.take(i as int) =~= heard);
    let mut all = windows;
    let ghost tail = sources::app_views(extra@);
    all.append(&mut extra);
    assert(sources::app_views(all@) =~= shown + tail);
    sources::sort_by_name(all)
}

/// The process whose sound is captured for a picked one: the process itself if it has a session, else
/// the first session of the same program, else the process itself.
pub open spec fn render_pid(
    target: u32,
    exe: Option<String>,
    sessions: Seq<AppView>,
) -> u32 {
    if sources::has_pid(sessions, target) {
        target
    } else {
        match exe {
            Some(e) => if text::lowercase(e@).len() > 0 {
                first_same_exe(sessions, text::lowercase(e@), target)
            } else {
                target
            },
            None => target,
        }
    }
}

/// The process of the first session of a program, or `other` if there is none.
pub open spec fn first_same_exe(sessions: Seq<AppView>, key: Seq<char>, other: u32) -> u32
    decreases sessions.len(),
{
    if sessions.len() == 0 {
        other
    } else if text::lowercase(sessions[0].exe) == key {
        sessions[0].pid
    } else {
        first_same_exe(sessions.skip(1), key, other)
    }
}

/// The process whose sound is captured for a picked one. `exe` is the program of the picked process
/// and `sessions` are all audio sessions.
pub fn resolve_render_pid(target: u32, exe: Option<String>, sessions: &Vec<AudioApp>) -> (pid: u32)
    ensures
        pid == render_pid(target, exe, sources::app_views(sessions@)),
{
    if sources::lists_pid(sessions, target) {
        return target;
    }
    let key = match &exe {
        Some(e) => text::to_lower(e.as_str()),
        None => {
            return target;
        },
    };
    if key.as_str().is_empty() {
        return target;
    }
    let ghost all = sources::app_views(sessions@);
    let mut i: usize = 0;
    assert(all.skip(0) =~= all);
    while i < sessions.len()
        invariant
            i <= sessions@.len(),
            all == sources::app_views(sessions@),
            render_pid(target, exe, all) == first_same_exe(all, key@, target),
            first_same_exe(all, key@, target) == first_same_exe(all.skip(i as int), key@, target),
        decreases sessions@.len() - i,
    {
        assert(all.skip(i as int)[0] == sessions@[i as int]@);
        if text::same_text(text::to_lower(sessions[i].exe.as_str()).as_str(), key.as_str()) {
            return sessions[i].pid;
        }
        assert(all.skip(i as int).skip(1) =~= all.skip(i + 1));
        i += 1;
    }
    target
}

/// A process that plays itself is captured as it was picked.
pub proof fn law_playing_process_is_kept(target: u32, exe: Option<String>, sessions: Seq<AppView>)
    requires
        sources::has_pid(sessions, target),
    ensures
        render_pid(target, exe, sessions) == target,
{
}

proof fn lemma_live(all: Seq<SessionInfo>, exclude_pid: u32)
    ensures
        forall|i: int, j: int|
            0 <= i < j < live_sessions(all, exclude_pid).len() ==> (#[trigger] live_sessions(
                all,
                exclude_pid,
            )[i]).pid != (#[trigger] live_sessions(all, exclude_pid)[j]).pid,
        forall|i: int|
            0 <= i < live_sessions(all, exclude_pid).len() ==> {
                let x = #[trigger] live_sessions(all, exclude_pid)[i];
                x.pid != 0 && x.pid != exclude_pid && x.hwnd is None && x.name == x.exe
            },
    decreases all.len(),
{
    if all.len() > 0 {
        lemma_live(all.drop_last(), exclude_pid);
        let out = live_sessions(all.drop_last(), exclude_pid);
        let now = live_sessions(all, exclude_pid);
        assert forall|i: int, j: int| 0 <= i < j < now.len() implies (#[trigger] now[i]).pid != (
        #[trigger] now[j]).pid by {
            if j < out.len() {
                assert(out[i].pid != out[j].pid);
            } else {
                assert(out[i] == now[i]);
            }
        }
    }
}

/// The system's own sounds and the excluded process are never offered, and a process is offered once.
pub proof fn law_sessions_that_are_offered(all: Seq<SessionInfo>, exclude_pid: u32, i: int, j: int)
    requires
        0 <= i < j < live_sessions(all, exclude_pid).len(),
    ensures
        live_sessions(all, exclude_pid)[i].pid != live_sessions(all, exclude_pid)[j].pid,
        live_sessions(all, exclude_pid)[i].pid != 0,
        live_sessions(all, exclude_pid)[j].pid != 0,
        live_sessions(all, exclude_pid)[i].pid != exclude_pid,
        live_sessions(all, exclude_pid)[j].pid != exclude_pid,
{
    lemma_live(all, exclude_pid);
}

/// Every process with a session that has not expired is offered.
pub proof fn law_every_live_session_is_offered(
    all: Seq<SessionInfo>,
    exclude_pid: u32,
    k: int,
    pid: u32,
)
    requires
        0 <= k < all.len(),
        !all[k].expired,
        all[k].pid == Some(pid),
        pid != 0,
        pid != exclude_pid,
    ensures
        sources::has_pid(live_sessions(all, exclude_pid), pid),
    decreases all.len(),
{
    let rest = all.drop_last();
    let out = live_sessions(rest, exclude_pid);
    let now = live_sessions(all, exclude_pid);
    if k < rest.len() {
        assert(rest[k] == all[k]);
        law_every_live_session_is_offered(rest, exclude_pid, k, pid);
    }
    if sources::has_pid(out, pid) {
        let i = choose|i: int| 0 <= i < out.len() && (#[trigger] out[i]).pid == pid;
        assert(now[i].pid == pid);
    } else {
        assert(now[now.len() - 1].pid == pid);
    }
}

/// What is offered has a session behind it that has not expired, and shows its program, or its
/// process where the program is not known.
pub proof fn law_offered_sessions_are_live(all: Seq<SessionInfo>, exclude_pid: u32, i: int) -> (k: int)
    requires
        0 <= i < live_sessions(all, exclude_pid).len(),
    ensures
        0 <= k < all.len(),
        !all[k].expired,
        all[k].pid == Some(live_sessions(all, exclude_pid)[i].pid),
        all[k].exe matches Some(e) ==> live_sessions(all, exclude_pid)[i].exe == e@,
        all[k].exe is None ==> live_sessions(all, exclude_pid)[i].exe == "PID "@ + text::decimal(
            live_sessions(all, exclude_pid)[i].pid as nat,
        ),
        live_sessions(all, exclude_pid)[i].name == live_sessions(all, exclude_pid)[i].exe,
    decreases all.len(),
{
    let rest = all.drop_last();
    let out = live_sessions(rest, exclude_pid);
    if i < out.len() {
        let k = law_offered_sessions_are_live(rest, exclude_pid, i);
        assert(rest[k] == all[k]);
        k
    } else {
        all.len() - 1
    }
}

/// A window is offered only if somebody can see it and it has a title; the desktop and the excluded
/// process's windows are not.
pub proof fn law_windows_that_are_offered(w: WindowInfo, exclude_pid: u32)
    ensures
        pickable(w, exclude_pid) ==> w.visible && !w.owned && !w.cloaked && w.pid != exclude_pid
            && w.pid
            != 0 && text::trimmed(w.title@).len() > 0,
        text::trimmed(w.title@) == "Program Manager"@ ==> !pickable(w, exclude_pid),
        w.visible && !w.owned && !w.cloaked && w.pid != 0 && w.pid != exclude_pid && text::trimmed(
            w.title@,
        ).len() > 0 && text::trimmed(w.title@) != "Program Manager"@ ==> pickable(w, exclude_pid),
{
}

/// A title is shown whole up to 56 characters; a longer one is cut to 56 with an ellipsis at its end.
pub proof fn law_titles_are_cut(t: Seq<char>)
    ensures
        t.len() <= 56 ==> short_title(t) == t,
        t.len() > 56 ==> short_title(t).len() == 56 && short_title(t).last() == '…'
            && short_title(t).drop_last() == t.subrange(0, 55),
{
    if t.len() > 56 {
        assert(short_title(t).drop_last() =~= t.subrange(0, 55));
    }
}

/// A window's entry leads to that window and its process, and begins with its title.
pub proof fn law_window_entry(w: WindowInfo)
    ensures
        window_view(w).pid == w.pid,
        window_view(w).hwnd == Some(w.hwnd),
        w.exe matches Some(e) ==> window_view(w).exe == e@,
        short_title(text::trimmed(w.title@)).is_prefix_of(window_view(w).name),
        w.exe is None ==> window_view(w).name == short_title(text::trimmed(w.title@)),
        (w.exe matches Some(e) && e@.len() > 0) ==> window_view(w).name == short_title(
            text::trimmed(w.title@),
        ) + " — "@ + w.exe->Some_0@,
{
    let t = short_title(text::trimmed(w.title@));
    assert(t =~= window_view(w).name.subrange(0, t.len() as int));
}

/// A program with a window is offered as its window and not again as a session; a program without
/// one is offered as its session.
pub proof fn law_windows_stand_for_sessions(windows: Seq<AppView>, sessions: Seq<AppView>, s: AppView)
    ensures
        windowless(windows, sessions).contains(s) <==> sessions.contains(s) && (forall|i: int|
            0 <= i < windows.len()
                ==> text::lowercase((#[trigger] windows[i]).exe) != text::lowercase(
                s.exe,
            )),
{
    let keep = |x: AppView| !has_window(windows, x.exe);
    let kept = sessions.filter(keep);
    assert(windowless(windows, sessions) == kept);
    if kept.contains(s) {
        let i = choose|i: int| 0 <= i < kept.len() && kept[i] == s;
        sessions.lemma_filter_pred(keep, i);
        lemma_kept_is_there(sessions, keep, i);
        assert(!has_window(windows, s.exe));
    }
    if sessions.contains(s) && !has_window(windows, s.exe) {
        let i = choose|i: int| 0 <= i < sessions.len() && sessions[i] == s;
        sessions.lemma_filter_contains(keep, i);
    }
}

proof fn lemma_kept_is_there(v: Seq<AppView>, keep: spec_fn(AppView) -> bool, i: int)
    requires
        0 <= i < v.filter(keep).len(),
    ensures
        v.contains(v.filter(keep)[i]),
    decreases v.len(),
{
    reveal(Seq::filter);
    let rest = v.drop_last();
    let x = v.filter(keep)[i];
    if i < rest.filter(keep).len() {
        lemma_kept_is_there(rest, keep, i);
        let k = choose|k: int| 0 <= k < rest.len() && rest[k] == x;
        assert(v[k] == x);
    } else {
        assert(v[v.len() - 1] == x);
    }
}

/// The sound of a process that does not play itself is taken from the first session of the same
/// program, capitals or not, and from the process itself where there is none.
pub proof fn law_sound_of_the_same_program(
    target: u32,
    exe: String,
    other: String,
    sessions: Seq<AppView>,
    k: int,
)
    requires
        !sources::has_pid(sessions, target),
        text::lowercase(exe@).len() > 0,
    ensures
        0 <= k < sessions.len() && text::lowercase(sessions[k].exe) == text::lowercase(exe@) && (
        forall|i: int|
            0 <= i < k ==> text::lowercase((#[trigger] sessions[i]).exe) != text::lowercase(exe@))
            ==> render_pid(target, Some(exe), sessions) == sessions[k].pid,
        (forall|i: int|
            0 <= i < sessions.len() ==> text::lowercase((#[trigger] sessions[i]).exe)
                != text::lowercase(exe@)) ==> render_pid(target, Some(exe), sessions) == target,
        render_pid(target, None, sessions) == target,
        text::lowercase(other@).len() == 0 ==> render_pid(target, Some(other), sessions) == target,
{
    lemma_same_exe(sessions, text::lowercase(exe@), target, k);
}

proof fn lemma_same_exe(sessions: Seq<AppView>, key: Seq<char>, other: u32, k: int)
    ensures
        0 <= k < sessions.len() && text::lowercase(sessions[k].exe) == key && (forall|i: int|
            0 <= i < k ==> text::lowercase((#[trigger] sessions[i]).exe) != key) ==> first_same_exe(
            sessions,
            key,
            other,
        ) == sessions[k].pid,
        (forall|i: int|
            0 <= i < sessions.len() ==> text::lowercase((#[trigger] sessions[i]).exe) != key)
            ==> first_same_exe(sessions, key, other) == other,
    decreases sessions.len(),
{
    if sessions.len() > 0 && text::lowercase(sessions[0].exe) != key {
        let rest = sessions.skip(1);
        assert(forall|i: int| 0 <= i < rest.len() ==> (#[trigger] rest[i]) == sessions[i + 1]);
        lemma_same_exe(rest, key, other, k - 1);
        if 0 <= k < sessions.len() {
            if k > 0 {
                assert(rest[k - 1] == sessions[k]);
            }
        }
    }
}

} // verus!
