//! The status page that lists the connected clients.

use crate::health;
use crate::health::MediaHealth;
use crate::registry;
use crate::registry::ClientEntry;
use crate::registry::EntryView;
use crate::registry::Registry;
use crate::text;
use vstd::prelude::*;

verus! {

/// The page up to its body's contents.
pub const STATUS_HEAD: &'static str = "<!doctype html><html lang=en><head><meta charset=utf-8>\
<title>Newfoundsync — clients</title><meta http-equiv=refresh content=2>\
<meta name=viewport content=\"width=device-width, initial-scale=1\"><meta name=color-scheme content=dark>\
<style>body{background:#0b0f15;color:#e8eef5;font:14px system-ui,'Segoe UI',sans-serif;margin:0;padding:18px}\
h1{font-size:18px;margin:0 0 12px}.dim{color:#94a1b2}\
table{border-collapse:collapse;width:100%;max-width:780px}\
th,td{text-align:left;padding:8px 12px;border-bottom:1px solid #2a3340}\
th{color:#94a1b2;font-weight:600;font-size:12px}td{font-variant-numeric:tabular-nums}</style></head><body>";

/// The banner of a pipeline that fell silent.
pub const SILENCE_BANNER: &'static str = "<p style=\"background:#3b1f1f;border:1px solid #a8443c;color:#ffd9d4;\
padding:10px 12px;border-radius:4px;margin:0 0 12px\">\
<b>Audio has stopped.</b> The pipeline was producing and is now silent — clients are \
still connected and will hear nothing. Check the server's capture source.</p>";

/// The banner of a screen capture that was closed.
pub const CLOSED_BANNER: &'static str = "<p style=\"background:#362b14;border:1px solid #94690d;color:#f7edd5;\
padding:10px 12px;border-radius:4px;margin:0 0 12px\">\
<b>The screen-capture session was closed.</b> The shared window or display is gone, so \
clients see a frozen picture. Re-pick the video source.</p>";

/// What stands between the number of clients and the rows.
pub const TABLE_HEAD: &'static str = ")</span></h1><table><thead><tr><th>Device</th><th>Status</th><th>Sync</th><th>Volume</th><th>Dropped</th><th>Calibration</th></tr></thead><tbody>";

/// The row of a table without clients.
pub const EMPTY_ROW: &'static str = "<tr><td colspan=6 class=dim>No clients connected yet.</td></tr>";

/// What stands between the rows and the build.
pub const TABLE_FOOT: &'static str = "</tbody></table><p class=dim>Auto-refreshes every 2 s · server-side view (works headless) · build ";

/// What stands behind the build.
pub const PAGE_FOOT: &'static str = " · <a href=/health style=color:#94a1b2>/health</a></p></body></html>";

/// A character as it stands in HTML text or a quoted attribute.
pub open spec fn escaped_char(c: char) -> Seq<char> {
    if c == '&' {
        "&amp;"@
    } else if c == '<' {
        "&lt;"@
    } else if c == '>' {
        "&gt;"@
    } else if c == '"' {
        "&quot;"@
    } else {
        seq![c]
    }
}

/// A text as it stands in HTML text or a quoted attribute.
pub open spec fn escaped(s: Seq<char>) -> Seq<char>
    decreases s.len(),
{
    if s.len() == 0 {
        Seq::empty()
    } else {
        escaped(s.drop_last()) + escaped_char(s.last())
    }
}

/// Escapes a text for HTML.
pub fn html_escape(s: &str) -> (r: String)
    ensures
        r@ == escaped(s@),
{
    let v = text::chars_of(s);
    let mut r = String::new();
    let mut i: usize = 0;
    while i < v.len()
        invariant
            v@ == s@,
            i <= v@.len(),
            r@ == escaped(s@.take(i as int)),
        decreases v@.len() - i,
    {
        let c: char = v[i];
        assert(s@.take(i + 1).drop_last() =~= s@.take(i as int));
        if c == '&' {
            r.append("&amp;");
        } else if c == '<' {
            r.append("&lt;");
        } else if c == '>' {
            r.append("&gt;");
        } else if c == '"' {
            r.append("&quot;");
        } else {
            text::push_char(&mut r, c);
            assert(r@ =~= escaped(s@.take(i as int)) + seq![c]);
        }
        i += 1;
    }
    assert(s@.take(i as int) =~= s@);
    r
}

/// A text that was escaped holds no bracket and no quote, so it can neither open a tag nor end an
/// attribute.
pub proof fn law_escaped_is_inert(s: Seq<char>)
    ensures
        forall|i: int|
            0 <= i < escaped(s).len() ==> {
                let c = #[trigger] escaped(s)[i];
                c != '<' && c != '>' && c != '"'
            },
    decreases s.len(),
{
    if s.len() > 0 {
        let front = escaped(s.drop_last());
        let tail = escaped_char(s.last());
        law_escaped_is_inert(s.drop_last());
        reveal_strlit("&amp;");
        reveal_strlit("&lt;");
        reveal_strlit("&gt;");
        reveal_strlit("&quot;");
        assert forall|i: int| 0 <= i < escaped(s).len() implies {
            let c = #[trigger] escaped(s)[i];
            c != '<' && c != '>' && c != '"'
        } by {
            if i < front.len() {
                assert(escaped(s)[i] == front[i]);
            } else {
                assert(escaped(s)[i] == tail[i - front.len()]);
            }
        }
    }
}

/// The name of a client in the table.
pub open spec fn cell_name(e: EntryView) -> Seq<char> {
    if text::trimmed(e.name).len() == 0 {
        registry::default_client_name(e.conn_id)
    } else {
        escaped(e.name)
    }
}

/// The sync offset of a client in the table: what it reported, else what it was told.
pub open spec fn cell_sync(e: EntryView) -> Seq<char> {
    match e.reported_trim_ms {
        Some(ms) => text::signed_decimal(ms as int) + " ms"@,
        None => text::signed_decimal(e.trim_ms as int) + " ms (cmd)"@,
    }
}

/// The row of a client whose volume is `volume` percent.
pub open spec fn row(e: EntryView, volume: i64) -> Seq<char> {
    "<tr><td>"@ + cell_name(e) + "</td><td>"@ + (if e.identified {
        "connected"@
    } else {
        "connecting…"@
    }) + "</td><td>"@ + cell_sync(e) + "</td><td>"@ + text::decimal_int(volume as int) + "%"@ + (
    if e.frames_dropped > 0 {
        "</td><td>"@
    } else {
        "</td><td class=dim>"@
    }) + text::decimal(e.frames_dropped as nat) + "</td><td class=dim>"@ + escaped(e.calib_status)
        + "</td></tr>"@
}

/// The rows of the first `n` clients.
pub open spec fn rows(entries: Seq<ClientEntry>, volumes: Seq<i64>, n: nat) -> Seq<char>
    decreases n,
{
    if n == 0 {
        Seq::empty()
    } else {
        rows(entries, volumes, (n - 1) as nat) + row(entries[n - 1]@, volumes[n - 1])
    }
}

/// The warning above the table, if there is one.
pub open spec fn banner(audio_stalled: bool, capture_closed: bool) -> Seq<char> {
    if audio_stalled {
        SILENCE_BANNER@
    } else if capture_closed {
        CLOSED_BANNER@
    } else {
        Seq::empty()
    }
}

/// The whole page.
pub open spec fn page(
    entries: Seq<ClientEntry>,
    volumes: Seq<i64>,
    warning: Seq<char>,
    build: Seq<char>,
) -> Seq<char> {
    STATUS_HEAD@ + warning + "<h1>Connected clients <span class=dim>("@ + text::decimal(
        entries.len(),
    ) + TABLE_HEAD@ + (if entries.len() == 0 {
        EMPTY_ROW@
    } else {
        rows(entries, volumes, entries.len())
    }) + TABLE_FOOT@ + escaped(build) + PAGE_FOOT@
}

fn name_cell(e: &ClientEntry) -> (s: String)
    ensures
        s@ == cell_name(e@),
{
    if text::is_blank(e.name.as_str()) {
        registry::unnamed_client(e.conn_id)
    } else {
        html_escape(e.name.as_str())
    }
}

fn sync_cell(e: &ClientEntry) -> (s: String)
    ensures
        s@ == cell_sync(e@),
{
    let mut s = String::new();
    match e.reported_trim_ms {
        Some(ms) => {
            text::append_signed(&mut s, ms as i64);
            s.append(" ms");
            assert(s@ =~= cell_sync(e@));
        },
        None => {
            text::append_signed(&mut s, e.trim_ms as i64);
            s.append(" ms (cmd)");
            assert(s@ =~= cell_sync(e@));
        },
    }
    s
}

fn client_row(e: &ClientEntry, volume: i64) -> (s: String)
    ensures
        s@ == row(e@, volume),
{
    let mut s = String::from_str("<tr><td>");
    s.append(name_cell(e).as_str());
    s.append("</td><td>");
    s.append(
        if e.identified {
            "connected"
        } else {
            "connecting…"
        },
    );
    s.append("</td><td>");
    s.append(sync_cell(e).as_str());
    s.append("</td><td>");
    text::append_decimal_int(&mut s, volume);
    s.append("%");
    s.append(
        if e.frames_dropped > 0 {
            "</td><td>"
        } else {
            "</td><td class=dim>"
        },
    );
    text::append_decimal(&mut s, e.frames_dropped);
    s.append("</td><td class=dim>");
    s.append(html_escape(e.calib_status.as_str()).as_str());
    s.append("</td></tr>");
    s
}

/// The status page at `now`. `volumes` are the effective volumes in percent, client by client.
pub fn status_page(
    reg: &Registry,
    volumes: &[i64],
    health: &MediaHealth,
    cast_source: bool,
    build: &str,
    now: i64,
) -> (s: String)
    requires
        volumes@.len() == reg.entries@.len(),
    ensures
        s@ == page(
            reg.entries@,
            volumes@,
            banner(
                health::audio_fault(
                    health::stall(health.last_audio_ns, now),
                    cast_source,
                    reg.caster is Some,
                ),
                health.capture_closed,
            ),
            build@,
        ),
{
    let mut rows_text = String::new();
    let n: usize = reg.entries.len();
    let mut i: usize = 0;
    while i < n
        invariant
            n == reg.entries@.len(),
            volumes@.len() == n,
            i <= n,
            rows_text@ == rows(reg.entries@, volumes@, i as nat),
        decreases n - i,
    {
        rows_text.append(client_row(&reg.entries[i], volumes[i]).as_str());
        i += 1;
    }
    if n == 0 {
        rows_text.append(EMPTY_ROW);
        assert(rows_text@ =~= EMPTY_ROW@);
    }
    let mut s = String::from_str(STATUS_HEAD);
    let ghost head = s@;
    if health::audio_stall_is_a_fault(health, cast_source, reg.caster.is_some(), now) {
        s.append(SILENCE_BANNER);
    } else if health.capture_closed {
        s.append(CLOSED_BANNER);
    } else {
        assert(head + Seq::<char>::empty() =~= head);
    }
    s.append("<h1>Connected clients <span class=dim>(");
    text::append_decimal(&mut s, n as u64);
    s.append(TABLE_HEAD);
    s.append(rows_text.as_str());
    s.append(TABLE_FOOT);
    s.append(html_escape(build).as_str());
    s.append(PAGE_FOOT);
    s
}

/// Texts are escaped character by character, in their order: what HTML reads as markup becomes a
/// reference to itself, and every other character stays.
pub proof fn law_escaping_is_in_order(a: Seq<char>, b: Seq<char>, c: char)
    ensures
        escaped(a + b) == escaped(a) + escaped(b),
        escaped(seq!['&']) == "&amp;"@,
        escaped(seq!['<']) == "&lt;"@,
        escaped(seq!['>']) == "&gt;"@,
        escaped(seq!['"']) == "&quot;"@,
        c != '&' && c != '<' && c != '>' && c != '"' ==> escaped(seq![c]) == seq![c],
    decreases b.len(),
{
    reveal_with_fuel(escaped, 2);
    assert(forall|x: char| #![trigger seq![x]] seq![x].drop_last() =~= Seq::<char>::empty());
    assert(escaped(seq!['&']) =~= "&amp;"@);
    assert(escaped(seq!['<']) =~= "&lt;"@);
    assert(escaped(seq!['>']) =~= "&gt;"@);
    assert(escaped(seq!['"']) =~= "&quot;"@);
    assert(escaped(seq![c]) =~= escaped_char(c));
    if b.len() > 0 {
        law_escaping_is_in_order(a, b.drop_last(), c);
        assert((a + b).drop_last() =~= a + b.drop_last());
        assert(escaped(a + b) =~= escaped(a) + escaped(b));
    } else {
        assert(a + b =~= a);
        assert(escaped(a + b) =~= escaped(a) + escaped(b));
    }
}

/// The table shows a client's own name if it has one and a made-up one otherwise, and the offset
/// that the client reported rather than the one it was told.
pub proof fn law_cells(e: EntryView, ms: i32)
    ensures
        text::trimmed(e.name).len() > 0 ==> cell_name(e) == escaped(e.name),
        text::trimmed(e.name).len() == 0 ==> cell_name(e) == "Client "@ + text::decimal(
            e.conn_id as nat,
        ),
        e.reported_trim_ms == Some(ms) ==> cell_sync(e) == text::signed_decimal(ms as int) + " ms"@,
        e.reported_trim_ms is None && e.trim_ms == ms
            ==> cell_sync(e) == text::signed_decimal(ms as int)
            + " ms (cmd)"@,
{
}

proof fn lemma_cell(
    front: Seq<char>,
    p: Seq<char>,
    cell: Seq<char>,
    q: Seq<char>,
    open: Seq<char>,
    close: Seq<char>,
)
    requires
        open.is_suffix_of(p),
        close.is_prefix_of(q),
    ensures
        text::occurs(front + p + cell + q, open + cell + close),
{
    let whole = front + p + cell + q;
    let needle = open + cell + close;
    let at = front.len() + p.len() - open.len();
    assert(open =~= p.subrange(p.len() - open.len(), p.len() as int));
    assert(close =~= q.subrange(0, close.len() as int));
    assert(whole.subrange(at, at + needle.len()) =~= needle);
    assert(text::occurs_at(whole, needle, at));
}

proof fn lemma_tags()
    ensures
        "<td>"@.is_suffix_of("<tr><td>"@),
        "<td>"@.is_suffix_of("</td><td>"@),
        "<td class=dim>"@.is_suffix_of("</td><td class=dim>"@),
        "</td>"@.is_prefix_of("</td><td>"@),
        "</td>"@.is_prefix_of("</td><td class=dim>"@),
        "</td>"@.is_prefix_of("</td></tr>"@),
        "%"@ + "</td>"@ == "%</td>"@,
{
    reveal_strlit("<td>");
    reveal_strlit("<tr><td>");
    reveal_strlit("</td>");
    reveal_strlit("</td><td>");
    reveal_strlit("<td class=dim>");
    reveal_strlit("</td><td class=dim>");
    reveal_strlit("</td></tr>");
    reveal_strlit("%");
    reveal_strlit("%</td>");
    assert("<td>"@ =~= "<tr><td>"@.subrange(4, 8));
    assert("<td>"@ =~= "</td><td>"@.subrange(5, 9));
    assert("<td class=dim>"@ =~= "</td><td class=dim>"@.subrange(5, 19));
    assert("</td>"@ =~= "</td><td>"@.subrange(0, 5));
    assert("</td>"@ =~= "</td><td class=dim>"@.subrange(0, 5));
    assert("</td>"@ =~= "</td></tr>"@.subrange(0, 5));
    assert("%"@ + "</td>"@ =~= "%</td>"@);
}

/// A row has a cell for the name, for whether the client is there, for its offset, its volume, the
/// frames that it lost and how far it is with a calibration.
pub proof fn law_row_has_the_cells(e: EntryView, volume: i64)
    ensures
        ({
            let state = if e.identified {
                "connected"@
            } else {
                "connecting…"@
            };
            let r = row(e, volume);
            &&& text::occurs(r, "<td>"@ + cell_name(e) + "</td>"@)
            &&& text::occurs(r, "<td>"@ + state + "</td>"@)
            &&& text::occurs(r, "<td>"@ + cell_sync(e) + "</td>"@)
            &&& text::occurs(r, "<td>"@ + text::decimal_int(volume as int) + "%</td>"@)
            &&& text::occurs(
                r,
                (if e.frames_dropped > 0 {
                    "<td>"@
                } else {
                    "<td class=dim>"@
                }) + text::decimal(e.frames_dropped as nat) + "</td>"@,
            )
            &&& text::occurs(r, "<td class=dim>"@ + escaped(e.calib_status) + "</td>"@)
        }),
{
    lemma_tags();
    let state = if e.identified {
        "connected"@
    } else {
        "connecting…"@
    };
    let vol = text::decimal_int(volume as int);
    let lost = text::decimal(e.frames_dropped as nat);
    let (lost_tags, lost_open) = if e.frames_dropped > 0 {
        ("</td><td>"@, "<td>"@)
    } else {
        ("</td><td class=dim>"@, "<td class=dim>"@)
    };
    let td = "<td>"@;
    let end = "</td>"@;
    let next = "</td><td>"@;
    let none = Seq::<char>::empty();
    let p1 = "<tr><td>"@ + cell_name(e) + next;
    lemma_cell(none, "<tr><td>"@, cell_name(e), next, td, end);
    assert(none + "<tr><td>"@ =~= "<tr><td>"@);
    let h1 = "<tr><td>"@ + cell_name(e);
    let p2 = p1 + state + next;
    lemma_cell(h1, next, state, next, td, end);
    let h2 = p1 + state;
    let p3 = p2 + cell_sync(e) + next;
    lemma_cell(h2, next, cell_sync(e), next, td, end);
    let h3 = p2 + cell_sync(e);
    let p4 = p3 + vol + "%"@ + lost_tags;
    lemma_cell(h3, next, vol + "%"@, lost_tags, td, end);
    assert(h3 + next + (vol + "%"@) + lost_tags =~= p4);
    assert(td + (vol + "%"@) + end =~= td + vol + ("%"@ + end));
    let h4 = p3 + vol + "%"@;
    let p5 = p4 + lost + "</td><td class=dim>"@;
    lemma_cell(h4, lost_tags, lost, "</td><td class=dim>"@, lost_open, end);
    let h5 = p4 + lost;
    let p6 = p5 + escaped(e.calib_status) + "</td></tr>"@;
    lemma_cell(h5, "</td><td class=dim>"@, escaped(e.calib_status), "</td></tr>"@, "<td class=dim>"@, end);
    assert(p6 == row(e, volume));
    let n1 = td + cell_name(e) + end;
    let n2 = td + state + end;
    let n3 = td + cell_sync(e) + end;
    let n4 = td + vol + "%</td>"@;
    let n5 = lost_open + lost + end;
    text::lemma_more(p1, state, n1);
    text::lemma_more(p1 + state, next, n1);
    text::lemma_more(p2, cell_sync(e), n1);
    text::lemma_more(p2, cell_sync(e), n2);
    text::lemma_more(h3, next, n1);
    text::lemma_more(h3, next, n2);
    lemma_rest(p3, vol, "%"@, lost_tags, lost, "</td><td class=dim>"@, n1);
    lemma_rest(p3, vol, "%"@, lost_tags, lost, "</td><td class=dim>"@, n2);
    lemma_rest(p3, vol, "%"@, lost_tags, lost, "</td><td class=dim>"@, n3);
    text::lemma_more(p4, lost, n4);
    text::lemma_more(h5, "</td><td class=dim>"@, n4);
    lemma_rest_end(p5, escaped(e.calib_status), "</td></tr>"@, n1);
    lemma_rest_end(p5, escaped(e.calib_status), "</td></tr>"@, n2);
    lemma_rest_end(p5, escaped(e.calib_status), "</td></tr>"@, n3);
    lemma_rest_end(p5, escaped(e.calib_status), "</td></tr>"@, n4);
    lemma_rest_end(p5, escaped(e.calib_status), "</td></tr>"@, n5);
}

proof fn lemma_rest_end(found: Seq<char>, a: Seq<char>, b: Seq<char>, needle: Seq<char>)
    requires
        text::occurs(found, needle),
    ensures
        text::occurs(found + a + b, needle),
{
    text::lemma_more(found, a, needle);
    text::lemma_more(found + a, b, needle);
}

proof fn lemma_rest(
    found: Seq<char>,
    a: Seq<char>,
    b: Seq<char>,
    c: Seq<char>,
    d: Seq<char>,
    e: Seq<char>,
    needle: Seq<char>,
)
    requires
        text::occurs(found, needle),
    ensures
        text::occurs(found + a + b + c + d + e, needle),
{
    lemma_rest_end(found, a, b, needle);
    lemma_rest_end(found + a + b, c, d, needle);
    text::lemma_more(found + a + b + c + d, e, needle);
}

proof fn lemma_row_found(entries: Seq<ClientEntry>, volumes: Seq<i64>, n: nat, i: int)
    requires
        0 <= i < n <= entries.len(),
        volumes.len() == entries.len(),
    ensures
        text::occurs(rows(entries, volumes, n), row(entries[i]@, volumes[i])),
    decreases n,
{
    let last = row(entries[n - 1]@, volumes[n - 1]);
    let rest = rows(entries, volumes, (n - 1) as nat);
    if i == n - 1 {
        text::law_found_wherever_it_stands(rest, last, Seq::empty());
        assert(rest + last + Seq::<char>::empty() =~= rest + last);
    } else {
        lemma_row_found(entries, volumes, (n - 1) as nat, i);
        let r = row(entries[i]@, volumes[i]);
        let at = choose|at: int| text::occurs_at(rest, r, at);
        let all = rest + last;
        assert(all.subrange(at, at + r.len()) =~= rest.subrange(at, at + r.len()));
        assert(text::occurs_at(all, r, at));
    }
}

/// The page has a row for every client, how many there are, the warning and the build; without
/// clients it says so.
pub proof fn law_page_lists_everybody(
    entries: Seq<ClientEntry>,
    volumes: Seq<i64>,
    warning: Seq<char>,
    build: Seq<char>,
    i: int,
)
    requires
        volumes.len() == entries.len(),
    ensures
        ({
            let p = page(entries, volumes, warning, build);
            &&& 0 <= i < entries.len() ==> text::occurs(p, row(entries[i]@, volumes[i]))
            &&& entries.len() == 0 ==> text::occurs(p, "No clients connected yet."@)
            &&& text::occurs(p, warning)
            &&& text::occurs(
                p,
                "Connected clients <span class=dim>("@ + text::decimal(entries.len()) + ")"@,
            )
            &&& text::occurs(p, "build "@ + escaped(build))
        }),
{
    let p = page(entries, volumes, warning, build);
    let title = "<h1>Connected clients <span class=dim>("@;
    let number = text::decimal(entries.len());
    let list = if entries.len() == 0 {
        EMPTY_ROW@
    } else {
        rows(entries, volumes, entries.len())
    };
    let top = STATUS_HEAD@ + warning + title + number + TABLE_HEAD@;
    let low = TABLE_FOOT@ + escaped(build) + PAGE_FOOT@;
    assert(p =~= top + list + low);
    if 0 <= i < entries.len() {
        lemma_row_found(entries, volumes, entries.len(), i);
        text::lemma_within(top, list, low, row(entries[i]@, volumes[i]));
    }
    if entries.len() == 0 {
        reveal_strlit("<tr><td colspan=6 class=dim>No clients connected yet.</td></tr>");
        reveal_strlit("No clients connected yet.");
        let words = "No clients connected yet."@;
        assert(list.subrange(28, 28 + words.len() as int) =~= words);
        assert(text::occurs_at(list, words, 28));
        text::lemma_within(top, list, low, words);
    }
    text::law_found_wherever_it_stands(
        STATUS_HEAD@,
        warning,
        title + number + TABLE_HEAD@ + list + low,
    );
    assert(p =~= STATUS_HEAD@ + warning + (title + number + TABLE_HEAD@ + list + low));
    reveal_strlit("<h1>Connected clients <span class=dim>(");
    reveal_strlit("Connected clients <span class=dim>(");
    reveal_strlit(")");
    reveal_strlit("<h1>");
    reveal_strlit(
        ")</span></h1><table><thead><tr><th>Device</th><th>Status</th><th>Sync</th><th>Volume</th><th>Dropped</th><th>Calibration</th></tr></thead><tbody>",
    );
    assert(title =~= "<h1>"@ + "Connected clients <span class=dim>("@);
    let head = "Connected clients <span class=dim>("@ + number + ")"@;
    let tail = TABLE_HEAD@.skip(1);
    assert(TABLE_HEAD@ =~= ")"@ + tail);
    text::law_found_wherever_it_stands(STATUS_HEAD@ + warning + "<h1>"@, head, tail + list + low);
    assert(p =~= (STATUS_HEAD@ + warning + "<h1>"@) + head + (tail + list + low));
    reveal_strlit(
        "</tbody></table><p class=dim>Auto-refreshes every 2 s · server-side view (works headless) · build ",
    );
    reveal_strlit("build ");
    let foot = TABLE_FOOT@;
    let cut = foot.len() - 6;
    assert(foot =~= foot.take(cut) + "build "@);
    text::law_found_wherever_it_stands(
        top + list + foot.take(cut),
        "build "@ + escaped(build),
        PAGE_FOOT@,
    );
    assert(p =~= (top + list + foot.take(cut)) + ("build "@ + escaped(build)) + PAGE_FOOT@);
}

/// There is a warning exactly if something is wrong, and silence is the worse fault.
pub proof fn law_warning_shows_the_worst(audio_stalled: bool, capture_closed: bool)
    ensures
        banner(audio_stalled, capture_closed).len() == 0 <==> !audio_stalled && !capture_closed,
        audio_stalled ==> banner(audio_stalled, capture_closed) == banner(true, false),
        banner(true, capture_closed) != banner(false, true),
{
    reveal_strlit(
        "<p style=\"background:#3b1f1f;border:1px solid #a8443c;color:#ffd9d4;\
padding:10px 12px;border-radius:4px;margin:0 0 12px\">\
<b>Audio has stopped.</b> The pipeline was producing and is now silent — clients are \
still connected and will hear nothing. Check the server's capture source.</p>",
    );
    reveal_strlit(
        "<p style=\"background:#362b14;border:1px solid #94690d;color:#f7edd5;\
padding:10px 12px;border-radius:4px;margin:0 0 12px\">\
<b>The screen-capture session was closed.</b> The shared window or display is gone, so \
clients see a frozen picture. Re-pick the video source.</p>",
    );
    assert(SILENCE_BANNER@[23] == 'b');
    assert(CLOSED_BANNER@[23] == '6');
}

} // verus!
