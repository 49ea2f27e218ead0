//! The connected clients and the single caster slot.

use crate::text;
use vstd::prelude::*;

verus! {

/// A connected web client that the server can address on its own.
pub struct ClientEntry {
    /// Id of the connection; a new one for every connect.
    pub conn_id: u64,
    /// Id that the browser keeps across reconnects. Empty until it identified itself.
    pub stable_id: String,
    /// Display name. Empty until the client identified itself.
    pub name: String,
    /// The server-controlled sync offset last delivered, in milliseconds.
    pub trim_ms: i32,
    /// The sync offset that the client last reported, its own trim and the server's together.
    pub reported_trim_ms: Option<i32>,
    /// The calibration progress that the client last reported.
    pub calib_status: String,
    /// Whether the client has identified itself.
    pub identified: bool,
    /// Frames that the client never received.
    pub frames_dropped: u64,
}

/// A client entry as plain values.
pub struct EntryView {
    /// Id of the connection.
    pub conn_id: u64,
    /// Id that the browser keeps.
    pub stable_id: Seq<char>,
    /// Display name.
    pub name: Seq<char>,
    /// Sync offset last delivered.
    pub trim_ms: i32,
    /// Sync offset last reported.
    pub reported_trim_ms: Option<i32>,
    /// Calibration progress.
    pub calib_status: Seq<char>,
    /// Whether the client has identified itself.
    pub identified: bool,
    /// Frames that the client never received.
    pub frames_dropped: u64,
}

impl View for ClientEntry {
    type V = EntryView;

    open spec fn view(&self) -> EntryView {
        EntryView {
            conn_id: self.conn_id,
            stable_id: self.stable_id@,
            name: self.name@,
            trim_ms: self.trim_ms,
            reported_trim_ms: self.reported_trim_ms,
            calib_status: self.calib_status@,
            identified: self.identified,
            frames_dropped: self.frames_dropped,
        }
    }
}

/// A client that has connected and said nothing yet.
pub open spec fn fresh_entry(conn_id: u64) -> EntryView {
    EntryView {
        conn_id,
        stable_id: Seq::empty(),
        name: Seq::empty(),
        trim_ms: 0,
        reported_trim_ms: None,
        calib_status: Seq::empty(),
        identified: false,
        frames_dropped: 0,
    }
}

/// The name shown for a client that gave none.
pub open spec fn default_client_name(conn_id: u64) -> Seq<char> {
    "Client "@ + text::decimal(conn_id as nat)
}

/// The name that a client gets for the one that it sent.
pub open spec fn name_or_default(conn_id: u64, name: Seq<char>) -> Seq<char> {
    if text::trimmed(name).len() == 0 {
        default_client_name(conn_id)
    } else {
        name
    }
}

/// The name shown for a client that gave none.
pub fn unnamed_client(conn_id: u64) -> (s: String)
    ensures
        s@ == default_client_name(conn_id),
{
    let mut s = String::from_str("Client ");
    text::append_decimal(&mut s, conn_id);
    s
}

/// All connected clients in the order in which they connected, and who casts.
pub struct Registry {
    /// The clients, by rising connection id.
    pub entries: Vec<ClientEntry>,
    /// The connection id that the next client gets.
    pub next_id: u64,
    /// The connection that holds the caster slot.
    pub caster: Option<u64>,
}

/// Whether a connection with this id is among the entries.
pub open spec fn listed(entries: Seq<ClientEntry>, id: u64) -> bool {
    exists|i: int| 0 <= i < entries.len() && entries[i].conn_id == id
}

/// Where the connection stands among the entries.
pub open spec fn position(entries: Seq<ClientEntry>, id: u64) -> int {
    choose|i: int| 0 <= i < entries.len() && entries[i].conn_id == id
}

/// The entries as a map from connection id to what is known of the client.
pub open spec fn by_id(entries: Seq<ClientEntry>) -> Map<u64, EntryView> {
    Map::new(|id: u64| listed(entries, id), |id: u64| entries[position(entries, id)]@)
}

impl View for Registry {
    type V = Map<u64, EntryView>;

    open spec fn view(&self) -> Map<u64, EntryView> {
        by_id(self.entries@)
    }
}

/// Whether ids rise and none has been handed out twice.
pub open spec fn ids_rise(entries: Seq<ClientEntry>, next_id: u64) -> bool {
    &&& forall|i: int, j: int|
        0 <= i < j < entries.len() ==> entries[i].conn_id < entries[j].conn_id
    &&& forall|i: int| 0 <= i < entries.len() ==> #[trigger] entries[i].conn_id < next_id
}

/// The map holds each entry under its connection.
pub(crate) proof fn lemma_position(entries: Seq<ClientEntry>, next_id: u64, i: int)
    requires
        ids_rise(entries, next_id),
        0 <= i < entries.len(),
    ensures
        listed(entries, entries[i].conn_id),
        position(entries, entries[i].conn_id) == i,
        by_id(entries).dom().contains(entries[i].conn_id),
        by_id(entries)[entries[i].conn_id] == entries[i]@,
{
    let p = position(entries, entries[i].conn_id);
    assert(0 <= p < entries.len() && entries[p].conn_id == entries[i].conn_id);
}

/// Replacing one entry by another of the same connection changes the map there and nowhere else.
proof fn lemma_update(entries: Seq<ClientEntry>, next_id: u64, i: int, e: ClientEntry)
    requires
        ids_rise(entries, next_id),
        0 <= i < entries.len(),
        e.conn_id == entries[i].conn_id,
    ensures
        ids_rise(entries.update(i, e), next_id),
        by_id(entries.update(i, e)) == by_id(entries).insert(e.conn_id, e@),
{
    let now = entries.update(i, e);
    assert(ids_rise(now, next_id));
    assert forall|id: u64| listed(now, id) == listed(entries, id) by {
        if listed(now, id) {
            let p = position(now, id);
            assert(entries[p].conn_id == id);
        }
        if listed(entries, id) {
            let p = position(entries, id);
            assert(now[p].conn_id == id);
        }
    }
    lemma_position(now, next_id, i);
    lemma_position(entries, next_id, i);
    assert forall|id: u64| listed(now, id) && id != e.conn_id implies by_id(now)[id] == by_id(
        entries,
    )[id] by {
        let p = position(now, id);
        lemma_position(now, next_id, p);
        lemma_position(entries, next_id, p);
    }
    assert(by_id(now) =~= by_id(entries).insert(e.conn_id, e@));
}

impl Registry {
    /// Ids rise in the order of connecting, and a caster is one that has connected.
    pub open spec fn wf(&self) -> bool {
        &&& ids_rise(self.entries@, self.next_id)
        &&& self.caster matches Some(c) ==> c < self.next_id
        &&& self.next_id >= 1
    }

    /// A registry without clients.
    pub fn new() -> (r: Registry)
        ensures
            r.wf(),
            r@ == Map::<u64, EntryView>::empty(),
            r.entries@.len() == 0,
            r.next_id == 1,
            r.caster is None,
    {
        let r = Registry { entries: Vec::new(), next_id: 1, caster: None };
        assert(r@ =~= Map::<u64, EntryView>::empty());
        r
    }

    /// How many clients are connected.
    pub fn count(&self) -> (n: usize)
        ensures
            n == self.entries@.len(),
    {
        self.entries.len()
    }

    /// Where the connection stands, if it is connected.
    pub fn find(&self, id: u64) -> (r: Option<usize>)
        requires
            self.wf(),
        ensures
            r is Some <==> self@.dom().contains(id),
            r matches Some(i) ==> i < self.entries@.len() && self.entries@[i as int].conn_id == id
                && self@[id] == self.entries@[i as int]@,
    {
        let mut i: usize = 0;
        while i < self.entries.len()
            invariant
                self.wf(),
                i <= self.entries@.len(),
                forall|k: int| 0 <= k < i ==> self.entries@[k].conn_id != id,
            decreases self.entries@.len() - i,
        {
            if self.entries[i].conn_id == id {
                proof {
                    lemma_position(self.entries@, self.next_id, i as int);
                }
                return Some(i);
            }
            i += 1;
        }
        None
    }

    /// Adds a client and gives it the next connection id.
    pub fn connect(&mut self) -> (id: u64)
        requires
            old(self).wf(),
            old(self).next_id < u64::MAX,
        ensures
            final(self).wf(),
            has_come(old(self)@, old(self).next_id, id, final(self)@, final(self).next_id),
            !old(self)@.dom().contains(id),
            final(self).entries@.len() == old(self).entries@.len() + 1,
            final(self).caster == old(self).caster,
    {
        let id: u64 = self.next_id;
        let e = ClientEntry {
            conn_id: id,
            stable_id: String::new(),
            name: String::new(),
            trim_ms: 0,
            reported_trim_ms: None,
            calib_status: String::new(),
            identified: false,
            frames_dropped: 0,
        };
        let ghost before = self.entries@;
        let ghost added = e;
        self.entries.push(e);
        self.next_id = id + 1;
        proof {
            let now = self.entries@;
            assert(now =~= before.push(added));
            assert(ids_rise(now, self.next_id));
            assert forall|k: u64| listed(now, k) == (listed(before, k) || k == id) by {
                if listed(now, k) {
                    let p = position(now, k);
                    if p < before.len() {
                        assert(before[p].conn_id == k);
                    }
                }
                if listed(before, k) {
                    let p = position(before, k);
                    assert(now[p].conn_id == k);
                }
                if k == id {
                    assert(now[before.len() as int].conn_id == k);
                }
            }
            lemma_position(now, self.next_id, before.len() as int);
            assert forall|k: u64| listed(before, k) implies by_id(now)[k] == by_id(before)[k] by {
                let p = position(before, k);
                lemma_position(before, id, p);
                assert(now[p] == before[p]);
                lemma_position(now, self.next_id, p);
            }
            assert(!listed(before, id));
            assert(added@ =~= fresh_entry(id));
            assert(by_id(now) =~= by_id(before).insert(id, fresh_entry(id)));
        }
        id
    }

    /// Forgets a client. A caster that goes frees the slot; nobody else's slot is touched.
    pub fn disconnect(&mut self, id: u64)
        requires
            old(self).wf(),
        ensures
            final(self).wf(),
            has_left(old(self)@, old(self).caster, id, final(self)@, final(self).caster),
            final(self).entries@.len() == (if old(self)@.dom().contains(id) {
                old(self).entries@.len() - 1
            } else {
                old(self).entries@.len() as int
            }),
            final(self).next_id == old(self).next_id,
    {
        release_slot(&mut self.caster, id);
        match self.find(id) {
            Some(i) => {
                let ghost before = self.entries@;
                let _ = self.entries.remove(i);
                proof {
                    let now = self.entries@;
                    let next = self.next_id;
                    assert(now =~= before.remove(i as int));
                    assert(ids_rise(now, next));
                    assert forall|k: u64| listed(now, k) == (listed(before, k) && k != id) by {
                        if listed(now, k) {
                            let p = position(now, k);
                            let q = if p < i { p } else { p + 1 };
                            assert(before[q].conn_id == k);
                            assert(before[i as int].conn_id == id);
                        }
                        if listed(before, k) && k != id {
                            let p = position(before, k);
                            let q = if p < i { p } else { p - 1 };
                            assert(now[q].conn_id == k);
                        }
                    }
                    assert forall|k: u64| listed(now, k) implies by_id(now)[k] == by_id(
                        before,
                    )[k] by {
                        let p = position(now, k);
                        let q = if p < i { p } else { p + 1 };
                        lemma_position(now, next, p);
                        assert(now[p] == before[q]);
                        lemma_position(before, next, q);
                    }
                    assert(by_id(now) =~= by_id(before).remove(id));
                }
            },
            None => {
                assert(self@ =~= self@.remove(id));
            },
        }
    }

    /// Stores what a client said of itself.
    pub fn identify(&mut self, id: u64, stable_id: String, name: String)
        requires
            old(self).wf(),
        ensures
            final(self).wf(),
            old(self)@.dom().contains(id) ==> final(self)@ == old(self)@.insert(
                id,
                EntryView {
                    stable_id: stable_id@,
                    name: name_or_default(id, name@),
                    identified: true,
                    ..old(self)@[id]
                },
            ),
            !old(self)@.dom().contains(id) ==> final(self)@ == old(self)@,
            final(self).entries@.len() == old(self).entries@.len(),
            final(self).next_id == old(self).next_id,
            final(self).caster == old(self).caster,
    {
        if let Some(i) = self.find(id) {
            let shown = if text::is_blank(name.as_str()) {
                unnamed_client(id)
            } else {
                name
            };
            let ghost before = self.entries@;
            self.entries[i].stable_id = stable_id;
            self.entries[i].name = shown;
            self.entries[i].identified = true;
            proof {
                lemma_update(before, self.next_id, i as int, self.entries@[i as int]);
                assert(self.entries@ =~= before.update(i as int, self.entries@[i as int]));
            }
        }
    }

    /// Stores the calibration progress that a client reported.
    pub fn set_calib_status(&mut self, id: u64, status: String)
        requires
            old(self).wf(),
        ensures
            final(self).wf(),
            old(self)@.dom().contains(id) ==> final(self)@ == old(self)@.insert(
                id,
                EntryView { calib_status: status@, ..old(self)@[id] },
            ),
            !old(self)@.dom().contains(id) ==> final(self)@ == old(self)@,
            final(self).entries@.len() == old(self).entries@.len(),
            final(self).next_id == old(self).next_id,
            final(self).caster == old(self).caster,
    {
        if let Some(i) = self.find(id) {
            let ghost before = self.entries@;
            self.entries[i].calib_status = status;
            proof {
                lemma_update(before, self.next_id, i as int, self.entries@[i as int]);
                assert(self.entries@ =~= before.update(i as int, self.entries@[i as int]));
            }
        }
    }

    /// Stores the sync offset that a client reported.
    pub fn set_reported_trim(&mut self, id: u64, ms: i32)
        requires
            old(self).wf(),
        ensures
            final(self).wf(),
            old(self)@.dom().contains(id) ==> final(self)@ == old(self)@.insert(
                id,
                EntryView { reported_trim_ms: Some(ms), ..old(self)@[id] },
            ),
            !old(self)@.dom().contains(id) ==> final(self)@ == old(self)@,
            final(self).entries@.len() == old(self).entries@.len(),
            final(self).next_id == old(self).next_id,
            final(self).caster == old(self).caster,
    {
        if let Some(i) = self.find(id) {
            let ghost before = self.entries@;
            self.entries[i].reported_trim_ms = Some(ms);
            proof {
                lemma_update(before, self.next_id, i as int, self.entries@[i as int]);
                assert(self.entries@ =~= before.update(i as int, self.entries@[i as int]));
            }
        }
    }

    /// Stores the sync offset that was delivered to a client.
    pub fn set_delivered_trim(&mut self, id: u64, ms: i32)
        requires
            old(self).wf(),
        ensures
            final(self).wf(),
            old(self)@.dom().contains(id) ==> final(self)@ == old(self)@.insert(
                id,
                EntryView { trim_ms: ms, ..old(self)@[id] },
            ),
            !old(self)@.dom().contains(id) ==> final(self)@ == old(self)@,
            final(self).entries@.len() == old(self).entries@.len(),
            final(self).next_id == old(self).next_id,
            final(self).caster == old(self).caster,
    {
        if let Some(i) = self.find(id) {
            let ghost before = self.entries@;
            self.entries[i].trim_ms = ms;
            proof {
                lemma_update(before, self.next_id, i as int, self.entries@[i as int]);
                assert(self.entries@ =~= before.update(i as int, self.entries@[i as int]));
            }
        }
    }

    /// Counts `n` frames that a client did not receive.
    pub fn add_dropped(&mut self, id: u64, n: u64)
        requires
            old(self).wf(),
        ensures
            final(self).wf(),
            old(self)@.dom().contains(id) ==> final(self)@ == old(self)@.insert(
                id,
                EntryView {
                    frames_dropped: old(self)@[id].frames_dropped.wrapping_add(n),
                    ..old(self)@[id]
                },
            ),
            !old(self)@.dom().contains(id) ==> final(self)@ == old(self)@,
            final(self).entries@.len() == old(self).entries@.len(),
            final(self).next_id == old(self).next_id,
            final(self).caster == old(self).caster,
    {
        if let Some(i) = self.find(id) {
            let ghost before = self.entries@;
            let total: u64 = self.entries[i].frames_dropped.wrapping_add(n);
            self.entries[i].frames_dropped = total;
            proof {
                lemma_update(before, self.next_id, i as int, self.entries@[i as int]);
                assert(self.entries@ =~= before.update(i as int, self.entries@[i as int]));
            }
        }
    }
}

/// Whether the clients and the caster slot are those after `id` has left.
pub open spec fn has_left(
    m: Map<u64, EntryView>,
    slot: Option<u64>,
    id: u64,
    m_after: Map<u64, EntryView>,
    slot_after: Option<u64>,
) -> bool {
    m_after == m.remove(id) && slot_after == released(slot, id)
}

/// Whether the clients are those after a new one was given `id`.
pub open spec fn has_come(
    m: Map<u64, EntryView>,
    next_id: u64,
    id: u64,
    m_after: Map<u64, EntryView>,
    next_after: u64,
) -> bool {
    id == next_id && m_after == m.insert(id, fresh_entry(id)) && next_after == id + 1
}

/// The slot after `id` let go of it.
pub open spec fn released(slot: Option<u64>, id: u64) -> Option<u64> {
    if slot == Some(id) {
        None
    } else {
        slot
    }
}

/// The slot after `id` asked for it.
pub open spec fn claimed(slot: Option<u64>, id: u64) -> Option<u64> {
    match slot {
        None => Some(id),
        Some(c) => Some(c),
    }
}

/// Whether `id` holds the slot.
pub fn holds_slot(slot: Option<u64>, id: u64) -> (r: bool)
    ensures
        r == (slot == Some(id)),
{
    match slot {
        Some(c) => c == id,
        None => false,
    }
}

/// Frees the slot if `id` holds it.
pub fn release_slot(slot: &mut Option<u64>, id: u64)
    ensures
        *final(slot) == released(*old(slot), id),
{
    if holds_slot(*slot, id) {
        *slot = None;
    }
}

/// Claims the slot for `id`: `granted` if it holds the slot afterwards, `fresh` if it did not
/// before.
pub fn claim_slot(slot: &mut Option<u64>, id: u64) -> (r: (bool, bool))
    ensures
        *final(slot) == claimed(*old(slot), id),
        r.0 == (*final(slot) == Some(id)),
        r.1 == (*old(slot) is None),
{
    match *slot {
        None => {
            *slot = Some(id);
            (true, true)
        },
        Some(c) => (c == id, false),
    }
}

/// There is at most one caster: while one connection holds the slot, no other's claim or release
/// moves it.
pub proof fn law_one_caster(holder: u64, other: u64)
    requires
        holder != other,
    ensures
        claimed(Some(holder), other) == Some(holder),
        released(Some(holder), other) == Some(holder),
{
}

/// A caster that lets go leaves the slot free for whoever asks next.
pub proof fn law_released_slot_is_free(slot: Option<u64>, holder: u64, next: u64)
    requires
        slot == Some(holder),
    ensures
        released(slot, holder) is None,
        claimed(released(slot, holder), next) == Some(next),
{
}

/// Every connection finds its own entry under its id, and nothing is found under any other id.
pub proof fn law_entries_are_found_by_id(entries: Seq<ClientEntry>, next_id: u64, i: int, id: u64)
    requires
        ids_rise(entries, next_id),
        0 <= i < entries.len(),
    ensures
        by_id(entries).dom().contains(entries[i].conn_id),
        by_id(entries)[entries[i].conn_id] == entries[i]@,
        by_id(entries).dom().contains(id) <==> exists|k: int|
            0 <= k < entries.len() && #[trigger] entries[k].conn_id == id,
        !by_id(entries).dom().contains(next_id),
{
    lemma_position(entries, next_id, i);
    if listed(entries, next_id) {
        let k = position(entries, next_id);
        assert(entries[k].conn_id == next_id);
    }
}

/// A client that has just connected has no name, no offset, no report and nothing lost.
pub proof fn law_new_client_is_blank(id: u64)
    ensures
        fresh_entry(id).conn_id == id,
        !fresh_entry(id).identified,
        fresh_entry(id).name.len() == 0 && fresh_entry(id).stable_id.len() == 0,
        fresh_entry(id).trim_ms == 0 && fresh_entry(id).reported_trim_ms is None,
        fresh_entry(id).calib_status.len() == 0 && fresh_entry(id).frames_dropped == 0,
{
}

/// A client keeps the name that it gave; one that gave none, or a blank one, is called by its
/// number, so that no two of those have the same name.
pub proof fn law_names(id: u64, other: u64, name: Seq<char>)
    requires
        id != other,
    ensures
        text::trimmed(name).len() > 0 ==> name_or_default(id, name) == name,
        text::trimmed(name).len() == 0 ==> name_or_default(id, name) == "Client "@ + text::decimal(
            id as nat,
        ),
        text::trimmed(name).len() == 0 ==> name_or_default(id, name) != name_or_default(other, name),
{
    if text::trimmed(name).len() == 0 {
        let a = text::decimal(id as nat);
        let b = text::decimal(other as nat);
        text::law_decimal_read_back(id as nat);
        text::law_decimal_read_back(other as nat);
        let n = "Client "@.len() as int;
        let x = "Client "@ + a;
        let y = "Client "@ + b;
        assert(x.skip(n) =~= a);
        assert(y.skip(n) =~= b);
    }
}

/// A slot that nobody holds goes to the first that asks, and stays with it until it lets go.
pub proof fn law_slot_goes_to_the_first(first: u64, second: u64)
    requires
        first != second,
    ensures
        claimed(None, first) == Some(first),
        claimed(claimed(None, first), second) == Some(first),
        claimed(claimed(None, first), first) == Some(first),
        claimed(released(claimed(None, first), first), second) == Some(second),
        released(None, first) is None,
{
}

/// A client that leaves is forgotten and holds the slot no longer; everybody else stays as they
/// were, and so does the slot of another.
pub proof fn law_leaving(
    m: Map<u64, EntryView>,
    slot: Option<u64>,
    id: u64,
    m_after: Map<u64, EntryView>,
    slot_after: Option<u64>,
    other: u64,
)
    requires
        has_left(m, slot, id, m_after, slot_after),
        other != id,
    ensures
        !m_after.dom().contains(id),
        slot_after != Some(id),
        slot == Some(id) ==> slot_after is None,
        slot == Some(other) ==> slot_after == Some(other),
        m_after.dom().contains(other) == m.dom().contains(other),
        m.dom().contains(other) ==> m_after[other] == m[other],
{
}

/// A client that comes gets an id that nobody had before, is known from then on, and changes
/// nothing for the others; no id is handed out twice.
pub proof fn law_coming(
    m: Map<u64, EntryView>,
    next_id: u64,
    id: u64,
    m_after: Map<u64, EntryView>,
    next_after: u64,
    later: u64,
    m_then: Map<u64, EntryView>,
    next_then: u64,
    other: u64,
)
    requires
        has_come(m, next_id, id, m_after, next_after),
        has_come(m_after, next_after, later, m_then, next_then),
        other != id,
        other != later,
    ensures
        id == next_id,
        later == id + 1,
        m_then.dom().contains(id) && m_then.dom().contains(later),
        m_after[id].conn_id == id && !m_after[id].identified,
        m_then.dom().contains(other) == m.dom().contains(other),
        m.dom().contains(other) ==> m_then[other] == m[other],
{
}

} // verus!
