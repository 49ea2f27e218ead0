//! The mixer: what the operator does to single clients, and the run that aligns all of them.

use crate::registry;
use crate::registry::{
    default_client_name, ids_rise, release_slot, released, unnamed_client, ClientEntry, EntryView,
    Registry,
};
use crate::text::{occurs, trimmed};
use crate::text;
use crate::wire::{role_msg_bytes, CALIB_ROLE_FOLLOWER, CALIB_ROLE_REFERENCE};
use crate::wire;
use vstd::prelude::*;

verus! {

/// A value under a key.
pub struct Slot<V> {
    /// The key.
    pub key: String,
    /// The value.
    pub value: V,
}

/// Values under the ids that browsers keep, which outlive a connection.
pub struct Keyed<V> {
    /// The values, each key once.
    pub slots: Vec<Slot<V>>,
}

/// Whether no key occurs twice.
pub open spec fn keys_differ<V>(s: Seq<Slot<V>>) -> bool {
    forall|i: int, j: int| 0 <= i < j < s.len() ==> #[trigger] s[i].key@ != #[trigger] s[j].key@
}

/// Whether a key occurs.
pub open spec fn has_key<V>(s: Seq<Slot<V>>, key: Seq<char>) -> bool {
    exists|i: int| 0 <= i < s.len() && (#[trigger] s[i]).key@ == key
}

/// Where a key stands.
pub open spec fn key_place<V>(s: Seq<Slot<V>>, key: Seq<char>) -> int {
    choose|i: int| 0 <= i < s.len() && (#[trigger] s[i]).key@ == key
}

/// The slots as a map.
pub open spec fn slot_map<V>(s: Seq<Slot<V>>) -> Map<Seq<char>, V> {
    Map::new(|key: Seq<char>| has_key(s, key), |key: Seq<char>| s[key_place(s, key)].value)
}

impl<V> View for Keyed<V> {
    type V = Map<Seq<char>, V>;

    open spec fn view(&self) -> Map<Seq<char>, V> {
        slot_map(self.slots@)
    }
}

proof fn lemma_slot<V>(s: Seq<Slot<V>>, i: int)
    requires
        keys_differ(s),
        0 <= i < s.len(),
    ensures
        slot_map(s).dom().contains(s[i].key@),
        slot_map(s)[s[i].key@] == s[i].value,
{
    let key = s[i].key@;
    assert(has_key(s, key));
    let p = key_place(s, key);
    if p < i {
        assert(s[p].key@ != s[i].key@);
    } else if i < p {
        assert(s[i].key@ != s[p].key@);
    }
}

impl<V> Keyed<V> {
    /// No key occurs twice.
    pub open spec fn wf(&self) -> bool {
        keys_differ(self.slots@)
    }

    /// Nothing.
    pub fn new() -> (k: Keyed<V>)
        ensures
            k.wf(),
            k@ == Map::<Seq<char>, V>::empty(),
    {
        let k = Keyed { slots: Vec::new() };
        assert(k@ =~= Map::<Seq<char>, V>::empty());
        k
    }

    fn find(&self, key: &str) -> (r: Option<usize>)
        requires
            self.wf(),
        ensures
            match r {
                Some(i) => i < self.slots@.len() && self.slots@[i as int].key@ == key@
                    && self@.dom().contains(key@) && self@[key@] == self.slots@[i as int].value,
                None => !self@.dom().contains(key@),
            },
    {
        let mut i: usize = 0;
        while i < self.slots.len()
            invariant
                self.wf(),
                i <= self.slots@.len(),
                forall|k: int| 0 <= k < i ==> (#[trigger] self.slots@[k]).key@ != key@,
            decreases self.slots@.len() - i,
        {
            if text::same_text(self.slots[i].key.as_str(), key) {
                proof {
                    lemma_slot(self.slots@, i as int);
                }
                return Some(i);
            }
            i += 1;
        }
        None
    }

    /// The value under a key.
    pub fn get(&self, key: &str) -> (r: Option<&V>)
        requires
            self.wf(),
        ensures
            match r {
                Some(v) => self@.dom().contains(key@) && self@[key@] == *v,
                None => !self@.dom().contains(key@),
            },
    {
        match self.find(key) {
            Some(i) => Some(&self.slots[i].value),
            None => None,
        }
    }

    /// Puts a value under a key, in place of the one that was there.
    pub fn insert(&mut self, key: String, value: V)
        requires
            old(self).wf(),
        ensures
            final(self).wf(),
            final(self)@ == old(self)@.insert(key@, value),
    {
        let ghost s = self.slots@;
        let ghost k = key@;
        let ghost v = value;
        match self.find(key.as_str()) {
            Some(i) => {
                self.slots.set(i, Slot { key, value });
                proof {
                    let t = self.slots@;
                    assert forall|a: int, b: int| 0 <= a < b < t.len() implies #[trigger] t[a].key@
                        != #[trigger] t[b].key@ by {
                        assert(s[a].key@ != s[b].key@);
                    }
                    lemma_slot(t, i as int);
                    assert forall|other: Seq<char>|
                        #![trigger slot_map(t).dom().contains(other)]
                        #![trigger slot_map(t)[other]]
                        other != k implies slot_map(s).dom().contains(other) == slot_map(
                        t,
                    ).dom().contains(other) && (slot_map(s).dom().contains(other) ==> slot_map(
                        s,
                    )[other] == slot_map(t)[other]) by {
                        if has_key(s, other) {
                            let a = key_place(s, other);
                            assert(t[a] == s[a]);
                            lemma_slot(s, a);
                            lemma_slot(t, a);
                        }
                        if has_key(t, other) {
                            let b = key_place(t, other);
                            assert(s[b] == t[b]);
                        }
                    }
                    assert(slot_map(t) =~= slot_map(s).insert(k, v));
                }
            },
            None => {
                self.slots.push(Slot { key, value });
                proof {
                    let t = self.slots@;
                    let n = s.len() as int;
                    assert forall|a: int, b: int| 0 <= a < b < t.len() implies #[trigger] t[a].key@
                        != #[trigger] t[b].key@ by {
                        assert(t[a] == s[a]);
                        if b < n {
                            assert(t[b] == s[b]);
                        } else {
                            assert(!has_key(s, k));
                        }
                    }
                    lemma_slot(t, n);
                    assert forall|other: Seq<char>|
                        #![trigger slot_map(t).dom().contains(other)]
                        #![trigger slot_map(t)[other]]
                        other != k implies slot_map(s).dom().contains(other) == slot_map(
                        t,
                    ).dom().contains(other) && (slot_map(s).dom().contains(other) ==> slot_map(
                        s,
                    )[other] == slot_map(t)[other]) by {
                        if has_key(s, other) {
                            let a = key_place(s, other);
                            assert(t[a] == s[a]);
                            lemma_slot(s, a);
                            lemma_slot(t, a);
                        }
                        if has_key(t, other) {
                            let b = key_place(t, other);
                            assert(s[b] == t[b]);
                        }
                    }
                    assert(slot_map(t) =~= slot_map(s).insert(k, v));
                }
            },
        }
    }

    /// Takes away the value under a key.
    pub fn remove(&mut self, key: &str)
        requires
            old(self).wf(),
        ensures
            final(self).wf(),
            final(self)@ == old(self)@.remove(key@),
    {
        let ghost s = self.slots@;
        match self.find(key) {
            Some(i) => {
                let _ = self.slots.remove(i);
                proof {
                    let t = self.slots@;
                    let at = i as int;
                    assert(t =~= s.remove(at));
                    assert forall|a: int, b: int| 0 <= a < b < t.len() implies #[trigger] t[a].key@
                        != #[trigger] t[b].key@ by {
                        let x = if a < at {
                            a
                        } else {
                            a + 1
                        };
                        let y = if b < at {
                            b
                        } else {
                            b + 1
                        };
                        assert(t[a] == s[x] && t[b] == s[y]);
                        assert(s[x].key@ != s[y].key@);
                    }
                    assert(!has_key(t, key@)) by {
                        if has_key(t, key@) {
                            let b = key_place(t, key@);
                            let y = if b < at {
                                b
                            } else {
                                b + 1
                            };
                            assert(t[b] == s[y]);
                            if y < at {
                                assert(s[y].key@ != s[at].key@);
                            } else {
                                assert(s[at].key@ != s[y].key@);
                            }
                        }
                    }
                    assert forall|other: Seq<char>|
                        #![trigger slot_map(t).dom().contains(other)]
                        #![trigger slot_map(t)[other]]
                        other != key@ implies slot_map(s).dom().contains(other) == slot_map(
                        t,
                    ).dom().contains(other) && (slot_map(s).dom().contains(other) ==> slot_map(
                        s,
                    )[other] == slot_map(t)[other]) by {
                        if has_key(s, other) {
                            let a = key_place(s, other);
                            let b = if a < at {
                                a
                            } else {
                                a - 1
                            };
                            assert(t[b] == s[a]);
                            lemma_slot(s, a);
                            lemma_slot(t, b);
                        }
                        if has_key(t, other) {
                            let b = key_place(t, other);
                            let a = if b < at {
                                b
                            } else {
                                b + 1
                            };
                            assert(s[a] == t[b]);
                        }
                    }
                    assert(slot_map(t) =~= slot_map(s).remove(key@));
                }
            },
            None => {
                assert(self@ =~= old(self)@.remove(key@));
            },
        }
    }
}

/// The seed of the code that the reference plays.
pub const REF_SEED: u32 = 0x9e37_79b9;

/// What sets the seeds of the followers apart.
pub const SEED_STEP: u64 = 0x9e37_79b1;

/// What is said when there are too few clients to align.
pub const TOO_FEW: &'static str = "Need at least two connected devices to calibrate.";

/// What is said when every client's sync was reset.
pub const RESET_ALL: &'static str = "Sync reset to 0 ms on every connected device.";

/// What is said when one client's sync was reset.
pub const RESET_ONE: &'static str = "Sync reset to 0 ms on that device.";

/// The ids of the clients that have identified themselves, in the order of connecting.
pub open spec fn identified_ids(e: Seq<ClientEntry>) -> Seq<u64>
    decreases e.len(),
{
    if e.len() == 0 {
        Seq::empty()
    } else if e.last().identified {
        identified_ids(e.drop_last()).push(e.last().conn_id)
    } else {
        identified_ids(e.drop_last())
    }
}

/// The time slot of the follower that comes at this place.
pub open spec fn slot_of(place: int) -> u8 {
    if place > 256 {
        255
    } else {
        (place - 1) as u8
    }
}

/// The seed with which the follower in a time slot tests itself.
pub open spec fn seed_of(slot: u8) -> u32 {
    REF_SEED ^ (((SEED_STEP * (slot + 1)) % 0x1_0000_0000) as u32)
}

/// What the client at a place is told: the first one is the reference, the others follow.
pub open spec fn order_bytes(place: int) -> Seq<u8> {
    if place == 0 {
        role_msg_bytes(CALIB_ROLE_REFERENCE, REF_SEED, 0, 0)
    } else {
        role_msg_bytes(CALIB_ROLE_FOLLOWER, REF_SEED, seed_of(slot_of(place)), slot_of(place))
    }
}

/// What is shown of the client at a place when a run starts.
pub open spec fn order_status(place: int) -> Seq<char> {
    if place == 0 {
        "reference"@
    } else {
        "queued…"@
    }
}

/// What is shown of each client when a run starts.
pub open spec fn ordered_view(e: Seq<ClientEntry>, i: int) -> EntryView {
    if e[i].identified {
        EntryView {
            calib_status: order_status(identified_ids(e.take(i)).len() as int),
            ..e[i]@
        }
    } else {
        e[i]@
    }
}

/// A message for one client.
pub struct Order {
    /// The client.
    pub conn_id: u64,
    /// The message.
    pub message: Vec<u8>,
}

/// The message to the client at a place.
pub fn calibration_message(place: usize) -> (m: Vec<u8>)
    ensures
        m@ == order_bytes(place as int),
{
    if place == 0 {
        wire::calib_role_msg(CALIB_ROLE_REFERENCE, REF_SEED, 0, 0)
    } else {
        let slot: u8 = if place > 256 {
            255
        } else {
            (place - 1) as u8
        };
        let seed: u32 = REF_SEED ^ (((SEED_STEP * (slot as u64 + 1)) % 0x1_0000_0000) as u32);
        wire::calib_role_msg(CALIB_ROLE_FOLLOWER, REF_SEED, seed, slot)
    }
}

/// Whether clients stay who they are.
pub open spec fn same_clients(a: Seq<ClientEntry>, b: Seq<ClientEntry>) -> bool {
    &&& a.len() == b.len()
    &&& forall|i: int|
        0 <= i < a.len() ==> (#[trigger] a[i]).conn_id == b[i].conn_id && a[i].identified
            == b[i].identified
}

proof fn lemma_ids_grow(e: Seq<ClientEntry>, i: int)
    requires
        0 <= i < e.len(),
    ensures
        identified_ids(e.take(i + 1)) == (if e[i].identified {
            identified_ids(e.take(i)).push(e[i].conn_id)
        } else {
            identified_ids(e.take(i))
        }),
{
    assert(e.take(i + 1).drop_last() =~= e.take(i));
}

fn count_identified(reg: &Registry) -> (n: usize)
    ensures
        n == identified_ids(reg.entries@).len(),
{
    let mut n: usize = 0;
    let mut i: usize = 0;
    assert(reg.entries@.take(0) =~= Seq::empty());
    while i < reg.entries.len()
        invariant
            i <= reg.entries@.len(),
            n <= i,
            n == identified_ids(reg.entries@.take(i as int)).len(),
        decreases reg.entries@.len() - i,
    {
        proof {
            lemma_ids_grow(reg.entries@, i as int);
        }
        if reg.entries[i].identified {
            n += 1;
        }
        i += 1;
    }
    assert(reg.entries@.take(i as int) =~= reg.entries@);
    n
}

/// Whether there are two clients at least to align.
pub fn can_calibrate(reg: &Registry) -> (r: bool)
    ensures
        r == (identified_ids(reg.entries@).len() >= 2),
{
    count_identified(reg) >= 2
}

/// Whether a run has started: every identified client, in the order of connecting, has its order, and
/// is shown with its part in the run.
pub open spec fn run_started(e: Seq<ClientEntry>, orders: Seq<Order>, after: Seq<ClientEntry>) -> bool {
    let ids = identified_ids(e);
    &&& ids.len() >= 2
    &&& orders.len() == ids.len()
    &&& forall|k: int|
        0 <= k < ids.len() ==> (#[trigger] orders[k]).conn_id == ids[k] && orders[k].message@
            == order_bytes(k)
    &&& forall|i: int| 0 <= i < e.len() ==> (#[trigger] after[i])@ == ordered_view(e, i)
}

/// Starts a run that aligns every identified client: the one that connected first plays a code, and
/// the others follow it, each in a time slot and with a seed of its own. Nothing happens where
/// there are fewer than two.
pub fn start_calibrate_all(reg: &mut Registry) -> (r: Option<Vec<Order>>)
    requires
        old(reg).wf(),
    ensures
        final(reg).wf(),
        final(reg).next_id == old(reg).next_id,
        final(reg).caster == old(reg).caster,
        same_clients(final(reg).entries@, old(reg).entries@),
        match r {
            Some(orders) => run_started(old(reg).entries@, orders@, final(reg).entries@),
            None => {
                &&& identified_ids(old(reg).entries@).len() < 2
                &&& *final(reg) == *old(reg)
            },
        },
{
    if !can_calibrate(reg) {
        return None;
    }
    let ghost all = reg.entries@;
    let mut orders: Vec<Order> = Vec::new();
    let mut i: usize = 0;
    assert(all.take(0) =~= Seq::empty());
    while i < reg.entries.len()
        invariant
            i <= reg.entries@.len(),
            ids_rise(all, reg.next_id),
            reg.next_id == old(reg).next_id,
            reg.caster == old(reg).caster,
            same_clients(reg.entries@, all),
            orders@.len() == identified_ids(all.take(i as int)).len(),
            orders@.len() <= i,
            forall|k: int|
                0 <= k < orders@.len() ==> (#[trigger] orders@[k]).conn_id == identified_ids(
                    all.take(i as int),
                )[k] && orders@[k].message@ == order_bytes(k),
            forall|k: int|
                0 <= k < i ==> (#[trigger] reg.entries@[k])@ == ordered_view(all, k),
            forall|k: int| i <= k < reg.entries@.len() ==> #[trigger] reg.entries@[k] == all[k],
        decreases reg.entries@.len() - i,
    {
        proof {
            lemma_ids_grow(all, i as int);
        }
        if reg.entries[i].identified {
            let place: usize = orders.len();
            let ghost before = reg.entries@;
            let status = if place == 0 {
                "reference".to_string()
            } else {
                "queued…".to_string()
            };
            orders.push(
                Order {
                    conn_id: reg.entries[i].conn_id,
                    message: calibration_message(place),
                },
            );
            reg.entries[i].calib_status = status;
            assert(reg.entries@ =~= before.update(i as int, reg.entries@[i as int]));
            assert(reg.entries@[i as int]@ =~= ordered_view(all, i as int));
        }
        i += 1;
    }
    proof {
        assert(all.take(i as int) =~= all);
        let now = reg.entries@;
        assert forall|a: int, b: int| 0 <= a < b < now.len() implies now[a].conn_id
            < now[b].conn_id by {
            assert(all[a].conn_id < all[b].conn_id);
        }
        assert forall|a: int| 0 <= a < now.len() implies #[trigger] now[a].conn_id
            < reg.next_id by {
            assert(all[a].conn_id < reg.next_id);
        }
    }
    Some(orders)
}

/// The followers do not disturb each other: as long as there are at most 256 of them, no two share
/// a time slot or a seed.
pub proof fn law_followers_are_apart(a: int, b: int)
    requires
        1 <= a < b <= 256,
    ensures
        slot_of(a) != slot_of(b),
        seed_of(slot_of(a)) != seed_of(slot_of(b)),
        seed_of(slot_of(a)) != REF_SEED,
{
    let x = slot_of(a);
    let y = slot_of(b);
    let p = ((SEED_STEP * (x + 1)) % 0x1_0000_0000) as u32;
    let q = ((SEED_STEP * (y + 1)) % 0x1_0000_0000) as u32;
    let d = y - x;
    assert(p != q) by {
        if p == q {
            let m = SEED_STEP * (y + 1) - SEED_STEP * (x + 1);
            assert(m == SEED_STEP * d) by (nonlinear_arith)
                requires
                    m == SEED_STEP * (y + 1) - SEED_STEP * (x + 1),
                    d == y - x,
            ;
            let u = SEED_STEP * (x + 1);
            let v = SEED_STEP * (y + 1);
            let n: int = 0x1_0000_0000;
            vstd::arithmetic::div_mod::lemma_fundamental_div_mod(u, n);
            vstd::arithmetic::div_mod::lemma_fundamental_div_mod(v, n);
            assert(m == n * (v / n - u / n));
            vstd::arithmetic::div_mod::lemma_mod_multiples_basic(v / n - u / n, n);
            lemma_step_is_odd(d);
        }
    }
    assert(p != 0) by {
        lemma_step_is_odd(x + 1);
    }
    let r = REF_SEED;
    assert(p != q ==> (r ^ p) != (r ^ q)) by (bit_vector);
    assert(p != 0 ==> (r ^ p) != r) by (bit_vector);
}

/// No multiple of the step, up to 256 times, is a multiple of two to the power of 32.
proof fn lemma_step_is_odd(d: int)
    requires
        1 <= d <= 256,
    ensures
        (SEED_STEP * d) % 0x1_0000_0000 != 0,
{
    let k = d as u64;
    assert(1 <= k <= 256 ==> (0x9e37_79b1u64 * k) % 0x1_0000_0000int != 0) by (bit_vector);
}

/// Whether a client has reported that it is done.
pub open spec fn is_finished(status: Seq<char>) -> bool {
    occurs(status, "aligned"@) || occurs(status, "failed"@) || occurs(status, "no lock"@)
}

/// Whether every identified client but the first is done.
pub open spec fn all_finished(e: Seq<ClientEntry>) -> bool {
    forall|i: int|
        0 <= i < e.len() && (#[trigger] e[i]).identified && identified_ids(e.take(i)).len() > 0
            ==> is_finished(e[i].calib_status@)
}

/// Whether a run is over: every follower is done, or there is none left.
pub fn calibration_done(reg: &Registry) -> (r: bool)
    ensures
        r == all_finished(reg.entries@),
{
    let mut seen = false;
    let mut i: usize = 0;
    let ghost e = reg.entries@;
    assert(e.take(0) =~= Seq::empty());
    while i < reg.entries.len()
        invariant
            e == reg.entries@,
            i <= e.len(),
            seen == (identified_ids(e.take(i as int)).len() > 0),
            forall|k: int|
                0 <= k < i && (#[trigger] e[k]).identified && identified_ids(e.take(k)).len() > 0
                    ==> is_finished(e[k].calib_status@),
        decreases e.len() - i,
    {
        proof {
            lemma_ids_grow(e, i as int);
        }
        if reg.entries[i].identified {
            let s = reg.entries[i].calib_status.as_str();
            if seen && !(text::contains(s, "aligned") || text::contains(s, "failed")
                || text::contains(s, "no lock")) {
                assert(!is_finished(e[i as int].calib_status@));
                return false;
            }
            seen = true;
        }
        i += 1;
    }
    true
}

/// The ids of all clients.
pub open spec fn all_ids(e: Seq<ClientEntry>) -> Seq<u64> {
    e.map_values(|x: ClientEntry| x.conn_id)
}

/// What is shown of a client when a run has ended.
pub open spec fn ended_view(e: EntryView, clear: bool) -> EntryView {
    if clear {
        EntryView { calib_status: Seq::empty(), ..e }
    } else {
        e
    }
}

/// Ends a run: every client is told to stop. What the clients reported is forgotten if `clear`, so
/// that the results of a run that came to its end stay visible.
pub fn stop_calibrate_all(reg: &mut Registry, clear: bool) -> (ids: Vec<u64>)
    requires
        old(reg).wf(),
    ensures
        final(reg).wf(),
        final(reg).next_id == old(reg).next_id,
        final(reg).caster == old(reg).caster,
        ids@ == all_ids(old(reg).entries@),
        same_clients(final(reg).entries@, old(reg).entries@),
        forall|i: int|
            0 <= i < old(reg).entries@.len() ==> (#[trigger] final(reg).entries@[i])@ == ended_view(
                old(reg).entries@[i]@,
                clear,
            ),
{
    let ghost all = reg.entries@;
    let mut ids: Vec<u64> = Vec::new();
    let mut i: usize = 0;
    while i < reg.entries.len()
        invariant
            i <= reg.entries@.len(),
            ids_rise(all, reg.next_id),
            reg.next_id == old(reg).next_id,
            reg.caster == old(reg).caster,
            same_clients(reg.entries@, all),
            ids@.len() == i,
            forall|k: int| 0 <= k < i ==> #[trigger] ids@[k] == all[k].conn_id,
            forall|k: int|
                0 <= k < i ==> (#[trigger] reg.entries@[k])@ == (if clear {
                    EntryView { calib_status: Seq::empty(), ..all[k]@ }
                } else {
                    all[k]@
                }),
            forall|k: int| i <= k < reg.entries@.len() ==> #[trigger] reg.entries@[k] == all[k],
        decreases reg.entries@.len() - i,
    {
        ids.push(reg.entries[i].conn_id);
        if clear {
            let ghost before = reg.entries@;
            reg.entries[i].calib_status = String::new();
            assert(reg.entries@ =~= before.update(i as int, reg.entries@[i as int]));
            assert(reg.entries@[i as int]@.calib_status =~= Seq::empty());
        }
        i += 1;
    }
    proof {
        assert(ids@ =~= all_ids(all));
        let now = reg.entries@;
        assert forall|a: int, b: int| 0 <= a < b < now.len() implies now[a].conn_id
            < now[b].conn_id by {
            assert(all[a].conn_id < all[b].conn_id);
        }
        assert forall|a: int| 0 <= a < now.len() implies #[trigger] now[a].conn_id
            < reg.next_id by {
            assert(all[a].conn_id < reg.next_id);
        }
    }
    ids
}

/// The sync offset that a client is to have.
pub open spec fn wanted_trim(trims: Map<Seq<char>, i32>, id: Seq<char>) -> i32 {
    if trims.dom().contains(id) {
        trims[id]
    } else {
        0
    }
}

/// A sync offset for one client.
#[derive(Clone, Copy, Debug, PartialEq, Eq, Structural)]
pub struct TrimUpdate {
    /// The client.
    pub conn_id: u64,
    /// The offset in milliseconds.
    pub ms: i32,
}

/// The offsets that are to be delivered: those that differ from what was delivered last.
pub open spec fn due_trims(e: Seq<ClientEntry>, trims: Map<Seq<char>, i32>) -> Seq<TrimUpdate>
    decreases e.len(),
{
    if e.len() == 0 {
        Seq::empty()
    } else {
        let before = due_trims(e.drop_last(), trims);
        let x = e.last();
        if wanted_trim(trims, x.stable_id@) != x.trim_ms {
            before.push(TrimUpdate { conn_id: x.conn_id, ms: wanted_trim(trims, x.stable_id@) })
        } else {
            before
        }
    }
}

/// The offsets that are to be delivered now. What is delivered is recorded in the registry, so that
/// nothing is sent twice.
pub fn trim_updates(reg: &Registry, trims: &Keyed<i32>) -> (v: Vec<TrimUpdate>)
    requires
        trims.wf(),
    ensures
        v@ == due_trims(reg.entries@, trims@),
{
    let mut v: Vec<TrimUpdate> = Vec::new();
    let mut i: usize = 0;
    assert(reg.entries@.take(0) =~= Seq::empty());
    while i < reg.entries.len()
        invariant
            trims.wf(),
            i <= reg.entries@.len(),
            v@ == due_trims(reg.entries@.take(i as int), trims@),
        decreases reg.entries@.len() - i,
    {
        assert(reg.entries@.take(i + 1).drop_last() =~= reg.entries@.take(i as int));
        let e = &reg.entries[i];
        let ms: i32 = match trims.get(e.stable_id.as_str()) {
            Some(t) => *t,
            None => 0,
        };
        if ms != e.trim_ms {
            v.push(TrimUpdate { conn_id: e.conn_id, ms });
        }
        i += 1;
    }
    assert(reg.entries@.take(i as int) =~= reg.entries@);
    v
}

/// Whether an entry is due for a delivery.
pub open spec fn is_due(e: Seq<ClientEntry>, trims: Map<Seq<char>, i32>, i: int) -> bool {
    wanted_trim(trims, e[i].stable_id@) != e[i].trim_ms
}

proof fn lemma_due(e: Seq<ClientEntry>, trims: Map<Seq<char>, i32>, i: int)
    requires
        0 <= i < e.len(),
        is_due(e, trims, i),
    ensures
        due_trims(e, trims).contains(
            TrimUpdate { conn_id: e[i].conn_id, ms: wanted_trim(trims, e[i].stable_id@) },
        ),
    decreases e.len(),
{
    let u = TrimUpdate { conn_id: e[i].conn_id, ms: wanted_trim(trims, e[i].stable_id@) };
    let before = due_trims(e.drop_last(), trims);
    if i == e.len() - 1 {
        assert(due_trims(e, trims).last() == u);
    } else {
        assert(e.drop_last()[i] == e[i]);
        lemma_due(e.drop_last(), trims, i);
        let k = choose|k: int| 0 <= k < before.len() && before[k] == u;
        assert(due_trims(e, trims)[k] == u);
    }
}

/// Whether a reset reaches a client: every one, or the one with this id.
pub open spec fn is_reset(e: ClientEntry, one: Option<Seq<char>>) -> bool {
    match one {
        None => true,
        Some(id) => e.stable_id@ == id,
    }
}

/// The clients that a reset reaches.
pub open spec fn reset_ids(e: Seq<ClientEntry>, one: Option<Seq<char>>) -> Seq<u64>
    decreases e.len(),
{
    if e.len() == 0 {
        Seq::empty()
    } else if is_reset(e.last(), one) {
        reset_ids(e.drop_last(), one).push(e.last().conn_id)
    } else {
        reset_ids(e.drop_last(), one)
    }
}

/// The offsets after a reset.
pub open spec fn reset_trims(
    trims: Map<Seq<char>, i32>,
    e: Seq<ClientEntry>,
    one: Option<Seq<char>>,
) -> Map<Seq<char>, i32>
    decreases e.len(),
{
    if e.len() == 0 {
        trims
    } else if is_reset(e.last(), one) {
        reset_trims(trims, e.drop_last(), one).insert(e.last().stable_id@, 0)
    } else {
        reset_trims(trims, e.drop_last(), one)
    }
}

/// Resets the sync of every client, or of the one with this id: the offset that the server commands
/// becomes zero, and the clients that are named in the result are to drop their own. What was
/// delivered last is left alone, so that the zero is delivered too.
pub fn reset_sync(trims: &mut Keyed<i32>, reg: &Registry, one: Option<&str>) -> (ids: Vec<u64>)
    requires
        old(trims).wf(),
    ensures
        final(trims).wf(),
        ids@ == reset_ids(reg.entries@, crate::tls::text_of(one)),
        final(trims)@ == reset_trims(old(trims)@, reg.entries@, crate::tls::text_of(one)),
{
    let ghost which = crate::tls::text_of(one);
    let mut ids: Vec<u64> = Vec::new();
    let mut i: usize = 0;
    assert(reg.entries@.take(0) =~= Seq::empty());
    while i < reg.entries.len()
        invariant
            trims.wf(),
            which == crate::tls::text_of(one),
            i <= reg.entries@.len(),
            ids@ == reset_ids(reg.entries@.take(i as int), which),
            trims@ == reset_trims(old(trims)@, reg.entries@.take(i as int), which),
        decreases reg.entries@.len() - i,
    {
        assert(reg.entries@.take(i + 1).drop_last() =~= reg.entries@.take(i as int));
        let e = &reg.entries[i];
        let reached = match one {
            None => true,
            Some(id) => text::same_text(e.stable_id.as_str(), id),
        };
        if reached {
            trims.insert(e.stable_id.clone(), 0);
            ids.push(e.conn_id);
        }
        i += 1;
    }
    assert(reg.entries@.take(i as int) =~= reg.entries@);
    ids
}

/// What is said when sync was reset.
pub fn reset_text(all: bool) -> (s: &'static str)
    ensures
        s@ == (if all {
            RESET_ALL@
        } else {
            RESET_ONE@
        }),
{
    if all {
        RESET_ALL
    } else {
        RESET_ONE
    }
}

proof fn lemma_reset_is_zero(
    trims: Map<Seq<char>, i32>,
    e: Seq<ClientEntry>,
    one: Option<Seq<char>>,
    i: int,
)
    requires
        0 <= i < e.len(),
        is_reset(e[i], one),
    ensures
        wanted_trim(reset_trims(trims, e, one), e[i].stable_id@) == 0,
        reset_ids(e, one).contains(e[i].conn_id),
    decreases e.len(),
{
    let front = reset_ids(e.drop_last(), one);
    if i < e.len() - 1 {
        assert(e.drop_last()[i] == e[i]);
        lemma_reset_is_zero(trims, e.drop_last(), one, i);
        let k = choose|k: int| 0 <= k < front.len() && front[k] == e[i].conn_id;
        assert(reset_ids(e, one)[k] == e[i].conn_id);
    } else {
        assert(reset_ids(e, one).last() == e[i].conn_id);
    }
}

/// A reset has two halves, and a client gets both: it is told to drop its own offset, and a zero is
/// delivered to it unless zero was delivered last.
pub proof fn law_reset_reaches_both_halves(
    trims: Map<Seq<char>, i32>,
    e: Seq<ClientEntry>,
    one: Option<Seq<char>>,
    i: int,
)
    requires
        0 <= i < e.len(),
        is_reset(e[i], one),
    ensures
        reset_ids(e, one).contains(e[i].conn_id),
        e[i].trim_ms != 0 ==> due_trims(e, reset_trims(trims, e, one)).contains(
            TrimUpdate { conn_id: e[i].conn_id, ms: 0 },
        ),
{
    lemma_reset_is_zero(trims, e, one, i);
    if e[i].trim_ms != 0 {
        lemma_due(e, reset_trims(trims, e, one), i);
    }
}

/// Resetting one client leaves the offsets of the others alone.
pub proof fn law_reset_spares_the_others(
    trims: Map<Seq<char>, i32>,
    e: Seq<ClientEntry>,
    one: Seq<char>,
    other: Seq<char>,
)
    requires
        other != one,
    ensures
        wanted_trim(reset_trims(trims, e, Some(one)), other) == wanted_trim(trims, other),
    decreases e.len(),
{
    if e.len() > 0 {
        law_reset_spares_the_others(trims, e.drop_last(), one, other);
    }
}

proof fn lemma_none_due(e: Seq<ClientEntry>, trims: Map<Seq<char>, i32>)
    requires
        forall|i: int| 0 <= i < e.len() ==> !#[trigger] is_due(e, trims, i),
    ensures
        due_trims(e, trims).len() == 0,
    decreases e.len(),
{
    if e.len() > 0 {
        let f = e.drop_last();
        assert forall|i: int| 0 <= i < f.len() implies !#[trigger] is_due(f, trims, i) by {
            assert(!is_due(e, trims, i));
        }
        lemma_none_due(f, trims);
        assert(!is_due(e, trims, e.len() - 1));
    }
}

/// The clients with an offset recorded as delivered.
pub open spec fn with_trim(m: Map<u64, EntryView>, u: TrimUpdate) -> Map<u64, EntryView> {
    if m.dom().contains(u.conn_id) {
        m.insert(u.conn_id, EntryView { trim_ms: u.ms, ..m[u.conn_id] })
    } else {
        m
    }
}

/// The clients with each of these offsets recorded as delivered, one after the other.
pub open spec fn delivered(m: Map<u64, EntryView>, ups: Seq<TrimUpdate>) -> Map<u64, EntryView>
    decreases ups.len(),
{
    if ups.len() == 0 {
        m
    } else {
        with_trim(delivered(m, ups.drop_last()), ups.last())
    }
}

proof fn lemma_delivered(reg: Registry, trims: Map<Seq<char>, i32>, k: int)
    requires
        reg.wf(),
        0 <= k <= reg.entries@.len(),
    ensures
        ({
            let e = reg.entries@;
            let d = delivered(reg@, due_trims(e.take(k), trims));
            &&& d.dom() == reg@.dom()
            &&& forall|i: int|
                0 <= i < e.len() ==> #[trigger] d[e[i].conn_id] == (EntryView {
                    trim_ms: if i < k {
                        wanted_trim(trims, e[i].stable_id@)
                    } else {
                        e[i].trim_ms
                    },
                    ..e[i]@
                })
        }),
    decreases k,
{
    let e = reg.entries@;
    assert forall|i: int| 0 <= i < e.len() implies reg@.dom().contains(#[trigger] e[i].conn_id)
        && reg@[e[i].conn_id] == e[i]@ by {
        registry::lemma_position(e, reg.next_id, i);
    }
    if k == 0 {
        assert(e.take(0) =~= Seq::<ClientEntry>::empty());
    } else {
        lemma_delivered(reg, trims, k - 1);
        assert(e.take(k).drop_last() =~= e.take(k - 1));
        assert(e.take(k).last() == e[k - 1]);
        let before = due_trims(e.take(k - 1), trims);
        let d0 = delivered(reg@, before);
        let d = delivered(reg@, due_trims(e.take(k), trims));
        if is_due(e, trims, k - 1) {
            let u = TrimUpdate {
                conn_id: e[k - 1].conn_id,
                ms: wanted_trim(trims, e[k - 1].stable_id@),
            };
            assert(before.push(u).drop_last() =~= before);
            assert(d == with_trim(d0, u));
            assert(d.dom() =~= reg@.dom());
        }
        assert forall|i: int| 0 <= i < e.len() implies #[trigger] d[e[i].conn_id] == (EntryView {
            trim_ms: if i < k {
                wanted_trim(trims, e[i].stable_id@)
            } else {
                e[i].trim_ms
            },
            ..e[i]@
        }) by {
            assert(d0[e[i].conn_id].trim_ms == if i < k - 1 {
                wanted_trim(trims, e[i].stable_id@)
            } else {
                e[i].trim_ms
            });
            if i != k - 1 {
                assert(e[i].conn_id != e[k - 1].conn_id);
            }
        }
    }
}

/// Nothing is sent twice: once every offset that was due is recorded as delivered, one after the
/// other, nothing is due, whatever else the registry holds beside its clients.
pub proof fn law_nothing_is_sent_twice(
    before: Registry,
    after: Registry,
    trims: Map<Seq<char>, i32>,
)
    requires
        before.wf(),
        after.wf(),
        after@ == delivered(before@, due_trims(before.entries@, trims)),
    ensures
        due_trims(after.entries@, trims).len() == 0,
{
    let e = before.entries@;
    let f = after.entries@;
    lemma_delivered(before, trims, e.len() as int);
    assert(e.take(e.len() as int) =~= e);
    assert forall|j: int| 0 <= j < f.len() implies !#[trigger] is_due(f, trims, j) by {
        registry::lemma_position(f, after.next_id, j);
        let id = f[j].conn_id;
        assert(before@.dom().contains(id));
        let i = registry::position(e, id);
        assert(e[i].conn_id == id);
        assert(after@[e[i].conn_id] == f[j]@);
    }
    lemma_none_due(f, trims);
}

/// Takes the caster slot from a client. The slot is free at once; the client is to be told if it is
/// still connected.
pub fn stop_cast(reg: &mut Registry, id: u64) -> (tell: bool)
    requires
        old(reg).wf(),
    ensures
        final(reg).wf(),
        final(reg).entries == old(reg).entries,
        final(reg).next_id == old(reg).next_id,
        final(reg).caster == released(old(reg).caster, id),
        tell == old(reg)@.dom().contains(id),
{
    release_slot(&mut reg.caster, id);
    reg.find(id).is_some()
}

/// The mixer.
pub struct Mixer {
    /// The names that the operator gave.
    pub names: Keyed<String>,
    /// The sync offsets that the operator set, in milliseconds.
    pub trims: Keyed<i32>,
    /// The clients that the operator muted.
    pub muted: Keyed<bool>,
    /// Whether everything is muted.
    pub master_muted: bool,
    /// The client whose name is being typed.
    pub editing: Option<String>,
    /// What is typed so far.
    pub edit_buffer: String,
    /// Whether a run that aligns all clients is under way.
    pub calibrating: bool,
}

/// Whether an identified client has this id.
pub open spec fn is_present(e: Seq<ClientEntry>, id: Seq<char>) -> bool {
    exists|i: int| 0 <= i < e.len() && (#[trigger] e[i]).identified && e[i].stable_id@ == id
}

/// The name that a client gave, or one that is made up.
pub open spec fn own_name(e: EntryView) -> Seq<char> {
    if e.name.len() == 0 {
        default_client_name(e.conn_id)
    } else {
        e.name
    }
}

/// The name that is shown for a client: what the operator typed counts more than what it gave.
pub open spec fn shown_name(names: Map<Seq<char>, String>, e: EntryView) -> Seq<char> {
    if names.dom().contains(e.stable_id) {
        names[e.stable_id]@
    } else {
        own_name(e)
    }
}

/// What is shown of a client.
pub struct ClientRow {
    /// The client.
    pub conn_id: u64,
    /// The id that its browser keeps.
    pub stable_id: String,
    /// Whether it has identified itself; until then only that it connects is shown.
    pub identified: bool,
    /// Its name.
    pub display: String,
    /// Whether it is muted.
    pub muted: bool,
    /// The offset that the operator set.
    pub trim_ms: i32,
    /// The offset that is shown: what the client reported, else what the operator set.
    pub shown_ms: i32,
    /// Whether the client reported it.
    pub reported: bool,
    /// How far the client is with a run.
    pub calib_status: String,
    /// Whether that is good news.
    pub calib_ok: bool,
    /// Whether it casts.
    pub casting: bool,
}

/// Whether a row shows a client.
pub open spec fn row_shows(row: ClientRow, e: EntryView, m: Mixer, caster: Option<u64>) -> bool {
    &&& row.conn_id == e.conn_id
    &&& row.stable_id@ == e.stable_id
    &&& row.identified == e.identified
    &&& row.display@ == shown_name(m.names@, e)
    &&& row.muted == (m.muted@.dom().contains(e.stable_id) && m.muted@[e.stable_id])
    &&& row.trim_ms == wanted_trim(m.trims@, e.stable_id)
    &&& row.shown_ms == (match e.reported_trim_ms {
        Some(ms) => ms,
        None => row.trim_ms,
    })
    &&& row.reported == e.reported_trim_ms is Some
    &&& row.calib_status@ == e.calib_status
    &&& row.calib_ok == (occurs(e.calib_status, "aligned"@) || e.calib_status == "reference"@)
    &&& row.casting == (caster == Some(e.conn_id))
}

/// What the operator asks of the run that aligns all clients.
#[derive(Clone, Copy, Debug, PartialEq, Eq, Structural)]
pub enum CalibCommand {
    /// Nothing.
    Nothing,
    /// To start it.
    Start,
    /// To stop it.
    Stop,
}

/// What follows from that.
pub enum CalibOutcome {
    /// Nothing.
    Nothing,
    /// These messages are to be sent.
    Orders(Vec<Order>),
    /// There are too few clients.
    TooFew,
    /// These clients are to be told to stop.
    Stop(Vec<u64>),
}

/// Whether a client is to be silent, whatever its volume.
pub open spec fn silent(m: Mixer, id: Seq<char>) -> bool {
    m.master_muted || (m.muted@.dom().contains(id) && m.muted@[id])
}

/// The mutes after one client's was turned over.
pub open spec fn mute_toggled(muted: Map<Seq<char>, bool>, id: Seq<char>) -> Map<Seq<char>, bool> {
    muted.insert(id, !(muted.dom().contains(id) && muted[id]))
}

/// Whether the names are those after a client's name was typed. A blank one takes away what was typed
/// before.
pub open spec fn is_renamed(
    names: Map<Seq<char>, String>,
    id: Seq<char>,
    typed: Seq<char>,
    after: Map<Seq<char>, String>,
) -> bool {
    &&& trimmed(typed).len() == 0 ==> after == names.remove(id)
    &&& trimmed(typed).len() > 0 ==> {
        &&& after.dom().contains(id)
        &&& after[id]@ == trimmed(typed)
        &&& after == names.insert(id, after[id])
    }
}

/// What becomes of a name that is being typed, given who is connected.
pub open spec fn settle_step(m: Mixer, e: Seq<ClientEntry>, after: Mixer) -> bool {
    match m.editing {
        Some(id) => if is_present(e, id@) {
            after == m
        } else {
            &&& after.editing is None
            &&& after.edit_buffer@.len() == 0
            &&& trimmed(m.edit_buffer@).len() == 0 ==> after.names == m.names
            &&& trimmed(m.edit_buffer@).len() > 0 ==> is_renamed(
                m.names@,
                id@,
                m.edit_buffer@,
                after.names@,
            )
        },
        None => after == m,
    }
}

impl Mixer {
    /// No key occurs twice.
    pub open spec fn wf(&self) -> bool {
        self.names.wf() && self.trims.wf() && self.muted.wf()
    }

    /// A mixer that was not touched.
    pub fn new() -> (m: Mixer)
        ensures
            m.wf(),
            m.names@ == Map::<Seq<char>, String>::empty(),
            m.trims@ == Map::<Seq<char>, i32>::empty(),
            m.muted@ == Map::<Seq<char>, bool>::empty(),
            !m.master_muted,
            m.editing is None,
            m.edit_buffer@.len() == 0,
            !m.calibrating,
    {
        Mixer {
            names: Keyed::new(),
            trims: Keyed::new(),
            muted: Keyed::new(),
            master_muted: false,
            editing: None,
            edit_buffer: String::new(),
            calibrating: false,
        }
    }

    /// What is shown of the clients, in the order of connecting.
    pub fn rows(&self, reg: &Registry) -> (v: Vec<ClientRow>)
        requires
            self.wf(),
        ensures
            v@.len() == reg.entries@.len(),
            forall|i: int|
                0 <= i < v@.len() ==> row_shows(
                    #[trigger] v@[i],
                    reg.entries@[i]@,
                    *self,
                    reg.caster,
                ),
    {
        let mut v: Vec<ClientRow> = Vec::new();
        let mut i: usize = 0;
        while i < reg.entries.len()
            invariant
                self.wf(),
                i <= reg.entries@.len(),
                v@.len() == i,
                forall|k: int|
                    0 <= k < i ==> row_shows(
                        #[trigger] v@[k],
                        reg.entries@[k]@,
                        *self,
                        reg.caster,
                    ),
            decreases reg.entries@.len() - i,
        {
            v.push(self.row(&reg.entries[i], reg.caster));
            i += 1;
        }
        v
    }

    fn row(&self, e: &ClientEntry, caster: Option<u64>) -> (row: ClientRow)
        requires
            self.wf(),
        ensures
            row_shows(row, e@, *self, caster),
    {
        let id = e.stable_id.as_str();
        let display = match self.names.get(id) {
            Some(n) => n.clone(),
            None => if text::chars_of(e.name.as_str()).len() == 0 {
                unnamed_client(e.conn_id)
            } else {
                e.name.clone()
            },
        };
        let muted = match self.muted.get(id) {
            Some(b) => *b,
            None => false,
        };
        let trim_ms: i32 = match self.trims.get(id) {
            Some(t) => *t,
            None => 0,
        };
        let shown_ms: i32 = match e.reported_trim_ms {
            Some(ms) => ms,
            None => trim_ms,
        };
        let s = e.calib_status.as_str();
        ClientRow {
            conn_id: e.conn_id,
            stable_id: e.stable_id.clone(),
            identified: e.identified,
            display,
            muted,
            trim_ms,
            shown_ms,
            reported: e.reported_trim_ms.is_some(),
            calib_status: e.calib_status.clone(),
            calib_ok: text::contains(s, "aligned") || text::same_text(s, "reference"),
            casting: match caster {
                Some(c) => c == e.conn_id,
                None => false,
            },
        }
    }

    /// Whether a client is to be silent, whatever its volume.
    pub fn is_silent(&self, stable_id: &str) -> (r: bool)
        requires
            self.wf(),
        ensures
            r == silent(*self, stable_id@),
    {
        let muted = match self.muted.get(stable_id) {
            Some(b) => *b,
            None => false,
        };
        muted || self.master_muted
    }

    /// Mutes a client, or lets it be heard again.
    pub fn toggle_mute(&mut self, stable_id: &str)
        requires
            old(self).wf(),
        ensures
            final(self).wf(),
            final(self).muted@ == mute_toggled(old(self).muted@, stable_id@),
            *final(self) == (Mixer { muted: final(self).muted, ..*old(self) }),
    {
        let muted = match self.muted.get(stable_id) {
            Some(b) => *b,
            None => false,
        };
        self.muted.insert(stable_id.to_string(), !muted);
    }

    /// Mutes everything, or lets everything be heard again.
    pub fn toggle_master(&mut self)
        ensures
            *final(self) == (Mixer { master_muted: !old(self).master_muted, ..*old(self) }),
    {
        self.master_muted = !self.master_muted;
    }

    /// Sets a client's sync offset.
    pub fn set_trim(&mut self, stable_id: &str, ms: i32)
        requires
            old(self).wf(),
        ensures
            final(self).wf(),
            final(self).trims@ == old(self).trims@.insert(stable_id@, ms),
            *final(self) == (Mixer { trims: final(self).trims, ..*old(self) }),
    {
        self.trims.insert(stable_id.to_string(), ms);
    }

    /// Starts to type a client's name; what is shown now is where it starts from.
    pub fn begin_rename(&mut self, stable_id: &str, shown: &str)
        ensures
            final(self).editing matches Some(id) && id@ == stable_id@,
            final(self).edit_buffer@ == shown@,
            *final(self) == (Mixer {
                editing: final(self).editing,
                edit_buffer: final(self).edit_buffer,
                ..*old(self)
            }),
    {
        self.edit_buffer = shown.to_string();
        self.editing = Some(stable_id.to_string());
    }

    /// Ends typing a client's name. A blank one gives the client its own name back.
    pub fn commit_rename(&mut self)
        requires
            old(self).wf(),
        ensures
            final(self).wf(),
            final(self).editing is None,
            match old(self).editing {
                Some(id) => is_renamed(
                    old(self).names@,
                    id@,
                    old(self).edit_buffer@,
                    final(self).names@,
                ),
                None => final(self).names == old(self).names,
            },
            *final(self) == (Mixer {
                names: final(self).names,
                editing: None,
                ..*old(self)
            }),
    {
        let typed = text::trim(self.edit_buffer.as_str());
        match &self.editing {
            Some(id) => {
                if text::chars_of(typed.as_str()).len() == 0 {
                    self.names.remove(id.as_str());
                } else {
                    self.names.insert(id.clone(), typed);
                }
            },
            None => {},
        }
        self.editing = None;
    }

    /// Ends typing the name of a client that is gone. What was typed is kept, unless it is blank.
    pub fn settle_rename(&mut self, reg: &Registry)
        requires
            old(self).wf(),
        ensures
            final(self).wf(),
            settle_step(*old(self), reg.entries@, *final(self)),
            *final(self) == (Mixer {
                names: final(self).names,
                editing: final(self).editing,
                edit_buffer: final(self).edit_buffer,
                ..*old(self)
            }),
    {
        let gone = match &self.editing {
            Some(id) => !present(reg, id.as_str()),
            None => false,
        };
        if gone {
            let typed = text::trim(self.edit_buffer.as_str());
            if text::chars_of(typed.as_str()).len() > 0 {
                self.commit_rename();
            } else {
                self.editing = None;
            }
            self.edit_buffer = String::new();
        }
    }

    /// Does what the operator asked of the run that aligns all clients, or ends it once it is over.
    pub fn calibrate(&mut self, reg: &mut Registry, command: CalibCommand) -> (r: CalibOutcome)
        requires
            old(reg).wf(),
        ensures
            final(reg).wf(),
            final(reg).next_id == old(reg).next_id,
            final(reg).caster == old(reg).caster,
            same_clients(final(reg).entries@, old(reg).entries@),
            *final(self) == (Mixer { calibrating: final(self).calibrating, ..*old(self) }),
            final(self).calibrating == calibrating_after(
                old(self).calibrating,
                command,
                old(reg).entries@,
            ),
            r is TooFew || r is Nothing ==> *final(reg) == *old(reg),
            calib_step(
                old(self).calibrating,
                command,
                old(reg).entries@,
                r,
                final(reg).entries@,
            ),
    {
        match command {
            CalibCommand::Start => match start_calibrate_all(reg) {
                Some(orders) => {
                    self.calibrating = true;
                    CalibOutcome::Orders(orders)
                },
                None => CalibOutcome::TooFew,
            },
            CalibCommand::Stop => {
                self.calibrating = false;
                CalibOutcome::Stop(stop_calibrate_all(reg, true))
            },
            CalibCommand::Nothing => if self.calibrating && calibration_done(reg) {
                self.calibrating = false;
                CalibOutcome::Stop(stop_calibrate_all(reg, false))
            } else {
                CalibOutcome::Nothing
            },
        }
    }
}

/// What a command comes to, and the clients then.
pub open spec fn calib_step(
    calibrating: bool,
    command: CalibCommand,
    e: Seq<ClientEntry>,
    r: CalibOutcome,
    after: Seq<ClientEntry>,
) -> bool {
    match r {
        CalibOutcome::Orders(orders) => command == CalibCommand::Start && run_started(
            e,
            orders@,
            after,
        ),
        CalibOutcome::TooFew => {
            &&& command == CalibCommand::Start
            &&& identified_ids(e).len() < 2
            &&& after == e
        },
        CalibOutcome::Stop(ids) => {
            &&& ids@ == all_ids(e)
            &&& command == CalibCommand::Stop || (command == CalibCommand::Nothing && calibrating
                && all_finished(e))
            &&& forall|i: int|
                0 <= i < e.len() ==> (#[trigger] after[i])@ == ended_view(
                    e[i]@,
                    command == CalibCommand::Stop,
                )
        },
        CalibOutcome::Nothing => {
            &&& command == CalibCommand::Nothing
            &&& !(calibrating && all_finished(e))
            &&& after == e
        },
    }
}

/// Whether a run is under way after a command.
pub open spec fn calibrating_after(
    before: bool,
    command: CalibCommand,
    e: Seq<ClientEntry>,
) -> bool {
    match command {
        CalibCommand::Start => before || identified_ids(e).len() >= 2,
        CalibCommand::Stop => false,
        CalibCommand::Nothing => before && !all_finished(e),
    }
}

fn present(reg: &Registry, id: &str) -> (r: bool)
    ensures
        r == is_present(reg.entries@, id@),
{
    let mut i: usize = 0;
    while i < reg.entries.len()
        invariant
            i <= reg.entries@.len(),
            forall|k: int|
                0 <= k < i ==> !((#[trigger] reg.entries@[k]).identified
                    && reg.entries@[k].stable_id@ == id@),
        decreases reg.entries@.len() - i,
    {
        if reg.entries[i].identified && text::same_text(reg.entries[i].stable_id.as_str(), id) {
            return true;
        }
        i += 1;
    }
    false
}

/// What is shown of a volume in percent.
pub fn level_text(muted: bool, pct: u32) -> (s: String)
    ensures
        s@ == (if muted {
            " off"@
        } else {
            text::pad_left(text::decimal(pct as nat), 3) + "%"@
        }),
{
    if muted {
        " off".to_string()
    } else {
        let n = text::decimal_text(pct as u64);
        let mut s = text::padded_left(n.as_str(), 3);
        s.append("%");
        s
    }
}

/// A client that comes back finds its name, offset and mute as they were: they hang on the id that
/// its browser keeps, not on the connection.
pub proof fn law_settings_survive_a_reconnect(
    m: Mixer,
    before: EntryView,
    after: EntryView,
    a: ClientRow,
    b: ClientRow,
    caster: Option<u64>,
)
    requires
        before.stable_id == after.stable_id,
        m.names@.dom().contains(before.stable_id),
        row_shows(a, before, m, caster),
        row_shows(b, after, m, caster),
    ensures
        a.display@ == b.display@,
        a.muted == b.muted,
        a.trim_ms == b.trim_ms,
{
}

proof fn lemma_seen_before(e: Seq<ClientEntry>, i: int, j: int)
    requires
        0 <= i < j <= e.len(),
        e[i].identified,
    ensures
        identified_ids(e.take(j)).len() > 0,
    decreases j,
{
    lemma_ids_grow(e, j - 1);
    if i < j - 1 {
        lemma_seen_before(e, i, j - 1);
    }
}

proof fn lemma_seen_is_there(e: Seq<ClientEntry>, j: int) -> (i: int)
    requires
        0 <= j <= e.len(),
        identified_ids(e.take(j)).len() > 0,
    ensures
        0 <= i < j,
        e[i].identified,
    decreases j,
{
    assert(j > 0) by {
        assert(e.take(0) =~= Seq::empty());
    }
    lemma_ids_grow(e, j - 1);
    if e[j - 1].identified {
        j - 1
    } else {
        lemma_seen_is_there(e, j - 1)
    }
}

/// Whether the word stands somewhere in the text.
pub open spec fn has_word(text: Seq<char>, word: Seq<char>) -> bool {
    exists|k: int| 0 <= k <= text.len() - word.len()
        && #[trigger] text.subrange(k, k + word.len()) == word
}

proof fn lemma_word_occurs(text: Seq<char>, word: Seq<char>)
    ensures
        has_word(text, word) == occurs(text, word),
{
    if occurs(text, word) {
        let k = choose|k: int| text::occurs_at(text, word, k);
        assert(text.subrange(k, k + word.len()) == word);
    }
    if has_word(text, word) {
        let k = choose|k: int|
            0 <= k <= text.len() - word.len() && #[trigger] text.subrange(k, k + word.len())
                == word;
        assert(text::occurs_at(text, word, k));
    }
}

/// A run goes on while any follower has not reported: the first identified client leads, and one
/// behind it, whichever it is, whose report holds none of the closing words keeps the run open.
pub proof fn law_run_waits_for_every_follower(e: Seq<ClientEntry>, i: int, j: int)
    requires
        0 <= i < j < e.len(),
        e[i].identified,
        e[j].identified,
        !has_word(e[j].calib_status@, "aligned"@),
        !has_word(e[j].calib_status@, "failed"@),
        !has_word(e[j].calib_status@, "no lock"@),
    ensures
        !all_finished(e),
{
    lemma_seen_before(e, i, j);
    assert(!is_finished(e[j].calib_status@)) by {
        lemma_word_occurs(e[j].calib_status@, "aligned"@);
        lemma_word_occurs(e[j].calib_status@, "failed"@);
        lemma_word_occurs(e[j].calib_status@, "no lock"@);
    }
}

/// A run is over once each follower's report holds one of the closing words. What the leader reports,
/// and what clients that have not said who they are report, does not matter.
pub proof fn law_run_ends_with_the_last_report(e: Seq<ClientEntry>)
    requires
        forall|i: int, j: int|
            0 <= i < j < e.len() && (#[trigger] e[i]).identified && (#[trigger] e[j]).identified
                ==> has_word(e[j].calib_status@, "aligned"@) || has_word(
                e[j].calib_status@,
                "failed"@,
            ) || has_word(e[j].calib_status@, "no lock"@),
    ensures
        all_finished(e),
{
    assert forall|j: int|
        0 <= j < e.len() && (#[trigger] e[j]).identified && identified_ids(e.take(j)).len()
            > 0 implies is_finished(e[j].calib_status@) by {
        let i = lemma_seen_is_there(e, j);
        assert(e[i].identified);
        lemma_word_occurs(e[j].calib_status@, "aligned"@);
        lemma_word_occurs(e[j].calib_status@, "failed"@);
        lemma_word_occurs(e[j].calib_status@, "no lock"@);
    }
}

proof fn lemma_ids_prefix(e: Seq<ClientEntry>, i: int, j: int)
    requires
        0 <= i <= j <= e.len(),
    ensures
        identified_ids(e.take(i)).is_prefix_of(identified_ids(e.take(j))),
    decreases j - i,
{
    if i < j {
        lemma_ids_prefix(e, i, j - 1);
        lemma_ids_grow(e, j - 1);
        let a = identified_ids(e.take(i));
        let b = identified_ids(e.take(j - 1));
        let c = identified_ids(e.take(j));
        assert(a =~= c.subrange(0, a.len() as int)) by {
            assert(a =~= b.subrange(0, a.len() as int));
        }
    } else {
        let a = identified_ids(e.take(i));
        assert(a =~= a.subrange(0, a.len() as int));
    }
}

/// Every client that has said who it is takes part in a run, in the order of connecting, and no
/// other: its place is the number of those before it, and later ones come later.
pub proof fn law_clients_take_part_in_order(e: Seq<ClientEntry>, i: int, j: int)
    requires
        0 <= i < j < e.len(),
        e[i].identified,
        e[j].identified,
    ensures
        ({
            let a = identified_ids(e.take(i)).len() as int;
            let b = identified_ids(e.take(j)).len() as int;
            &&& a < b < identified_ids(e).len()
            &&& identified_ids(e)[a] == e[i].conn_id
            &&& identified_ids(e)[b] == e[j].conn_id
        }),
        identified_ids(e).len() >= 2,
{
    assert(e.take(e.len() as int) =~= e);
    lemma_ids_grow(e, i);
    lemma_ids_grow(e, j);
    lemma_ids_prefix(e, i + 1, j);
    lemma_ids_prefix(e, i + 1, e.len() as int);
    lemma_ids_prefix(e, j + 1, e.len() as int);
    let a = identified_ids(e.take(i)).len() as int;
    let b = identified_ids(e.take(j)).len() as int;
    let x = identified_ids(e.take(i + 1));
    let y = identified_ids(e.take(j + 1));
    let all = identified_ids(e);
    assert(x[a] == e[i].conn_id && x[a] == all.subrange(0, x.len() as int)[a]);
    assert(y[b] == e[j].conn_id && y[b] == all.subrange(0, y.len() as int)[b]);
}

/// Only clients that have said who they are take part in a run.
pub proof fn law_strangers_take_no_part(e: Seq<ClientEntry>, k: int) -> (i: int)
    requires
        0 <= k < identified_ids(e).len(),
    ensures
        0 <= i < e.len(),
        e[i].identified,
        e[i].conn_id == identified_ids(e)[k],
        identified_ids(e.take(i)).len() == k,
    decreases e.len(),
{
    let rest = e.drop_last();
    assert(e.take(e.len() - 1) =~= rest);
    if e.last().identified && k == identified_ids(rest).len() {
        e.len() - 1
    } else {
        let i = law_strangers_take_no_part(rest, k);
        assert(rest.take(i) =~= e.take(i));
        i
    }
}

/// The client that connected first plays the code and the others follow it: each is told its role,
/// the code of the one that leads, and, as far as a byte goes, a time slot of its own in the order
/// of connecting.
pub proof fn law_first_leads_the_others_follow(place: int)
    requires
        place >= 0,
    ensures
        order_bytes(place).len() == 12,
        order_bytes(place)[0] == 0x22,
        order_bytes(place)[1] == 1,
        order_bytes(place)[2] == (if place == 0 {
            1u8
        } else {
            2u8
        }),
        wire::le_value(order_bytes(place).subrange(3, 7)) == 0x9e37_79b9,
        1 <= place <= 256 ==> order_bytes(place)[11] == place - 1,
        place > 256 ==> order_bytes(place)[11] == 255,
        place == 0 ==> order_bytes(place)[11] == 0 && wire::le_value(
            order_bytes(place).subrange(7, 11),
        ) == 0,
        place > 0 ==> wire::le_value(order_bytes(place).subrange(7, 11)) == seed_of(slot_of(place)),
{
    let t = wire::CastTargets {
        video_on: false,
        width: 0,
        height: 0,
        fps: 0,
        video_kbps: 0,
        audio_bps: 0,
        sample_rate: 0,
        channels: 0,
    };
    let m = order_bytes(place);
    if place == 0 {
        wire::law_layouts(0, 0, 0, 0, 1, 0x9e37_79b9, 0, 0, t);
    } else {
        wire::law_layouts(0, 0, 0, 0, 2, 0x9e37_79b9, seed_of(slot_of(place)), slot_of(place), t);
    }
    assert(m[0] == m.subrange(0, 3)[0] && m[1] == m.subrange(0, 3)[1] && m[2] == m.subrange(0, 3)[2]);
}

/// Seeds are spread by a fixed step: a slot's seed differs from the reference's by the bits of one
/// step more than the slot before.
pub proof fn law_seeds_step(slot: u8)
    ensures
        seed_of(slot) ^ 0x9e37_79b9 == (0x9e37_79b1 * (slot + 1)) % 0x1_0000_0000,
{
    let x = ((SEED_STEP * (slot + 1)) % 0x1_0000_0000) as u32;
    assert((0x9e37_79b9u32 ^ x) ^ 0x9e37_79b9u32 == x) by (bit_vector);
}

/// When a run starts the leader is shown as such and each follower as waiting for its turn; a client
/// that has not said who it is is shown as before.
pub proof fn law_start_is_shown(e: Seq<ClientEntry>, i: int, j: int)
    requires
        0 <= i < j < e.len(),
    ensures
        !e[j].identified ==> ordered_view(e, j) == e[j]@,
        e[i].identified && e[j].identified ==> ordered_view(e, j).calib_status == "queued…"@,
        e[j].identified && (forall|k: int| 0 <= k < j ==> !(#[trigger] e[k]).identified)
            ==> ordered_view(e, j).calib_status == "reference"@,
        ordered_view(e, j).name == e[j]@.name,
        ordered_view(e, j).trim_ms == e[j].trim_ms,
        ordered_view(e, j).conn_id == e[j].conn_id,
{
    if e[i].identified {
        lemma_seen_before(e, i, j);
    }
    if identified_ids(e.take(j)).len() > 0 {
        let k = lemma_seen_is_there(e, j);
        assert(e[k].identified);
    }
}

/// A run that was stopped forgets what the clients reported; one that came to its end leaves the
/// results to be seen. Nothing else of a client changes.
pub proof fn law_results_stay_visible(e: EntryView)
    ensures
        ended_view(e, false) == e,
        ended_view(e, true).calib_status.len() == 0,
        ended_view(e, true).trim_ms == e.trim_ms,
        ended_view(e, true).reported_trim_ms == e.reported_trim_ms,
        ended_view(e, true).name == e.name,
        ended_view(e, true).stable_id == e.stable_id,
        ended_view(e, true).identified == e.identified,
        ended_view(e, true).frames_dropped == e.frames_dropped,
{
}

/// Only the operator starts a run, and only with two clients to align. It lasts until the operator
/// stops it or every follower has reported.
pub proof fn law_life_of_a_run(before: bool, e: Seq<ClientEntry>, i: int, j: int)
    requires
        0 <= i < j < e.len(),
        e[i].identified,
        e[j].identified,
    ensures
        calibrating_after(before, CalibCommand::Start, e),
        !calibrating_after(before, CalibCommand::Stop, e),
        !calibrating_after(false, CalibCommand::Nothing, e),
        !has_word(e[j].calib_status@, "aligned"@) && !has_word(e[j].calib_status@, "failed"@)
            && !has_word(e[j].calib_status@, "no lock"@) ==> calibrating_after(
            before,
            CalibCommand::Nothing,
            e,
        ) == before,
{
    law_clients_take_part_in_order(e, i, j);
    if !has_word(e[j].calib_status@, "aligned"@) && !has_word(e[j].calib_status@, "failed"@)
        && !has_word(e[j].calib_status@, "no lock"@) {
        law_run_waits_for_every_follower(e, i, j);
    }
}

/// A single client is not enough for a run, and one that has finished does not go on.
pub proof fn law_no_run_without_two(before: bool, e: Seq<ClientEntry>)
    requires
        forall|i: int, j: int|
            0 <= i < j < e.len() ==> !((#[trigger] e[i]).identified && (#[trigger] e[j]).identified),
    ensures
        identified_ids(e).len() < 2,
        !calibrating_after(false, CalibCommand::Start, e),
        !calibrating_after(before, CalibCommand::Nothing, e),
{
    if identified_ids(e).len() >= 2 {
        let a = law_strangers_take_no_part(e, 0);
        let b = law_strangers_take_no_part(e, 1);
        assert(e[a].identified && e[b].identified && a != b);
    }
    law_run_ends_with_the_last_report(e);
}

/// A sync offset is delivered to exactly the clients whose last one differs: each gets its own, and
/// what is delivered is what the operator set for that client, or zero.
pub proof fn law_offsets_reach_their_clients(e: Seq<ClientEntry>, trims: Map<Seq<char>, i32>, i: int)
    requires
        0 <= i < e.len(),
    ensures
        trims.dom().contains(e[i].stable_id@) && trims[e[i].stable_id@] != e[i].trim_ms ==> due_trims(
            e,
            trims,
        ).contains(TrimUpdate { conn_id: e[i].conn_id, ms: trims[e[i].stable_id@] }),
        !trims.dom().contains(e[i].stable_id@) && e[i].trim_ms != 0 ==> due_trims(e, trims).contains(
            TrimUpdate { conn_id: e[i].conn_id, ms: 0 },
        ),
    decreases e.len(),
{
    let rest = e.drop_last();
    let before = due_trims(rest, trims);
    let all = due_trims(e, trims);
    if i < rest.len() {
        assert(rest[i] == e[i]);
        law_offsets_reach_their_clients(rest, trims, i);
        assert forall|u: TrimUpdate| before.contains(u) implies all.contains(u) by {
            let k = choose|k: int| 0 <= k < before.len() && before[k] == u;
            assert(all[k] == u);
        }
    } else if wanted_trim(trims, e[i].stable_id@) != e[i].trim_ms {
        assert(all[all.len() - 1] == (TrimUpdate {
            conn_id: e[i].conn_id,
            ms: wanted_trim(trims, e[i].stable_id@),
        }));
    }
}

/// No offset is delivered that some client does not lack.
pub proof fn law_no_idle_offsets(e: Seq<ClientEntry>, trims: Map<Seq<char>, i32>, k: int) -> (i: int)
    requires
        0 <= k < due_trims(e, trims).len(),
    ensures
        0 <= i < e.len(),
        due_trims(e, trims)[k].conn_id == e[i].conn_id,
        due_trims(e, trims)[k].ms != e[i].trim_ms,
        due_trims(e, trims)[k].ms == (if trims.dom().contains(e[i].stable_id@) {
            trims[e[i].stable_id@]
        } else {
            0
        }),
    decreases e.len(),
{
    let rest = e.drop_last();
    if k < due_trims(rest, trims).len() {
        let i = law_no_idle_offsets(rest, trims, k);
        assert(rest[i] == e[i]);
        i
    } else {
        e.len() - 1
    }
}

/// Resetting everybody leaves every connected client with zero; resetting one leaves that one with
/// zero.
pub proof fn law_reset_means_zero(
    trims: Map<Seq<char>, i32>,
    e: Seq<ClientEntry>,
    one: Option<Seq<char>>,
    i: int,
)
    requires
        0 <= i < e.len(),
        one matches Some(id) ==> id == e[i].stable_id@,
    ensures
        wanted_trim(reset_trims(trims, e, one), e[i].stable_id@) == 0,
    decreases e.len(),
{
    let rest = e.drop_last();
    if i < rest.len() {
        assert(rest[i] == e[i]);
        law_reset_means_zero(trims, rest, one, i);
    }
}

/// A reset of one client tells no other to drop its offset.
pub proof fn law_reset_tells_no_other(e: Seq<ClientEntry>, one: Seq<char>, k: int) -> (i: int)
    requires
        0 <= k < reset_ids(e, Some(one)).len(),
    ensures
        0 <= i < e.len(),
        e[i].conn_id == reset_ids(e, Some(one))[k],
        e[i].stable_id@ == one,
    decreases e.len(),
{
    let rest = e.drop_last();
    if k < reset_ids(rest, Some(one)).len() {
        let i = law_reset_tells_no_other(rest, one, k);
        assert(rest[i] == e[i]);
        i
    } else {
        e.len() - 1
    }
}

/// Turning a mute over twice changes nothing that is heard, turning it over once silences a client
/// that was heard or lets one be heard that was not, and nobody else is touched; the master mutes
/// everybody.
pub proof fn law_mutes(m: Mixer, once: Mixer, twice: Mixer, id: Seq<char>, other: Seq<char>)
    requires
        other != id,
        once.master_muted == m.master_muted,
        twice.master_muted == m.master_muted,
        once.muted@ == mute_toggled(m.muted@, id),
        twice.muted@ == mute_toggled(once.muted@, id),
    ensures
        m.master_muted ==> silent(m, id) && silent(once, id),
        !m.master_muted ==> silent(once, id) == !silent(m, id),
        silent(twice, id) == silent(m, id),
        silent(once, other) == silent(m, other),
{
}

/// The name that the operator typed is shown for the client, without the white space around it, and
/// no other client's name changes; a blank one gives the client its own name back.
pub proof fn law_typed_name_is_shown(
    names: Map<Seq<char>, String>,
    typed: Seq<char>,
    after: Map<Seq<char>, String>,
    e: EntryView,
    other: EntryView,
)
    requires
        is_renamed(names, e.stable_id, typed, after),
        other.stable_id != e.stable_id,
    ensures
        trimmed(typed).len() > 0 ==> shown_name(after, e) == trimmed(typed),
        trimmed(typed).len() == 0 && e.name.len() > 0 ==> shown_name(after, e) == e.name,
        trimmed(typed).len() == 0 && e.name.len() == 0 ==> shown_name(after, e) == "Client "@
            + text::decimal(e.conn_id as nat),
        shown_name(after, other) == shown_name(names, other),
{
}

/// A row shows the offset that the client really has if it told, and is marked as casting exactly for
/// the client that holds the slot; what it shows of a run is what the client reported.
pub proof fn law_rows_show_the_client(row: ClientRow, e: EntryView, m: Mixer, caster: Option<u64>)
    requires
        row_shows(row, e, m, caster),
    ensures
        e.reported_trim_ms matches Some(ms) ==> row.shown_ms == ms && row.reported,
        e.reported_trim_ms is None ==> !row.reported && row.shown_ms == row.trim_ms,
        m.trims@.dom().contains(e.stable_id) ==> row.trim_ms == m.trims@[e.stable_id],
        !m.trims@.dom().contains(e.stable_id) ==> row.trim_ms == 0,
        row.casting <==> caster == Some(e.conn_id),
        row.conn_id == e.conn_id && row.stable_id@ == e.stable_id
            && row.calib_status@ == e.calib_status,
        row.identified == e.identified,
        has_word(e.calib_status, "aligned"@) ==> row.calib_ok,
        e.calib_status == "reference"@ ==> row.calib_ok,
        e.calib_status.len() == 0 ==> !row.calib_ok,
        m.names@.dom().contains(e.stable_id) ==> row.display@ == m.names@[e.stable_id]@,
        !m.names@.dom().contains(e.stable_id) && e.name.len() > 0 ==> row.display@ == e.name,
        !m.names@.dom().contains(e.stable_id) && e.name.len() == 0 ==> row.display@ == "Client "@
            + text::decimal(e.conn_id as nat),
        !m.master_muted ==> row.muted == silent(m, e.stable_id),
{
    lemma_word_occurs(e.calib_status, "aligned"@);
    reveal_strlit("aligned");
    reveal_strlit("reference");
}

/// Every client that has said who it is gets exactly one order when a run starts, and nobody else
/// does: the first the code to play, the others the time slot and the seed of their own place.
pub proof fn law_every_client_gets_its_order(
    e: Seq<ClientEntry>,
    orders: Seq<Order>,
    after: Seq<ClientEntry>,
    i: int,
    j: int,
)
    requires
        run_started(e, orders, after),
        0 <= i < j < e.len(),
        e[i].identified,
        e[j].identified,
    ensures
        ({
            let a = identified_ids(e.take(i)).len() as int;
            let b = identified_ids(e.take(j)).len() as int;
            &&& 0 <= a < b < orders.len()
            &&& orders[a].conn_id == e[i].conn_id
            &&& orders[b].conn_id == e[j].conn_id
            &&& orders[b].message@[2] == 2
            &&& b <= 256 ==> orders[b].message@[11] == b - 1
            &&& (forall|k: int| 0 <= k < i ==> !(#[trigger] e[k]).identified) ==> a == 0
                && orders[a].message@[2] == 1
        }),
{
    law_clients_take_part_in_order(e, i, j);
    let a = identified_ids(e.take(i)).len() as int;
    let b = identified_ids(e.take(j)).len() as int;
    law_first_leads_the_others_follow(a);
    law_first_leads_the_others_follow(b);
    assert(orders[a].message@ == order_bytes(a));
    assert(orders[b].message@ == order_bytes(b));
    if (forall|k: int| 0 <= k < i ==> !(#[trigger] e[k]).identified) && a > 0 {
        let k = lemma_seen_is_there(e, i);
        assert(e[k].identified);
    }
}

/// The operator's commands are done at once: a start with two clients to align gives orders, a start
/// without them says so, a stop tells everybody and forgets the reports, and a run that is over tells
/// everybody and leaves them.
pub proof fn law_commands_are_done(
    calibrating: bool,
    command: CalibCommand,
    e: Seq<ClientEntry>,
    r: CalibOutcome,
    after: Seq<ClientEntry>,
    i: int,
)
    requires
        calib_step(calibrating, command, e, r, after),
        0 <= i < e.len(),
    ensures
        command == CalibCommand::Start && identified_ids(e).len() >= 2 ==> r is Orders,
        command == CalibCommand::Start && identified_ids(e).len() < 2 ==> r is TooFew,
        command == CalibCommand::Stop ==> r is Stop && after[i]@.calib_status.len() == 0,
        command == CalibCommand::Nothing && !calibrating ==> r is Nothing,
        command == CalibCommand::Nothing && calibrating && all_finished(e) ==> r is Stop && after[i]@
            == e[i]@,
        command == CalibCommand::Nothing && !all_finished(e) ==> r is Nothing && after == e,
        r matches CalibOutcome::Stop(ids) ==> ids@.len() == e.len() && ids@[i] == e[i].conn_id,
{
}

/// What is typed as a name is left alone while the client is there. Once it is gone the name is
/// kept for when it comes back, unless it is blank, and typing ends.
pub proof fn law_typed_name_outlives_the_client(
    m: Mixer,
    e: Seq<ClientEntry>,
    after: Mixer,
    id: String,
    i: int,
    back: EntryView,
)
    requires
        settle_step(m, e, after),
        m.editing == Some(id),
        back.stable_id == id@,
    ensures
        0 <= i < e.len() && e[i].identified && e[i].stable_id@ == id@ ==> after == m,
        (forall|k: int|
            0 <= k < e.len() ==> !((#[trigger] e[k]).identified && e[k].stable_id@ == id@)) ==> {
            &&& after.editing is None
            &&& after.edit_buffer@.len() == 0
            &&& trimmed(m.edit_buffer@).len() > 0 ==> shown_name(after.names@, back) == trimmed(
                m.edit_buffer@,
            )
            &&& trimmed(m.edit_buffer@).len() == 0 ==> after.names == m.names
        },
{
}

} // verus!
