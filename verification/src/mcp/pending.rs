//! The MCP bridge's requests that still wait for their answer, by request
//! id.
use std::collections::HashMap;
use vstd::prelude::*;
use vstd::std_specs::hash::*;
use vstd::std_specs::iter::IteratorSpec;

use crate::profile::manager::{decimal, decimal_exec, lemma_decimal_injective, lemma_decimal_plain};
use crate::text::{chars_of, push_chars};

verus! {

broadcast use vstd::std_specs::hash::group_hash_axioms;

/// The id after `id` (ids wrap around, as the atomic counter they come from
/// does).
pub open spec fn next_id(id: u64) -> u64 {
    if id == u64::MAX {
        0
    } else {
        (id + 1) as u64
    }
}

/// Requests sent to the bridge and not yet answered: a waiter (the channel
/// the answer goes to) for each request id, and the id the next request
/// gets.
pub struct PendingRequests<T> {
    next: u64,
    waiters: HashMap<u64, T>,
}

impl<T> PendingRequests<T> {
    /// The waiters by request id.
    pub closed spec fn waiting(&self) -> Map<u64, T> {
        self.waiters@
    }

    /// The id the next request gets.
    pub closed spec fn upcoming(&self) -> u64 {
        self.next
    }

    /// No request waiting; ids start at 0.
    pub fn new() -> (r: Self)
        ensures
            r.waiting() == Map::<u64, T>::empty(),
            r.upcoming() == 0,
    {
        PendingRequests { next: 0, waiters: HashMap::new() }
    }

    /// Gives the next request its id and records its waiter.
    pub fn register(&mut self, waiter: T) -> (id: u64)
        ensures
            id == old(self).upcoming(),
            final(self).upcoming() == next_id(old(self).upcoming()),
            final(self).waiting() == old(self).waiting().insert(id, waiter),
    {
        let id = self.next;
        self.next = if id == u64::MAX {
            0
        } else {
            id + 1
        };
        self.waiters.insert(id, waiter);
        id
    }

    /// Takes the waiter of the answer with id `id`, if that request is
    /// still waiting; an answer to an unknown or already answered request
    /// finds none.
    pub fn take(&mut self, id: u64) -> (r: Option<T>)
        ensures
            r == (if old(self).waiting().contains_key(id) {
                Some(old(self).waiting()[id])
            } else {
                None::<T>
            }),
            final(self).waiting() == old(self).waiting().remove(id),
            final(self).upcoming() == old(self).upcoming(),
    {
        self.waiters.remove(&id)
    }

    /// Number of waiting requests.
    pub fn len(&self) -> (n: usize)
        ensures
            n == self.waiting().len(),
    {
        self.waiters.len()
    }

    /// Takes all waiters (when the bridge stops), with their request ids.
    pub fn drain(&mut self) -> (r: Vec<(u64, T)>)
        ensures
            final(self).waiting() == Map::<u64, T>::empty(),
            final(self).upcoming() == old(self).upcoming(),
            r.len() == old(self).waiting().len(),
            forall|i: int|
                0 <= i < r.len() ==> old(self).waiting().contains_key(#[trigger] r@[i].0) && old(self).waiting()[r@[i].0]
                    == r@[i].1,
            forall|i: int, j: int| 0 <= i < j < r.len() ==> #[trigger] r@[i].0 != #[trigger] r@[j].0,
    {
        let ghost start = self.waiters@;
        let mut ids: Vec<u64> = Vec::new();
        for k in it: self.waiters.keys()
            invariant
                ids@ == it.seq().take(it.index()).map_values(|k: &u64| *k),
                it.seq() == spec_keys_iter(&self.waiters).remaining(),
        {
            assert(it.seq().take(it.index() + 1) =~= it.seq().take(it.index()).push(k));
            ids.push(*k);
        }
        proof {
            let rem = spec_keys_iter(&self.waiters).remaining();
            assert(ids@ =~= rem.map_values(|k: &u64| *k));
            assert forall|a: int, b: int| 0 <= a < b < ids.len() implies ids@[a] != ids@[b] by {
                assert(rem[a] != rem[b]);
            }
            assert(ids@.to_set() =~= start.dom()) by {
                assert forall|x: u64| ids@.to_set().contains(x) implies start.dom().contains(x) by {
                    let a = choose|a: int| 0 <= a < ids.len() && ids@[a] == x;
                    assert(rem.unref()[a] == x);
                    assert(rem.unref().contains(x));
                    assert(rem.unref().to_set().contains(x));
                }
                assert forall|x: u64| start.dom().contains(x) implies ids@.to_set().contains(x) by {
                    assert(rem.unref().to_set().contains(x));
                    let a = choose|a: int| 0 <= a < rem.len() && rem.unref()[a] == x;
                    assert(ids@[a] == x);
                }
            }
        }
        let mut r: Vec<(u64, T)> = Vec::new();
        let mut i: usize = 0;
        while i < ids.len()
            invariant
                i <= ids.len(),
                forall|a: int, b: int| 0 <= a < b < ids.len() ==> ids@[a] != ids@[b],
                ids@.to_set() == start.dom(),
                ids.len() == start.dom().len(),
                r.len() == i,
                forall|a: int| 0 <= a < i ==> #[trigger] r@[a].0 == ids@[a] && start[ids@[a]] == r@[a].1,
                self.waiters@ == start.remove_keys(ids@.take(i as int).to_set()),
                self.next == old(self).next,
            decreases ids.len() - i,
        {
            let id = ids[i];
            assert(start.dom().contains(id)) by {
                assert(ids@.to_set().contains(ids@[i as int]));
            }
            assert(!ids@.take(i as int).to_set().contains(id)) by {
                if ids@.take(i as int).to_set().contains(id) {
                    let a = choose|a: int| 0 <= a < i && ids@.take(i as int)[a] == id;
                    assert(ids@[a] == ids@[i as int]);
                }
            }
            let ghost before = self.waiters@;
            match self.waiters.remove(&id) {
                Some(w) => {
                    r.push((id, w));
                },
                None => {
                    proof {
                        assert(false);
                    }
                },
            }
            assert(self.waiters@ == before.remove(id));
            assert(ids@.take(i + 1) =~= ids@.take(i as int).push(id));
            assert(ids@.take(i + 1).to_set() =~= ids@.take(i as int).to_set().insert(id)) by {
                let t0 = ids@.take(i as int);
                let t1 = ids@.take(i + 1);
                assert forall|x: u64| t1.to_set().contains(x) implies t0.to_set().insert(id).contains(x) by {
                    assert(t1.contains(x));
                    let a = choose|a: int| 0 <= a < t1.len() && t1[a] == x;
                    if a < i {
                        assert(t0[a] == x);
                        assert(t0.contains(x));
                    }
                }
                assert forall|x: u64| t0.to_set().insert(id).contains(x) implies t1.to_set().contains(x) by {
                    if x == id {
                        assert(t1[i as int] == x);
                        assert(t1.contains(x));
                    } else {
                        assert(t0.contains(x));
                        let a = choose|a: int| 0 <= a < t0.len() && t0[a] == x;
                        assert(t1[a] == x);
                        assert(t1.contains(x));
                    }
                }
            }
            assert(self.waiters@ =~= start.remove_keys(ids@.take(i + 1).to_set()));
            i = i + 1;
        }
        assert(ids@.take(ids.len() as int) =~= ids@);
        assert(self.waiters@ =~= Map::<u64, T>::empty());
        r
    }
}

/// An answer line from the bridge, as far as it is read: its numeric `id`
/// (when it has one), its `result` (when present), and its `error` when
/// present, with the error's `message` when that is text.
pub struct BridgeReply<R> {
    pub id: Option<u64>,
    pub result: Option<R>,
    pub error: Option<Option<String>>,
}

/// What an answer hands to the request waiting for it.
pub enum Delivery<R> {
    /// The answer's `result`.
    Value(R),
    /// The answer's error message.
    Failure(String),
    /// Neither a result nor an error: the waiter is dropped unanswered.
    Nothing,
}

/// `d` is what an answer with `result` and `error` delivers: the result when
/// there is one, else the error's message (`unknown` when it has none as
/// text), else nothing.
pub open spec fn delivers<R>(result: Option<R>, error: Option<Option<String>>, d: Delivery<R>) -> bool {
    match result {
        Some(v) => d == Delivery::Value(v),
        None => match error {
            Some(Some(m)) => d == Delivery::<R>::Failure(m),
            Some(None) => d matches Delivery::Failure(t) && t@ == "unknown"@,
            None => d is Nothing,
        },
    }
}

/// What an answer with `result` and `error` delivers to its waiter.
pub fn reply_delivery<R>(result: Option<R>, error: Option<Option<String>>) -> (d: Delivery<R>)
    ensures
        delivers(result, error, d),
{
    match result {
        Some(v) => Delivery::Value(v),
        None => match error {
            Some(Some(m)) => Delivery::Failure(m),
            Some(None) => {
                let t = "unknown".to_owned();
                proof {
                    reveal_strlit("unknown");
                }
                Delivery::Failure(t)
            },
            None => Delivery::Nothing,
        },
    }
}

impl<T> PendingRequests<T> {
    /// Handles an answer from the bridge: an answer without a numeric id is
    /// ignored; otherwise the waiter of that id, if still waiting, is taken
    /// and handed what the answer delivers.
    pub fn answer<R>(&mut self, reply: BridgeReply<R>) -> (r: Option<(T, Delivery<R>)>)
        ensures
            final(self).upcoming() == old(self).upcoming(),
            match reply.id {
                None => r is None && final(self).waiting() == old(self).waiting(),
                Some(id) => {
                    &&& final(self).waiting() == old(self).waiting().remove(id)
                    &&& if old(self).waiting().contains_key(id) {
                        r matches Some(p) && p.0 == old(self).waiting()[id] && delivers(reply.result, reply.error, p.1)
                    } else {
                        r is None
                    }
                },
            },
    {
        match reply.id {
            None => None,
            Some(id) => match self.take(id) {
                Some(w) => Some((w, reply_delivery(reply.result, reply.error))),
                None => None,
            },
        }
    }
}

/// Once an answer took its waiter, a second answer with the same id finds
/// none: each request is answered at most once.
pub proof fn law_answered_once<T>(waiting: Map<u64, T>, id: u64)
    ensures
        !waiting.remove(id).contains_key(id),
{
}

/// A newly registered request is waiting under the id it was given, and the
/// other waiting requests are unchanged.
pub proof fn law_register_then_take<T>(waiting: Map<u64, T>, id: u64, waiter: T)
    ensures
        waiting.insert(id, waiter).contains_key(id),
        waiting.insert(id, waiter)[id] == waiter,
        forall|k: u64| k != id ==> waiting.insert(id, waiter).remove(id).contains_key(k) == waiting.contains_key(k),
{
}

/// The id the request after `n` further registrations gets, counting from
/// the id `start`.
pub open spec fn id_after(start: u64, n: nat) -> u64
    decreases n,
{
    if n == 0 {
        start
    } else {
        next_id(id_after(start, (n - 1) as nat))
    }
}

/// On a fresh table (`new` starts at id 0, each `register` hands out its
/// `upcoming` id and moves to `next_id` of it), the request registered after
/// `k` others gets id `k`.
pub proof fn law_kth_request_id(k: nat)
    requires
        k <= u64::MAX,
    ensures
        id_after(0, k) == k,
    decreases k,
{
    if k > 0 {
        law_kth_request_id((k - 1) as nat);
    }
}

/// Requests registered on a fresh table get distinct ids, as long as fewer
/// than 2^64 are registered.
pub proof fn law_ids_distinct(i: nat, j: nat)
    requires
        i < j <= u64::MAX,
    ensures
        id_after(0, i) != id_after(0, j),
{
    law_kth_request_id(i);
    law_kth_request_id(j);
}

/// The line sent to the bridge for request `id`: the JSON object with the
/// fields `id`, `method` and `params` (the method and the parameters given
/// as JSON text), then a newline.
pub open spec fn request_text(id: u64, method_json: Seq<char>, params_json: Seq<char>) -> Seq<char> {
    "{\"id\":"@ + decimal(id as nat) + ",\"method\":"@ + method_json + ",\"params\":"@ + params_json + "}\n"@
}

/// Writes the line sent to the bridge for request `id`, whose method and
/// parameters are the JSON texts `method_json` and `params_json`.
pub fn request_line(id: u64, method_json: &str, params_json: &str) -> (r: String)
    ensures
        r@ == request_text(id, method_json@, params_json@),
{
    let mut r = "{\"id\":".to_owned();
    push_chars(&mut r, &decimal_exec(id as u128));
    push_chars(&mut r, &chars_of(",\"method\":"));
    push_chars(&mut r, &chars_of(method_json));
    push_chars(&mut r, &chars_of(",\"params\":"));
    push_chars(&mut r, &chars_of(params_json));
    push_chars(&mut r, &chars_of("}\n"));
    r
}

/// Requests with different ids are sent as different lines, whatever their
/// methods and parameters: the id is read back from the line.
pub proof fn law_request_lines_distinct(a: u64, b: u64, ma: Seq<char>, pa: Seq<char>, mb: Seq<char>, pb: Seq<char>)
    requires
        a != b,
    ensures
        request_text(a, ma, pa) != request_text(b, mb, pb),
{
    reveal_strlit("{\"id\":");
    reveal_strlit(",\"method\":");
    let la = request_text(a, ma, pa);
    let lb = request_text(b, mb, pb);
    let da = decimal(a as nat);
    let db = decimal(b as nat);
    let head = "{\"id\":"@;
    let sep = ",\"method\":"@;
    assert(head.len() == 6);
    assert(sep[0] == ',');
    lemma_decimal_plain(a as nat);
    lemma_decimal_plain(b as nat);
    if la == lb {
        assert(la =~= head + da + (sep + ma + ",\"params\":"@ + pa + "}\n"@));
        assert(lb =~= head + db + (sep + mb + ",\"params\":"@ + pb + "}\n"@));
        if da.len() == db.len() {
            assert(la.subrange(6, 6 + da.len() as int) =~= da);
            assert(lb.subrange(6, 6 + db.len() as int) =~= db);
            lemma_decimal_injective(a as nat, b as nat);
        } else if da.len() < db.len() {
            assert(la[6 + da.len() as int] == ',');
            assert(lb[6 + da.len() as int] == db[da.len() as int]);
            assert(crate::profile::manager::id_char(db[da.len() as int]));
        } else {
            assert(lb[6 + db.len() as int] == ',');
            assert(la[6 + db.len() as int] == da[db.len() as int]);
            assert(crate::profile::manager::id_char(da[db.len() as int]));
        }
    }
}

} // verus!
