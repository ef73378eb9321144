//! Resolved replication configuration of a scene.

use crate::manifest::ManifestReplicationConfig;
use vstd::prelude::*;

verus! {

/// Mathematical model of a replication configuration: event names mapped to
/// an optional flag, in declaration order.
pub struct ReplicationView {
    pub send_events: Seq<(Seq<char>, Option<bool>)>,
    pub recv_events: Seq<(Seq<char>, Option<bool>)>,
}

/// Replication events of a scene: each declared event name is mapped to an
/// enabled flag.
#[derive(Debug)]
pub struct ReplicationConfig {
    send_events: Vec<(String, Option<bool>)>,
    recv_events: Vec<(String, Option<bool>)>,
}

impl View for ReplicationConfig {
    type V = ReplicationView;

    closed spec fn view(&self) -> ReplicationView {
        ReplicationView {
            send_events: self.send_events@.map_values(
                |e: (String, Option<bool>)| (e.0@, e.1),
            ),
            recv_events: self.recv_events@.map_values(
                |e: (String, Option<bool>)| (e.0@, e.1),
            ),
        }
    }
}

/// The declared names with repeats dropped: each name's first occurrence
/// is kept, in declaration order.
pub open spec fn dedup_texts(names: Seq<String>) -> Seq<Seq<char>>
    decreases names.len(),
{
    if names.len() == 0 {
        Seq::empty()
    } else {
        let rest = dedup_texts(names.drop_last());
        if rest.contains(names.last()@) {
            rest
        } else {
            rest.push(names.last()@)
        }
    }
}

/// The event entries a declared list maps to: every declared name enabled,
/// each name held once — a repeated declaration adds nothing.
pub open spec fn enabled_events(names: Seq<String>) -> Seq<(Seq<char>, Option<bool>)> {
    dedup_texts(names).map_values(|n: Seq<char>| (n, Some(true)))
}

/// Whether an entry under the name was already collected.
fn key_seen(out: &Vec<(String, Option<bool>)>, name: &str) -> (r: bool)
    ensures
        r == out@.map_values(|e: (String, Option<bool>)| e.0@).contains(name@),
{
    let ghost keys = out@.map_values(|e: (String, Option<bool>)| e.0@);
    let n = out.len();
    let mut i: usize = 0;
    while i < n
        invariant
            i <= n,
            n == out@.len(),
            keys == out@.map_values(|e: (String, Option<bool>)| e.0@),
            forall|j: int| 0 <= j < i ==> #[trigger] keys[j] != name@,
        decreases n - i,
    {
        if crate::text::str_eq(out[i].0.as_str(), name) {
            proof {
                assert(keys[i as int] == name@);
                assert(keys.contains(keys[i as int]));
            }
            return true;
        }
        i = i + 1;
    }
    proof {
        if keys.contains(name@) {
            let j = choose|j: int| 0 <= j < keys.len() && keys[j] == name@;
            assert(false);
        }
    }
    false
}

/// Map each declared event name to an enabled entry, first occurrence
/// only.
fn events_of(names: &Vec<String>) -> (r: Vec<(String, Option<bool>)>)
    ensures
        r@.map_values(|e: (String, Option<bool>)| (e.0@, e.1)) == enabled_events(names@),
{
    let n = names.len();
    let mut out: Vec<(String, Option<bool>)> = Vec::new();
    let mut i: usize = 0;
    proof {
        assert(names@.take(0) =~= Seq::<String>::empty());
        assert(out@.map_values(|e: (String, Option<bool>)| e.0@) =~= dedup_texts(
            names@.take(0),
        ));
    }
    while i < n
        invariant
            i <= n,
            n == names@.len(),
            out@.map_values(|e: (String, Option<bool>)| e.0@) == dedup_texts(
                names@.take(i as int),
            ),
            forall|j: int| 0 <= j < out@.len() ==> (#[trigger] out@[j]).1 == Some(true),
        decreases n - i,
    {
        let ghost keyf = |e: (String, Option<bool>)| e.0@;
        proof {
            assert(names@.take(i as int + 1).drop_last() =~= names@.take(i as int));
            assert(names@.take(i as int + 1).last() == names@[i as int]);
        }
        let ghost before = out@;
        if !key_seen(&out, names[i].as_str()) {
            out.push((names[i].clone(), Some(true)));
            proof {
                assert(out@.map_values(keyf) =~= before.map_values(keyf).push(
                    names@[i as int]@,
                ));
            }
        }
        i = i + 1;
    }
    proof {
        assert(names@.take(n as int) =~= names@);
        let f = |e: (String, Option<bool>)| (e.0@, e.1);
        let keyf = |e: (String, Option<bool>)| e.0@;
        assert forall|j: int| 0 <= j < out@.len() implies out@.map_values(f)[j]
            == enabled_events(names@)[j] by {
            assert(out@.map_values(f)[j] == f(out@[j]));
            assert(out@.map_values(keyf)[j] == keyf(out@[j]));
        }
        assert(out@.map_values(f).len() == enabled_events(names@).len());
        assert(out@.map_values(f) =~~= enabled_events(names@));
    }
    out
}

impl Clone for ReplicationConfig {
    /// A clone carries the same model.
    fn clone(&self) -> (r: Self)
        ensures
            r@ == self@,
    {
        let r = ReplicationConfig {
            send_events: clone_events(&self.send_events),
            recv_events: clone_events(&self.recv_events),
        };
        proof {
            assert(r@.send_events =~= self@.send_events);
            assert(r@.recv_events =~= self@.recv_events);
        }
        r
    }
}

/// Clone an event list to one with the same model.
fn clone_events(events: &Vec<(String, Option<bool>)>) -> (r: Vec<(String, Option<bool>)>)
    ensures
        r@.map_values(|e: (String, Option<bool>)| (e.0@, e.1)) =~= events@.map_values(
            |e: (String, Option<bool>)| (e.0@, e.1),
        ),
{
    let n = events.len();
    let mut out: Vec<(String, Option<bool>)> = Vec::new();
    let mut i: usize = 0;
    while i < n
        invariant
            i <= n,
            n == events@.len(),
            out@.len() == i,
            forall|j: int| #![auto]
                0 <= j < i ==> out@[j].0@ == events@[j].0@ && out@[j].1 == events@[j].1,
        decreases n - i,
    {
        let flag = match events[i].1 {
            Some(b) => Some(b),
            None => None,
        };
        out.push((events[i].0.clone(), flag));
        i = i + 1;
    }
    out
}

/// What a resolved replication configuration holds for a declaration.
pub open spec fn replication_resolved(
    decl: Option<ManifestReplicationConfig>,
    v: ReplicationView,
) -> bool {
    match decl {
        Some(c) => v.send_events == enabled_events(c.send_events@) && v.recv_events
            == enabled_events(c.recv_events@),
        None => v.send_events.len() == 0 && v.recv_events.len() == 0,
    }
}

impl ReplicationConfig {
    /// An empty configuration.
    pub fn new_empty() -> (r: Self)
        ensures
            r@.send_events.len() == 0,
            r@.recv_events.len() == 0,
    {
        let r = ReplicationConfig { send_events: Vec::new(), recv_events: Vec::new() };
        proof {
            assert(r@.send_events =~= Seq::<(Seq<char>, Option<bool>)>::empty());
            assert(r@.recv_events =~= Seq::<(Seq<char>, Option<bool>)>::empty());
        }
        r
    }

    /// The two event lists, for reading.
    pub fn event_lists(&self) -> (r: (&Vec<(String, Option<bool>)>, &Vec<(String, Option<bool>)>))
        ensures
            r.0@.len() == self@.send_events.len(),
            forall|j: int| #![auto]
                0 <= j < r.0@.len() ==> self@.send_events[j] == (r.0@[j].0@, r.0@[j].1),
            r.1@.len() == self@.recv_events.len(),
            forall|j: int| #![auto]
                0 <= j < r.1@.len() ==> self@.recv_events[j] == (r.1@[j].0@, r.1@[j].1),
    {
        (&self.send_events, &self.recv_events)
    }

    /// Resolve a raw replication declaration: every declared event name is
    /// mapped to an enabled flag; no declaration means no events.
    pub fn from_manifest(replication: &Option<ManifestReplicationConfig>) -> (r: Self)
        ensures
            match replication {
                Some(c) => r@.send_events == enabled_events(c.send_events@) && r@.recv_events
                    == enabled_events(c.recv_events@),
                None => r@.send_events.len() == 0 && r@.recv_events.len() == 0,
            },
    {
        match replication {
            Some(c) => ReplicationConfig {
                send_events: events_of(&c.send_events),
                recv_events: events_of(&c.recv_events),
            },
            None => ReplicationConfig::new_empty(),
        }
    }
}

} // verus!
