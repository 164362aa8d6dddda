//! The in-memory event model: a log event is an ordered association list
//! from string keys to typed values, viewed in specifications as a map from
//! key characters to values.

use vstd::prelude::*;

use crate::strutil::str_eq;

verus! {

/// A typed field value of a log event. Timestamps are UTC milliseconds
/// since the Unix epoch.
pub enum Value {
    Str(String),
    Int(i64),
    Bool(bool),
    Ts(u64),
    Arr(Vec<Value>),
    Obj(Vec<(String, Value)>),
}

/// Entry lists keep their keys pairwise distinct.
pub open spec fn wf_entries(es: Seq<(String, Value)>) -> bool {
    forall|i: int, j: int| 0 <= i < j < es.len() ==> es[i].0@ != es[j].0@
}

/// The map a list of entries denotes; later entries win, though well-formed
/// lists never repeat a key.
pub open spec fn map_of(es: Seq<(String, Value)>) -> Map<Seq<char>, Value>
    decreases es.len(),
{
    if es.len() == 0 {
        Map::empty()
    } else {
        map_of(es.drop_last()).insert(es.last().0@, es.last().1)
    }
}

pub proof fn lemma_map_of_contains(es: Seq<(String, Value)>, k: Seq<char>)
    ensures
        map_of(es).contains_key(k) <==> exists|i: int| 0 <= i < es.len() && es[i].0@ == k,
    decreases es.len(),
{
    if es.len() > 0 {
        lemma_map_of_contains(es.drop_last(), k);
        if es.last().0@ == k {
            assert(es[es.len() - 1].0@ == k);
        } else if map_of(es).contains_key(k) {
            let i = choose|i: int| 0 <= i < es.drop_last().len() && es.drop_last()[i].0@ == k;
            assert(es[i].0@ == k);
        } else if exists|i: int| 0 <= i < es.len() && es[i].0@ == k {
            let i = choose|i: int| 0 <= i < es.len() && es[i].0@ == k;
            assert(i < es.len() - 1);
            assert(es.drop_last()[i].0@ == k);
        }
    }
}

pub proof fn lemma_map_of_index(es: Seq<(String, Value)>, i: int)
    requires
        wf_entries(es),
        0 <= i < es.len(),
    ensures
        map_of(es).contains_key(es[i].0@),
        map_of(es)[es[i].0@] == es[i].1,
    decreases es.len(),
{
    if i == es.len() - 1 {
    } else {
        assert(wf_entries(es.drop_last())) by {
            assert(forall|a: int, b: int|
                0 <= a < b < es.drop_last().len() ==> es.drop_last()[a].0@ != es.drop_last()[b].0@)
                by {
                assert(forall|a: int, b: int| 0 <= a < b < es.len() - 1 ==> es[a].0@ != es[b].0@);
            }
        }
        lemma_map_of_index(es.drop_last(), i);
        assert(es[i].0@ != es.last().0@);
        assert(es.drop_last()[i] == es[i]);
    }
}

pub proof fn lemma_wf_drop_last(es: Seq<(String, Value)>)
    requires
        wf_entries(es),
        es.len() > 0,
    ensures
        wf_entries(es.drop_last()),
{
    assert forall|a: int, b: int| 0 <= a < b < es.drop_last().len() implies es.drop_last()[a].0@
        != es.drop_last()[b].0@ by {
        assert(es[a].0@ != es[b].0@);
    }
}

pub proof fn lemma_map_of_push(es: Seq<(String, Value)>, k: String, v: Value)
    ensures
        map_of(es.push((k, v))) == map_of(es).insert(k@, v),
{
    assert(es.push((k, v)).drop_last() =~= es);
    assert(es.push((k, v)).last() == (k, v));
}

pub proof fn lemma_map_of_remove(es: Seq<(String, Value)>, i: int)
    requires
        wf_entries(es),
        0 <= i < es.len(),
    ensures
        map_of(es.remove(i)) =~= map_of(es).remove(es[i].0@),
        wf_entries(es.remove(i)),
    decreases es.len(),
{
    assert forall|a: int, b: int| 0 <= a < b < es.remove(i).len() implies es.remove(i)[a].0@
        != es.remove(i)[b].0@ by {
        let a0 = if a < i {
            a
        } else {
            a + 1
        };
        let b0 = if b < i {
            b
        } else {
            b + 1
        };
        assert(es.remove(i)[a] == es[a0]);
        assert(es.remove(i)[b] == es[b0]);
        assert(es[a0].0@ != es[b0].0@);
    }
    if i == es.len() - 1 {
        assert(es.remove(i) =~= es.drop_last());
        lemma_wf_drop_last(es);
        lemma_map_of_contains(es.drop_last(), es[i].0@);
        assert(!map_of(es.drop_last()).contains_key(es[i].0@)) by {
            if exists|j: int|
                0 <= j < es.drop_last().len() && es.drop_last()[j].0@ == es[i].0@ {
                let j = choose|j: int|
                    0 <= j < es.drop_last().len() && es.drop_last()[j].0@ == es[i].0@;
                assert(es[j].0@ == es[i].0@);
            }
        }
        assert(map_of(es.drop_last()) =~= map_of(es).remove(es[i].0@));
    } else {
        lemma_wf_drop_last(es);
        lemma_map_of_remove(es.drop_last(), i);
        assert(es.remove(i).drop_last() =~= es.drop_last().remove(i));
        assert(es.remove(i).last() == es.last());
        assert(es[i].0@ != es.last().0@);
        assert(es.drop_last()[i] == es[i]);
        assert(map_of(es.remove(i)) =~= map_of(es.drop_last().remove(i)).insert(
            es.last().0@,
            es.last().1,
        ));
        assert(map_of(es.remove(i)) =~= map_of(es).remove(es[i].0@));
    }
}

/// A move-only handle that signals the delivery outcome of one event back
/// to its producer. The token stands for the producer's one-shot channel;
/// the type carries no `Clone` or `Copy`, so a handle can only be moved,
/// never duplicated.
pub struct EventFinalizer {
    pub token: u64,
}

/// The terminal outcome a request's finalizers resolve to.
#[derive(PartialEq, Eq, Structural, Clone, Copy, Debug)]
pub enum FinalizerStatus {
    Delivered { byte_size: u64 },
    Rejected,
    Aborted,
}

/// One message on a finalizer's one-shot channel: the producer's token and
/// the outcome it learns about.
#[derive(PartialEq, Eq, Structural, Clone, Copy, Debug)]
pub struct FinalizerSignal {
    pub token: u64,
    pub status: FinalizerStatus,
}

/// Resolves all of a request's finalizer handles at once: every handle is
/// consumed and yields exactly one signal carrying the request's outcome,
/// in the order the handles were aggregated.
pub fn resolve_finalizers(finalizers: Vec<EventFinalizer>, status: FinalizerStatus) -> (r: Vec<
    FinalizerSignal,
>)
    ensures
        r@.len() == finalizers@.len(),
        forall|i: int|
            0 <= i < r@.len() ==> (#[trigger] r@[i]).token == finalizers@[i].token && r@[i].status
                == status,
{
    let mut fs = finalizers;
    let ghost all = fs@;
    let mut out: Vec<FinalizerSignal> = Vec::new();
    let ghost mut j: int = 0;
    while fs.len() > 0
        invariant
            0 <= j <= all.len(),
            fs@ =~= all.skip(j),
            out@.len() == j,
            forall|i: int|
                0 <= i < j ==> (#[trigger] out@[i]).token == all[i].token && out@[i].status
                    == status,
        decreases fs@.len(),
    {
        proof {
            assert(all.skip(j)[0] == all[j]);
        }
        let f = fs.remove(0);
        out.push(FinalizerSignal { token: f.token, status });
        proof {
            assert(fs@ =~= all.skip(j + 1));
            j = j + 1;
        }
    }
    out
}

/// An ordered log event: field order is insertion order, keys are unique,
/// and the event carries the finalizer handles of its producer.
pub struct LogEvent {
    pub fields: Vec<(String, Value)>,
    pub finalizers: Vec<EventFinalizer>,
}

impl LogEvent {
    pub open spec fn wf(&self) -> bool {
        wf_entries(self.fields@)
    }

    pub open spec fn view(&self) -> Map<Seq<char>, Value> {
        map_of(self.fields@)
    }

    pub fn new() -> (r: LogEvent)
        ensures
            r.wf(),
            r.view() == Map::<Seq<char>, Value>::empty(),
            r.fields@.len() == 0,
            r.finalizers@.len() == 0,
    {
        LogEvent { fields: Vec::new(), finalizers: Vec::new() }
    }

    /// Moves the event's finalizer handles out, leaving none behind; the
    /// fields are untouched.
    pub fn take_finalizers(&mut self) -> (r: Vec<EventFinalizer>)
        ensures
            r@ == old(self).finalizers@,
            final(self).finalizers@.len() == 0,
            final(self).fields == old(self).fields,
    {
        let mut out: Vec<EventFinalizer> = Vec::new();
        out.append(&mut self.finalizers);
        proof {
            assert(out@ =~= old(self).finalizers@);
        }
        out
    }

    /// The position of a key, if present.
    fn find(&self, k: &str) -> (r: Option<usize>)
        ensures
            match r {
                Some(i) => i < self.fields@.len() && self.fields@[i as int].0@ == k@,
                None => forall|i: int| 0 <= i < self.fields@.len() ==> self.fields@[i].0@ != k@,
            },
    {
        let mut i: usize = 0;
        let n = self.fields.len();
        while i < n
            invariant
                i <= n,
                n == self.fields@.len(),
                forall|j: int| 0 <= j < i ==> self.fields@[j].0@ != k@,
            decreases n - i,
        {
            if str_eq(self.fields[i].0.as_str(), k) {
                return Some(i);
            }
            i += 1;
        }
        None
    }

    pub fn contains(&self, k: &str) -> (r: bool)
        requires
            self.wf(),
        ensures
            r == self.view().contains_key(k@),
    {
        proof {
            lemma_map_of_contains(self.fields@, k@);
        }
        match self.find(k) {
            Some(_) => true,
            None => false,
        }
    }

    /// Borrows the value of a field.
    pub fn get(&self, k: &str) -> (r: Option<&Value>)
        requires
            self.wf(),
        ensures
            match r {
                Some(v) => self.view().contains_key(k@) && *v == self.view()[k@],
                None => !self.view().contains_key(k@),
            },
    {
        proof {
            lemma_map_of_contains(self.fields@, k@);
        }
        match self.find(k) {
            Some(i) => {
                proof {
                    lemma_map_of_index(self.fields@, i as int);
                }
                Some(&self.fields[i].1)
            },
            None => None,
        }
    }

    /// Inserts a field, replacing any earlier field with the same key; a
    /// replaced key moves to the end of the field order.
    pub fn insert(&mut self, k: String, v: Value)
        requires
            old(self).wf(),
        ensures
            final(self).wf(),
            final(self).view() == old(self).view().insert(k@, v),
            final(self).finalizers == old(self).finalizers,
            !old(self).view().contains_key(k@) ==> final(self).fields@ == old(self).fields@.push(
                (k, v),
            ),
    {
        let ghost es0 = self.fields@;
        match self.find(k.as_str()) {
            Some(i) => {
                proof {
                    lemma_map_of_index(es0, i as int);
                    lemma_map_of_remove(es0, i as int);
                }
                self.fields.remove(i);
            },
            None => {},
        }
        let ghost es1 = self.fields@;
        proof {
            lemma_map_of_contains(es1, k@);
            lemma_map_of_push(es1, k, v);
        }
        self.fields.push((k, v));
        proof {
            assert forall|a: int, b: int| 0 <= a < b < self.fields@.len() implies self.fields@[a].0@
                != self.fields@[b].0@ by {
                if b == self.fields@.len() - 1 {
                    assert(self.fields@[a] == es1[a]);
                    if es1[a].0@ == k@ {
                        assert(map_of(es1).contains_key(k@));
                    }
                } else {
                    assert(self.fields@[a] == es1[a]);
                    assert(self.fields@[b] == es1[b]);
                }
            }
            assert(self.view() =~= old(self).view().insert(k@, v));
            assert(!old(self).view().contains_key(k@) ==> self.fields@ =~= es0.push((k, v)));
        }
    }

    /// Removes a field and returns its value.
    pub fn remove(&mut self, k: &str) -> (r: Option<Value>)
        requires
            old(self).wf(),
        ensures
            final(self).wf(),
            final(self).view() == old(self).view().remove(k@),
            final(self).finalizers == old(self).finalizers,
            r == if old(self).view().contains_key(k@) {
                Some(old(self).view()[k@])
            } else {
                Option::<Value>::None
            },
    {
        proof {
            lemma_map_of_contains(self.fields@, k@);
        }
        match self.find(k) {
            Some(i) => {
                proof {
                    lemma_map_of_index(self.fields@, i as int);
                    lemma_map_of_remove(self.fields@, i as int);
                }
                let (_, v) = self.fields.remove(i);
                proof {
                    assert(self.view() =~= old(self).view().remove(k@));
                }
                Some(v)
            },
            None => {
                proof {
                    assert(self.view() =~= old(self).view().remove(k@));
                }
                None
            },
        }
    }

    /// Renames a field, as removing `from` and inserting the value under
    /// `to` does; absent `from` leaves the event unchanged.
    pub fn rename(&mut self, from: &str, to: String)
        requires
            old(self).wf(),
        ensures
            final(self).wf(),
            final(self).finalizers == old(self).finalizers,
            final(self).view() == if old(self).view().contains_key(from@) {
                old(self).view().remove(from@).insert(to@, old(self).view()[from@])
            } else {
                old(self).view()
            },
    {
        match self.remove(from) {
            Some(v) => {
                self.insert(to, v);
            },
            None => {},
        }
    }

    /// Inserts only when the key is absent.
    pub fn try_insert(&mut self, k: String, v: Value)
        requires
            old(self).wf(),
        ensures
            final(self).wf(),
            final(self).finalizers == old(self).finalizers,
            final(self).view() == if old(self).view().contains_key(k@) {
                old(self).view()
            } else {
                old(self).view().insert(k@, v)
            },
    {
        if !self.contains(k.as_str()) {
            self.insert(k, v);
        }
    }

    pub fn len(&self) -> (r: usize)
        ensures
            r == self.fields@.len(),
    {
        self.fields.len()
    }
}

/// Saturating addition used by the size estimator.
pub open spec fn sat_add(a: int, b: int) -> int {
    if a + b > u64::MAX {
        u64::MAX as int
    } else {
        a + b
    }
}

/// The stable size estimate of a value: a fixed overhead per node plus the
/// character count of strings, saturating at the u64 ceiling.
pub open spec fn spec_value_size(v: Value) -> int
    decreases v,
{
    match v {
        Value::Str(s) => sat_add(8, s@.len() as int),
        Value::Int(_) => 8,
        Value::Bool(_) => 1,
        Value::Ts(_) => 8,
        Value::Arr(vs) => sat_add(8, spec_values_size(vs@)),
        Value::Obj(es) => sat_add(8, spec_entries_size(es@)),
    }
}

pub open spec fn spec_values_size(vs: Seq<Value>) -> int
    decreases vs,
{
    if vs.len() == 0 {
        0
    } else {
        sat_add(spec_values_size(vs.drop_last()), spec_value_size(vs.last()))
    }
}

pub open spec fn spec_entries_size(es: Seq<(String, Value)>) -> int
    decreases es,
{
    if es.len() == 0 {
        0
    } else {
        sat_add(
            spec_entries_size(es.drop_last()),
            sat_add(es.last().0@.len() as int, spec_value_size(es.last().1)),
        )
    }
}

/// The size estimate of a whole event.
pub open spec fn spec_event_size(e: LogEvent) -> int {
    spec_entries_size(e.fields@)
}

pub fn value_size(v: &Value) -> (r: u64)
    ensures
        r as int == spec_value_size(*v),
    decreases *v,
{
    match v {
        Value::Str(s) => 8u64.saturating_add(s.unicode_len() as u64),
        Value::Int(_) => 8,
        Value::Bool(_) => 1,
        Value::Ts(_) => 8,
        Value::Arr(vs) => {
            let mut total: u64 = 0;
            let mut i: usize = 0;
            let n = vs.len();
            proof {
                assert(vs@.take(0) =~= Seq::<Value>::empty());
            }
            while i < n
                invariant
                    i <= n,
                    n == vs@.len(),
                    *v == Value::Arr(*vs),
                    total as int == spec_values_size(vs@.take(i as int)),
                decreases n - i,
            {
                proof {
                    broadcast use vstd::std_specs::vec::axiom_vec_index_decreases;
                    assert(v->Arr_0 == *vs);
                    assert(decreases_to!(*v => v->Arr_0));
                    assert(decreases_to!(*vs => vs[i as int]));
                }
                let s = value_size(&vs[i]);
                proof {
                    assert(vs@.take(i + 1).drop_last() =~= vs@.take(i as int));
                    assert(vs@.take(i + 1).last() == vs@[i as int]);
                }
                total = total.saturating_add(s);
                i += 1;
            }
            proof {
                assert(vs@.take(n as int) =~= vs@);
            }
            8u64.saturating_add(total)
        },
        Value::Obj(es) => {
            let total = entries_size(es);
            8u64.saturating_add(total)
        },
    }
}

pub fn entries_size(es: &Vec<(String, Value)>) -> (r: u64)
    ensures
        r as int == spec_entries_size(es@),
    decreases es,
{
    let mut total: u64 = 0;
    let mut i: usize = 0;
    let n = es.len();
    proof {
        assert(es@.take(0) =~= Seq::<(String, Value)>::empty());
    }
    while i < n
        invariant
            i <= n,
            n == es@.len(),
            total as int == spec_entries_size(es@.take(i as int)),
        decreases n - i,
    {
        let klen: u64 = es[i].0.as_str().unicode_len() as u64;
        proof {
            broadcast use vstd::std_specs::vec::axiom_vec_index_decreases;
            assert(decreases_to!(*es => es[i as int]));
        }
        let s = value_size(&es[i].1);
        proof {
            assert(es@.take(i + 1).drop_last() =~= es@.take(i as int));
            assert(es@.take(i + 1).last() == es@[i as int]);
        }
        total = total.saturating_add(klen.saturating_add(s));
        i += 1;
    }
    proof {
        assert(es@.take(n as int) =~= es@);
    }
    total
}

/// The size estimate of an event, saturating at the u64 ceiling.
pub fn event_size(e: &LogEvent) -> (r: u64)
    ensures
        r as int == spec_event_size(*e),
{
    entries_size(&e.fields)
}

} // verus!
