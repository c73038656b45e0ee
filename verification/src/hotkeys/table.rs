//! Tables of what a key or button is bound to, and of when a task last ran.

use vstd::prelude::*;

use crate::text;

verus! {

/// A number and the task that it is bound to.
#[derive(Debug)]
pub struct Bound {
    pub key: u64,
    pub task_id: String,
}

/// The tasks that numbers are bound to.
#[derive(Debug)]
pub struct TaskTable {
    entries: Vec<Bound>,
}

spec fn tasks_of(v: Seq<Bound>) -> Map<u64, Seq<char>>
    decreases v.len(),
{
    if v.len() == 0 {
        Map::empty()
    } else {
        tasks_of(v.drop_last()).insert(v.last().key, v.last().task_id@)
    }
}

spec fn apart(v: Seq<Bound>) -> bool {
    forall|i: int, j: int| 0 <= i < j < v.len() ==> #[trigger] v[i].key != #[trigger] v[j].key
}

proof fn lemma_tasks_of(v: Seq<Bound>, i: int)
    requires
        apart(v),
        0 <= i < v.len(),
    ensures
        tasks_of(v).contains_key(v[i].key),
        tasks_of(v)[v[i].key] == v[i].task_id@,
    decreases v.len(),
{
    if i < v.len() - 1 {
        lemma_tasks_of(v.drop_last(), i);
        assert(v.drop_last()[i] == v[i]);
    }
}

proof fn lemma_untold(v: Seq<Bound>, key: u64)
    requires
        forall|i: int| 0 <= i < v.len() ==> (#[trigger] v[i]).key != key,
    ensures
        !tasks_of(v).contains_key(key),
    decreases v.len(),
{
    if v.len() > 0 {
        lemma_untold(v.drop_last(), key);
        assert(v.last().key != key);
    }
}

proof fn lemma_told(v: Seq<Bound>, key: u64)
    requires
        tasks_of(v).contains_key(key),
    ensures
        exists|i: int| 0 <= i < v.len() && (#[trigger] v[i]).key == key,
    decreases v.len(),
{
    if v.len() > 0 {
        if v.last().key == key {
            assert(v[v.len() - 1].key == key);
        } else {
            lemma_told(v.drop_last(), key);
            let i = choose|i: int|
                0 <= i < v.len() - 1 && (#[trigger] v.drop_last()[i]).key == key;
            assert(v[i].key == key);
        }
    }
}

proof fn lemma_replaced(v: Seq<Bound>, i: int, b: Bound)
    requires
        apart(v),
        0 <= i < v.len(),
        b.key == v[i].key,
    ensures
        apart(v.update(i, b)),
        tasks_of(v.update(i, b)) == tasks_of(v).insert(b.key, b.task_id@),
    decreases v.len(),
{
    let r = v.update(i, b);
    assert forall|x: int, y: int| 0 <= x < y < r.len() implies #[trigger] r[x].key
        != #[trigger] r[y].key by {
        assert(v[x].key != v[y].key);
    }
    if i == v.len() - 1 {
        assert(r.drop_last() =~= v.drop_last());
        assert(tasks_of(r) =~= tasks_of(v).insert(b.key, b.task_id@));
    } else {
        assert(r.drop_last() =~= v.drop_last().update(i, b));
        lemma_replaced(v.drop_last(), i, b);
        assert(v[i].key != v.last().key);
        assert(tasks_of(r) =~= tasks_of(v).insert(b.key, b.task_id@));
    }
}

impl View for TaskTable {
    type V = Map<u64, Seq<char>>;

    closed spec fn view(&self) -> Map<u64, Seq<char>> {
        tasks_of(self.entries@)
    }
}

impl TaskTable {
    #[verifier::type_invariant]
    spec fn wf(&self) -> bool {
        apart(self.entries@)
    }

    pub fn new() -> (r: Self)
        ensures
            r@ == Map::<u64, Seq<char>>::empty(),
    {
        TaskTable { entries: Vec::new() }
    }

    /// Where the number stands in the table.
    fn place(&self, key: u64) -> (r: Option<usize>)
        ensures
            match r {
                Some(i) => i < self.entries@.len() && self.entries@[i as int].key == key,
                None => forall|i: int|
                    0 <= i < self.entries@.len() ==> (#[trigger] self.entries@[i]).key != key,
            },
    {
        for i in 0..self.entries.len()
            invariant
                forall|k: int| 0 <= k < i ==> (#[trigger] self.entries@[k]).key != key,
        {
            if self.entries[i].key == key {
                return Some(i);
            }
        }
        None
    }

    /// Binds the number to the task, in place of what it was bound to.
    pub fn insert(&mut self, key: u64, task_id: String)
        ensures
            final(self)@ == old(self)@.insert(key, task_id@),
    {
        proof {
            use_type_invariant(&*self);
        }
        let at = self.place(key);
        let mut entries: Vec<Bound> = Vec::new();
        std::mem::swap(&mut entries, &mut self.entries);
        let ghost was = entries@;
        let ghost bound = Bound { key, task_id };
        match at {
            Some(i) => {
                proof {
                    lemma_replaced(was, i as int, bound);
                }
                entries.set(i, Bound { key, task_id });
            },
            None => {
                entries.push(Bound { key, task_id });
                proof {
                    assert(entries@.drop_last() =~= was);
                    assert forall|x: int, y: int| 0 <= x < y < entries@.len() implies #[trigger]
                    entries@[x].key != #[trigger] entries@[y].key by {
                        assert(entries@[x] == was[x]);
                        if y < was.len() {
                            assert(entries@[y] == was[y]);
                        }
                    }
                }
            },
        }
        self.entries = entries;
    }

    /// The task that the number is bound to.
    pub fn get(&self, key: u64) -> (r: Option<String>)
        ensures
            text::opt_owned(r) == (if self@.contains_key(key) {
                Some(self@[key])
            } else {
                None
            }),
    {
        proof {
            use_type_invariant(self);
        }
        match self.place(key) {
            Some(i) => {
                proof {
                    lemma_tasks_of(self.entries@, i as int);
                }
                Some(self.entries[i].task_id.clone())
            },
            None => {
                proof {
                    lemma_untold(self.entries@, key);
                }
                None
            },
        }
    }

    /// What the table holds: every number that is bound, once, with its task.
    pub fn bound(&self) -> (r: Vec<Bound>)
        ensures
            forall|i: int|
                0 <= i < r@.len() ==> self@.contains_key((#[trigger] r@[i]).key)
                    && self@[r@[i].key] == r@[i].task_id@,
            forall|i: int, j: int|
                0 <= i < j < r@.len() ==> #[trigger] r@[i].key != #[trigger] r@[j].key,
            forall|k: u64| #[trigger]
                self@.contains_key(k) ==> exists|i: int|
                    0 <= i < r@.len() && (#[trigger] r@[i]).key == k,
    {
        proof {
            use_type_invariant(self);
        }
        let mut r: Vec<Bound> = Vec::new();
        for i in 0..self.entries.len()
            invariant
                r@.len() == i,
                forall|k: int|
                    0 <= k < i ==> (#[trigger] r@[k]).key == self.entries@[k].key && r@[k].task_id@
                        == self.entries@[k].task_id@,
        {
            r.push(Bound { key: self.entries[i].key, task_id: self.entries[i].task_id.clone() });
        }
        proof {
            let v = self.entries@;
            assert forall|i: int| 0 <= i < r@.len() implies self@.contains_key(
                (#[trigger] r@[i]).key,
            ) && self@[r@[i].key] == r@[i].task_id@ by {
                lemma_tasks_of(v, i);
            }
            assert forall|i: int, j: int| 0 <= i < j < r@.len() implies #[trigger] r@[i].key
                != #[trigger] r@[j].key by {
                assert(v[i].key != v[j].key);
            }
            assert forall|k: u64| #[trigger] self@.contains_key(k) implies exists|i: int|
                0 <= i < r@.len() && (#[trigger] r@[i]).key == k by {
                lemma_told(v, k);
                let i = choose|i: int| 0 <= i < v.len() && (#[trigger] v[i]).key == k;
                assert(r@[i].key == k);
            }
        }
        r
    }
}

// ---- when a task last ran --------------------------------------------------------------------

/// A task and when it last ran.
#[derive(Debug)]
struct Run {
    task_id: String,
    at: u64,
}

/// When each task last ran, in nanoseconds of a clock that does not go back.
#[derive(Debug)]
pub struct FireLog {
    runs: Vec<Run>,
}

spec fn log_of(v: Seq<Run>) -> Map<Seq<char>, u64>
    decreases v.len(),
{
    if v.len() == 0 {
        Map::empty()
    } else {
        log_of(v.drop_last()).insert(v.last().task_id@, v.last().at)
    }
}

spec fn last_of(v: Seq<Run>, task: Seq<char>) -> int
    decreases v.len(),
{
    if v.len() == 0 {
        -1
    } else if v.last().task_id@ == task {
        v.len() - 1
    } else {
        last_of(v.drop_last(), task)
    }
}

proof fn lemma_last_of(v: Seq<Run>, task: Seq<char>)
    ensures
        -1 <= last_of(v, task) < v.len(),
        last_of(v, task) == -1 <==> !log_of(v).contains_key(task),
        last_of(v, task) >= 0 ==> log_of(v)[task] == v[last_of(v, task)].at,
    decreases v.len(),
{
    if v.len() > 0 && v.last().task_id@ != task {
        lemma_last_of(v.drop_last(), task);
    }
}

proof fn lemma_noted_anew(v: Seq<Run>, k: int, now: u64)
    requires
        0 <= k < v.len(),
    ensures
        log_of(v.remove(k)).insert(v[k].task_id@, now) == log_of(v).insert(v[k].task_id@, now),
    decreases v.len(),
{
    let task = v[k].task_id@;
    let r = v.remove(k);
    if k == v.len() - 1 {
        assert(r =~= v.drop_last());
    } else {
        lemma_noted_anew(v.drop_last(), k, now);
        assert(r.drop_last() =~= v.drop_last().remove(k));
        assert(r.last() == v.last());
        let a = log_of(r.drop_last());
        let b = log_of(v.drop_last());
        assert(v.drop_last()[k] == v[k]);
        assert(a.insert(task, now) == b.insert(task, now));
        assert forall|t: Seq<char>| t != task implies #[trigger] a.contains_key(t)
            == b.contains_key(t) && (a.contains_key(t) ==> a[t] == b[t]) by {
            assert(a.insert(task, now).contains_key(t) == a.contains_key(t));
            assert(b.insert(task, now).contains_key(t) == b.contains_key(t));
            assert(a.insert(task, now)[t] == b.insert(task, now)[t]);
        }
    }
    assert(log_of(r).insert(task, now) =~= log_of(v).insert(task, now));
}

/// Two presses that far apart are two presses and not one that the device told
/// twice: more than 250 milliseconds.
pub open spec fn far_apart(was: u64, now: u64) -> bool {
    now > was && (now - was) / 1_000_000 > 250
}

impl View for FireLog {
    type V = Map<Seq<char>, u64>;

    closed spec fn view(&self) -> Map<Seq<char>, u64> {
        log_of(self.runs@)
    }
}

impl FireLog {
    pub fn new() -> (r: Self)
        ensures
            r@ == Map::<Seq<char>, u64>::empty(),
    {
        FireLog { runs: Vec::new() }
    }

    /// Whether the task may run now. One that may is noted.
    pub fn allow(&mut self, task_id: &str, now: u64) -> (r: bool)
        ensures
            r == (!old(self)@.contains_key(task_id@) || far_apart(old(self)@[task_id@], now)),
            final(self)@ == (if r {
                old(self)@.insert(task_id@, now)
            } else {
                old(self)@
            }),
    {
        let n: usize = self.runs.len();
        let mut i: usize = n;
        assert(self.runs@.take(n as int) =~= self.runs@);
        proof {
            lemma_last_of(self.runs@, task_id@);
        }
        while i > 0
            invariant
                n == self.runs@.len(),
                i <= n,
                *self == *old(self),
                last_of(self.runs@, task_id@) == last_of(self.runs@.take(i as int), task_id@),
                last_of(self.runs@, task_id@) == -1 <==> !self@.contains_key(task_id@),
                last_of(self.runs@, task_id@) >= 0 ==> self@[task_id@]
                    == self.runs@[last_of(self.runs@, task_id@)].at,
            decreases i,
        {
            assert(self.runs@.take(i as int).drop_last() =~= self.runs@.take(i - 1));
            if text::same(self.runs[i - 1].task_id.as_str(), task_id) {
                let was: u64 = self.runs[i - 1].at;
                if !(now > was && (now - was) / 1_000_000 > 250) {
                    return false;
                }
                proof {
                    lemma_noted_anew(old(self).runs@, i - 1, now);
                }
                self.runs.remove(i - 1);
                self.runs.push(Run { task_id: task_id.to_owned(), at: now });
                assert(self.runs@.drop_last() =~= old(self).runs@.remove(i - 1));
                return true;
            }
            i = i - 1;
        }
        self.runs.push(Run { task_id: task_id.to_owned(), at: now });
        assert(self.runs@.drop_last() =~= old(self).runs@);
        true
    }
}

/// A task runs again only more than a quarter of a second after it last ran, and
/// never by a clock that stands still or goes back.
pub proof fn lemma_presses_are_told_apart(was: u64, now: u64)
    ensures
        far_apart(was, now) <==> now >= was + 251_000_000,
{
}

} // verus!
