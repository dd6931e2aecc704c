//! What the supervisor knows of each program: what it is meant to do and what
//! it was last seen doing.
use vstd::prelude::*;

use crate::config::{Config, ProgramConfig};
use crate::names::{NameOrder, compare_names, name_less, lemma_name_less_irreflexive, lemma_name_less_transitive};

verus! {

/// What the operator wants a program to do.
#[derive(Debug, Clone, Copy, PartialEq, Eq, Structural)]
pub enum Intent {
    Run,
    Stop,
}

/// What a program was last seen doing.
#[derive(Debug, Clone, PartialEq)]
pub enum Status {
    Stopped,
    /// Running under this process id.
    Running(u32),
    /// Exited with this code.
    Exited(i32),
    /// Could not be started, for this reason.
    Failed(String),
}

/// The mathematical value of a [`Status`].
pub enum StatusView {
    Stopped,
    Running(u32),
    Exited(i32),
    Failed(Seq<char>),
}

impl View for Status {
    type V = StatusView;

    open spec fn view(&self) -> StatusView {
        match self {
            Status::Stopped => StatusView::Stopped,
            Status::Running(pid) => StatusView::Running(*pid),
            Status::Exited(code) => StatusView::Exited(*code),
            Status::Failed(reason) => StatusView::Failed(reason@),
        }
    }
}

/// The intent and status of one program.
#[derive(Debug, Clone)]
pub struct ProcessState {
    pub intent: Intent,
    pub status: Status,
}

/// The mathematical value of a [`ProcessState`].
pub struct ProcessView {
    pub intent: Intent,
    pub status: StatusView,
}

impl View for ProcessState {
    type V = ProcessView;

    open spec fn view(&self) -> ProcessView {
        ProcessView { intent: self.intent, status: self.status@ }
    }
}

/// The entries are in strictly increasing order of name (so no name occurs
/// twice).
pub open spec fn names_sorted<V>(es: Seq<(Seq<char>, V)>) -> bool {
    forall|i: int, j: int| 0 <= i < j < es.len() ==> name_less(#[trigger] es[i].0, #[trigger] es[j].0)
}

/// Some entry carries the name `k`.
pub open spec fn has_name<V>(es: Seq<(Seq<char>, V)>, k: Seq<char>) -> bool {
    exists|i: int| 0 <= i < es.len() && #[trigger] es[i].0 == k
}

/// The map from each name to the value of the entry that carries it.
pub open spec fn entries_map<V>(es: Seq<(Seq<char>, V)>) -> Map<Seq<char>, V> {
    Map::new(
        |k: Seq<char>| has_name(es, k),
        |k: Seq<char>| es[choose|i: int| 0 <= i < es.len() && #[trigger] es[i].0 == k].1,
    )
}

/// In sorted entries, entry `i` is the one the map gives for its name.
pub proof fn lemma_entries_map_at<V>(es: Seq<(Seq<char>, V)>, i: int)
    requires
        names_sorted(es),
        0 <= i < es.len(),
    ensures
        entries_map(es).contains_key(es[i].0),
        entries_map(es)[es[i].0] == es[i].1,
{
    assert(has_name(es, es[i].0));
    let j = choose|j: int| 0 <= j < es.len() && #[trigger] es[j].0 == es[i].0;
    if j != i {
        lemma_name_less_irreflexive(es[i].0);
        if j < i {
            assert(name_less(es[j].0, es[i].0));
        } else {
            assert(name_less(es[i].0, es[j].0));
        }
    }
}

/// Inserting an entry into sorted entries inserts it into the map.
pub proof fn lemma_entries_map_insert<V>(es: Seq<(Seq<char>, V)>, p: int, k: Seq<char>, v: V)
    requires
        0 <= p <= es.len(),
        names_sorted(es.insert(p, (k, v))),
    ensures
        names_sorted(es),
        entries_map(es.insert(p, (k, v))) == entries_map(es).insert(k, v),
{
    let ns = es.insert(p, (k, v));
    assert forall|i: int, j: int| 0 <= i < j < es.len() implies name_less(
        #[trigger] es[i].0,
        #[trigger] es[j].0,
    ) by {
        let i2 = if i < p { i } else { i + 1 };
        let j2 = if j < p { j } else { j + 1 };
        assert(ns[i2] == es[i]);
        assert(ns[j2] == es[j]);
    }
    let m1 = entries_map(ns);
    let m2 = entries_map(es).insert(k, v);
    assert forall|q: Seq<char>| #[trigger] m1.contains_key(q) <==> m2.contains_key(q) by {
        if has_name(ns, q) {
            let i = choose|i: int| 0 <= i < ns.len() && #[trigger] ns[i].0 == q;
            if i < p {
                assert(es[i].0 == q);
            } else if i > p {
                assert(es[i - 1].0 == q);
            }
        }
        if has_name(es, q) {
            let i = choose|i: int| 0 <= i < es.len() && #[trigger] es[i].0 == q;
            let i2 = if i < p { i } else { i + 1 };
            assert(ns[i2].0 == q);
        }
        if q == k {
            assert(ns[p].0 == q);
        }
    }
    assert forall|q: Seq<char>| #[trigger] m1.contains_key(q) implies m1[q] == m2[q] by {
        if q == k {
            lemma_entries_map_at(ns, p);
        } else {
            let i = choose|i: int| 0 <= i < es.len() && #[trigger] es[i].0 == q;
            let i2 = if i < p { i } else { i + 1 };
            assert(ns[i2] == es[i]);
            lemma_entries_map_at(ns, i2);
            lemma_entries_map_at(es, i);
        }
    }
    assert(m1 =~= m2);
}

/// Replacing the value of an entry of sorted entries updates the map.
pub proof fn lemma_entries_map_update<V>(es: Seq<(Seq<char>, V)>, p: int, v: V)
    requires
        0 <= p < es.len(),
        names_sorted(es),
    ensures
        names_sorted(es.update(p, (es[p].0, v))),
        entries_map(es.update(p, (es[p].0, v))) == entries_map(es).insert(es[p].0, v),
{
    let ns = es.update(p, (es[p].0, v));
    assert forall|i: int, j: int| 0 <= i < j < ns.len() implies name_less(
        #[trigger] ns[i].0,
        #[trigger] ns[j].0,
    ) by {
        assert(ns[i].0 == es[i].0);
        assert(ns[j].0 == es[j].0);
    }
    let m1 = entries_map(ns);
    let m2 = entries_map(es).insert(es[p].0, v);
    assert forall|q: Seq<char>| #[trigger] m1.contains_key(q) <==> m2.contains_key(q) by {
        if has_name(ns, q) {
            let i = choose|i: int| 0 <= i < ns.len() && #[trigger] ns[i].0 == q;
            assert(es[i].0 == q);
        }
        if has_name(es, q) {
            let i = choose|i: int| 0 <= i < es.len() && #[trigger] es[i].0 == q;
            assert(ns[i].0 == q);
        }
        assert(ns[p].0 == es[p].0);
    }
    assert forall|q: Seq<char>| #[trigger] m1.contains_key(q) implies m1[q] == m2[q] by {
        if q == es[p].0 {
            lemma_entries_map_at(ns, p);
        } else {
            let i = choose|i: int| 0 <= i < es.len() && #[trigger] es[i].0 == q;
            assert(ns[i] == es[i]);
            lemma_entries_map_at(ns, i);
            lemma_entries_map_at(es, i);
        }
    }
    assert(m1 =~= m2);
}

/// `m` with the intent of `name` set to `intent`, where `name` is present.
pub open spec fn with_intent(
    m: Map<Seq<char>, ProcessView>,
    name: Seq<char>,
    intent: Intent,
) -> Map<Seq<char>, ProcessView> {
    if m.contains_key(name) {
        m.insert(name, ProcessView { intent: intent, status: m[name].status })
    } else {
        m
    }
}

/// `m` with the status of `name` set to `status`, where `name` is present.
pub open spec fn with_status(
    m: Map<Seq<char>, ProcessView>,
    name: Seq<char>,
    status: StatusView,
) -> Map<Seq<char>, ProcessView> {
    if m.contains_key(name) {
        m.insert(name, ProcessView { intent: m[name].intent, status: status })
    } else {
        m
    }
}

/// The intent recorded for `name`, and `Stop` for a name that is not known.
pub open spec fn intent_or_stop(m: Map<Seq<char>, ProcessView>, name: Seq<char>) -> Intent {
    if m.contains_key(name) {
        m[name].intent
    } else {
        Intent::Stop
    }
}

/// The intent a program starts with: `Run` where it is to start at once.
pub open spec fn initial_intent(autostart: bool) -> Intent {
    if autostart {
        Intent::Run
    } else {
        Intent::Stop
    }
}

/// The table that registering the configured programs `progs` in turn gives:
/// each stopped, with its initial intent (a later entry of the same name
/// replaces an earlier one).
pub open spec fn registered(progs: Seq<(String, ProgramConfig)>) -> Map<Seq<char>, ProcessView>
    decreases progs.len(),
{
    if progs.len() == 0 {
        Map::empty()
    } else {
        registered(progs.drop_last()).insert(
            progs.last().0@,
            ProcessView { intent: initial_intent(progs.last().1.autostart), status: StatusView::Stopped },
        )
    }
}

/// The process ids of the running programs among `es`, in the order of `es`.
pub open spec fn running_pids_of(es: Seq<(Seq<char>, ProcessView)>) -> Seq<u32>
    decreases es.len(),
{
    if es.len() == 0 {
        Seq::empty()
    } else {
        let rest = running_pids_of(es.drop_last());
        match es.last().1.status {
            StatusView::Running(pid) => rest.push(pid),
            _ => rest,
        }
    }
}

/// The supervisor's table of programs, by name.
pub struct AppState {
    processes: Vec<(String, ProcessState)>,
}

impl AppState {
    /// The programs in order of name, each with its state.
    pub closed spec fn entries(self) -> Seq<(Seq<char>, ProcessView)> {
        self.processes@.map_values(|e: (String, ProcessState)| (e.0@, e.1@))
    }

    #[verifier::type_invariant]
    spec fn sorted_by_name(self) -> bool {
        names_sorted(self.entries())
    }
}

impl View for AppState {
    type V = Map<Seq<char>, ProcessView>;

    open spec fn view(&self) -> Map<Seq<char>, ProcessView> {
        entries_map(self.entries())
    }
}

impl AppState {
    /// An empty table.
    pub fn new() -> (s: Self)
        ensures
            s@ == Map::<Seq<char>, ProcessView>::empty(),
            s.entries().len() == 0,
    {
        let s = AppState { processes: Vec::new() };
        assert(s.entries() =~= Seq::<(Seq<char>, ProcessView)>::empty());
        assert(s@ =~= Map::<Seq<char>, ProcessView>::empty());
        s
    }

    /// The table of the configured programs, each stopped, with intent `Run`
    /// where it starts at once and `Stop` otherwise.
    pub fn from_config(config: &Config) -> (s: Self)
        ensures
            s@ == registered(config.program@),
    {
        let mut s = AppState::new();
        let n = config.program.len();
        let mut i: usize = 0;
        while i < n
            invariant
                n == config.program@.len(),
                i <= n,
                s@ == registered(config.program@.take(i as int)),
            decreases n - i,
        {
            let entry = &config.program[i];
            let intent = if entry.1.autostart {
                Intent::Run
            } else {
                Intent::Stop
            };
            s.insert(entry.0.clone(), ProcessState { intent: intent, status: Status::Stopped });
            assert(config.program@.take(i + 1).drop_last() =~= config.program@.take(i as int));
            i = i + 1;
        }
        assert(config.program@.take(n as int) =~= config.program@);
        s
    }

    /// The number of programs; the entries are sorted by name.
    pub fn len(&self) -> (n: usize)
        ensures
            n == self.entries().len(),
            names_sorted(self.entries()),
    {
        proof {
            use_type_invariant(self);
        }
        self.processes.len()
    }

    /// The process ids of the programs recorded as running, in order of name:
    /// the processes to terminate when the supervisor shuts down.
    pub fn running_pids(&self) -> (pids: Vec<u32>)
        ensures
            pids@ == running_pids_of(self.entries()),
    {
        let ghost es = self.entries();
        let n = self.processes.len();
        let mut pids: Vec<u32> = Vec::new();
        let mut i: usize = 0;
        while i < n
            invariant
                n == es.len(),
                es == self.entries(),
                i <= n,
                pids@ == running_pids_of(es.take(i as int)),
            decreases n - i,
        {
            assert(es.take(i + 1).drop_last() =~= es.take(i as int));
            assert(es[i as int].1 == self.processes@[i as int].1@);
            match self.processes[i].1.status {
                Status::Running(pid) => {
                    pids.push(pid);
                },
                _ => {},
            }
            i = i + 1;
        }
        assert(es.take(n as int) =~= es);
        pids
    }

    /// The entry at position `i` in order of name.
    pub fn entry_at(&self, i: usize) -> (res: (&String, &ProcessState))
        requires
            i < self.entries().len(),
        ensures
            (res.0@, res.1@) == self.entries()[i as int],
    {
        let e = &self.processes[i];
        (&e.0, &e.1)
    }

    /// Where `name` stands in the table, or where it would be inserted.
    fn find(&self, name: &str) -> (res: Result<usize, usize>)
        ensures
            match res {
                Ok(i) => i < self.entries().len() && self.entries()[i as int].0 == name@,
                Err(p) => {
                    &&& p <= self.entries().len()
                    &&& !self@.contains_key(name@)
                    &&& forall|j: int| 0 <= j < p ==> name_less(#[trigger] self.entries()[j].0, name@)
                    &&& forall|j: int|
                        p <= j < self.entries().len() ==> name_less(name@, #[trigger] self.entries()[j].0)
                },
            },
    {
        proof {
            use_type_invariant(self);
        }
        let ghost es = self.entries();
        let n = self.processes.len();
        let mut i: usize = 0;
        while i < n
            invariant
                n == self.processes@.len(),
                es == self.entries(),
                es.len() == n,
                names_sorted(es),
                i <= n,
                forall|j: int| 0 <= j < i ==> name_less(#[trigger] es[j].0, name@),
            decreases n - i,
        {
            assert(es[i as int].0 == self.processes@[i as int].0@);
            match compare_names(self.processes[i].0.as_str(), name) {
                NameOrder::Less => {
                    i = i + 1;
                },
                NameOrder::Equal => {
                    return Ok(i);
                },
                NameOrder::Greater => {
                    assert forall|j: int| i <= j < es.len() implies name_less(
                        name@,
                        #[trigger] es[j].0,
                    ) by {
                        if j > i {
                            lemma_name_less_transitive(name@, es[i as int].0, es[j].0);
                        }
                    }
                    proof {
                        self.lemma_absent(name@, i as int);
                    }
                    return Err(i);
                },
            }
        }
        proof {
            self.lemma_absent(name@, i as int);
        }
        Err(i)
    }

    proof fn lemma_absent(&self, name: Seq<char>, p: int)
        requires
            0 <= p <= self.entries().len(),
            forall|j: int| 0 <= j < p ==> name_less(#[trigger] self.entries()[j].0, name),
            forall|j: int| p <= j < self.entries().len() ==> name_less(name, #[trigger] self.entries()[j].0),
        ensures
            !self@.contains_key(name),
    {
        let es = self.entries();
        if has_name(es, name) {
            let j = choose|j: int| 0 <= j < es.len() && #[trigger] es[j].0 == name;
            lemma_name_less_irreflexive(name);
            if j < p {
                assert(name_less(es[j].0, name));
            } else {
                assert(name_less(name, es[j].0));
            }
        }
    }

    /// The state of `name`, if it is known.
    pub fn get(&self, name: &str) -> (res: Option<&ProcessState>)
        ensures
            res is Some <==> self@.contains_key(name@),
            res matches Some(ps) ==> ps@ == self@[name@],
    {
        proof {
            use_type_invariant(self);
        }
        match self.find(name) {
            Ok(i) => {
                proof {
                    lemma_entries_map_at(self.entries(), i as int);
                }
                Some(&self.processes[i].1)
            },
            Err(_) => None,
        }
    }

    /// The intent of `name`; `Stop` for a name that is not known.
    pub fn intent_of(&self, name: &str) -> (res: Intent)
        ensures
            res == intent_or_stop(self@, name@),
    {
        match self.get(name) {
            Some(ps) => ps.intent,
            None => Intent::Stop,
        }
    }

    /// Records `state` for `name`, replacing what was recorded for it before.
    pub fn insert(&mut self, name: String, state: ProcessState)
        ensures
            final(self)@ == old(self)@.insert(name@, state@),
    {
        proof {
            use_type_invariant(&*self);
        }
        let ghost es = self.entries();
        let pos = self.find(name.as_str());
        let mut v: Vec<(String, ProcessState)> = Vec::new();
        std::mem::swap(&mut v, &mut self.processes);
        let ghost k = name@;
        let ghost pv = state@;
        match pos {
            Ok(i) => {
                v.set(i, (name, state));
                proof {
                    lemma_entries_map_update(es, i as int, pv);
                    assert(v@.map_values(|e: (String, ProcessState)| (e.0@, e.1@)) =~= es.update(
                        i as int,
                        (es[i as int].0, pv),
                    ));
                }
            },
            Err(p) => {
                v.insert(p, (name, state));
                proof {
                    let ns = es.insert(p as int, (k, pv));
                    assert(v@.map_values(|e: (String, ProcessState)| (e.0@, e.1@)) =~= ns);
                    assert forall|i: int, j: int| 0 <= i < j < ns.len() implies name_less(
                        #[trigger] ns[i].0,
                        #[trigger] ns[j].0,
                    ) by {
                        if j < p {
                            assert(ns[i] == es[i] && ns[j] == es[j]);
                        } else if j == p {
                            assert(ns[i] == es[i]);
                        } else if i < p {
                            assert(ns[i] == es[i] && ns[j] == es[j - 1]);
                            lemma_name_less_transitive(es[i].0, k, es[j - 1].0);
                        } else if i == p {
                            assert(ns[j] == es[j - 1]);
                        } else {
                            assert(ns[i] == es[i - 1] && ns[j] == es[j - 1]);
                        }
                    }
                    lemma_entries_map_insert(es, p as int, k, pv);
                }
            },
        }
        self.processes = v;
    }

    /// Sets the intent of `name`; says whether `name` is known (nothing
    /// changes where it is not).
    pub fn set_intent(&mut self, name: &str, intent: Intent) -> (found: bool)
        ensures
            found == old(self)@.contains_key(name@),
            final(self)@ == with_intent(old(self)@, name@, intent),
    {
        proof {
            use_type_invariant(&*self);
        }
        let ghost es = self.entries();
        match self.find(name) {
            Ok(i) => {
                let mut v: Vec<(String, ProcessState)> = Vec::new();
                std::mem::swap(&mut v, &mut self.processes);
                let (n, ps) = v.remove(i);
                let ghost pv = ProcessView { intent: intent, status: ps.status@ };
                v.insert(i, (n, ProcessState { intent: intent, status: ps.status }));
                proof {
                    lemma_entries_map_at(es, i as int);
                    lemma_entries_map_update(es, i as int, pv);
                    assert(v@.map_values(|e: (String, ProcessState)| (e.0@, e.1@)) =~= es.update(
                        i as int,
                        (es[i as int].0, pv),
                    ));
                }
                self.processes = v;
                true
            },
            Err(_) => false,
        }
    }

    /// Sets the status of `name`; says whether `name` is known (nothing
    /// changes where it is not).
    pub fn set_status(&mut self, name: &str, status: Status) -> (found: bool)
        ensures
            found == old(self)@.contains_key(name@),
            final(self)@ == with_status(old(self)@, name@, status@),
    {
        proof {
            use_type_invariant(&*self);
        }
        let ghost es = self.entries();
        match self.find(name) {
            Ok(i) => {
                let mut v: Vec<(String, ProcessState)> = Vec::new();
                std::mem::swap(&mut v, &mut self.processes);
                let (n, ps) = v.remove(i);
                let ghost pv = ProcessView { intent: ps.intent, status: status@ };
                v.insert(i, (n, ProcessState { intent: ps.intent, status: status }));
                proof {
                    lemma_entries_map_at(es, i as int);
                    lemma_entries_map_update(es, i as int, pv);
                    assert(v@.map_values(|e: (String, ProcessState)| (e.0@, e.1@)) =~= es.update(
                        i as int,
                        (es[i as int].0, pv),
                    ));
                }
                self.processes = v;
                true
            },
            Err(_) => false,
        }
    }
}

} // verus!
