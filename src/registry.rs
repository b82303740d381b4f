use vstd::prelude::*;

use crate::record::{DelegateCommand, RecordModel};
use crate::text::has_prefix;

verus! {

/// One stored row: a record and whether it is still considered live.
pub type Row = (RecordModel, bool);

/// Which rows a query selects.
pub enum Filter {
    /// Live rows.
    Live,
    /// Live rows whose command line starts with the given text.
    LivePrefix(Seq<char>),
    /// Rows of the given group, live or not.
    Group(usize),
    /// Live rows of the given group.
    LiveGroup(usize),
    /// Live rows of the given pid.
    LivePid(usize),
}

pub open spec fn admits(f: Filter, row: Row) -> bool {
    match f {
        Filter::Live => row.1,
        Filter::LivePrefix(p) => row.1 && p.is_prefix_of(row.0.command),
        Filter::Group(g) => row.0.group == Some(g),
        Filter::LiveGroup(g) => row.1 && row.0.group == Some(g),
        Filter::LivePid(p) => row.1 && row.0.pid == p,
    }
}

/// The records of the rows that `f` admits, in the order of the rows.
pub open spec fn selected(rows: Seq<Row>, f: Filter) -> Seq<RecordModel>
    decreases rows.len(),
{
    if rows.len() == 0 {
        Seq::empty()
    } else if admits(f, rows.last()) {
        selected(rows.drop_last(), f).push(rows.last().0)
    } else {
        selected(rows.drop_last(), f)
    }
}

/// The rows after every row whose pid is in `pids` has been marked dead.
pub open spec fn retired(rows: Seq<Row>, pids: Set<usize>) -> Seq<Row> {
    Seq::new(rows.len(), |i: int| (rows[i].0, rows[i].1 && !pids.contains(rows[i].0.pid)))
}

/// Why a lookup by pid found no single record.
#[derive(Debug, Clone, Copy, PartialEq, Eq, Structural)]
pub enum RegistryError {
    /// No live record has the pid.
    NotFound,
    /// More than one live record has the pid: the store is inconsistent.
    Ambiguous,
}

/// A query of the registry, as the executable code takes it.
enum Query<'a> {
    Live,
    LivePrefix(&'a str),
    Group(usize),
    LiveGroup(usize),
    LivePid(usize),
}

impl<'a> Query<'a> {
    spec fn filter(&self) -> Filter {
        match *self {
            Query::Live => Filter::Live,
            Query::LivePrefix(p) => Filter::LivePrefix(p@),
            Query::Group(g) => Filter::Group(g),
            Query::LiveGroup(g) => Filter::LiveGroup(g),
            Query::LivePid(p) => Filter::LivePid(p),
        }
    }
}

/// The table of delegated commands: one row per invocation, in the order in
/// which they were recorded, each with its liveness flag.
pub struct Repository {
    records: Vec<DelegateCommand>,
    ongoing: Vec<bool>,
}

impl View for Repository {
    type V = Seq<Row>;

    closed spec fn view(&self) -> Seq<Row> {
        Seq::new(self.records@.len(), |i: int| (self.records@[i]@, self.ongoing@[i]))
    }
}

impl Repository {
    pub closed spec fn wf(&self) -> bool {
        self.records@.len() == self.ongoing@.len()
    }

    /// An empty table, as a store holds it when it is first opened.
    pub fn create() -> (r: Repository)
        ensures
            r.wf(),
            r@ == Seq::<Row>::empty(),
    {
        let r = Repository { records: Vec::new(), ongoing: Vec::new() };
        assert(r@ =~= Seq::<Row>::empty());
        r
    }

    /// Appends a row exactly as it was read from a store.
    pub fn restore(&mut self, cmd: DelegateCommand, ongoing: bool)
        requires
            old(self).wf(),
        ensures
            final(self).wf(),
            final(self)@ == old(self)@.push((cmd@, ongoing)),
    {
        let ghost c = cmd@;
        self.records.push(cmd);
        self.ongoing.push(ongoing);
        assert(self@ =~= old(self)@.push((c, ongoing)));
    }

    /// Records a newly started command as live; returns the index of its row.
    pub fn insert(&mut self, cmd: &DelegateCommand) -> (r: usize)
        requires
            old(self).wf(),
        ensures
            final(self).wf(),
            final(self)@ == old(self)@.push((cmd@, true)),
            r == old(self)@.len(),
    {
        let r = self.records.len();
        self.restore(cmd.duplicate(), true);
        r
    }

    fn admits_row(&self, i: usize, q: &Query) -> (r: bool)
        requires
            self.wf(),
            i < self@.len(),
        ensures
            r == admits(q.filter(), self@[i as int]),
    {
        let live = self.ongoing[i];
        match q {
            Query::Live => live,
            Query::LivePrefix(p) => live && has_prefix(self.records[i].command(), p),
            Query::Group(g) => {
                match self.records[i].group() {
                    Some(h) => h == *g,
                    None => false,
                }
            },
            Query::LiveGroup(g) => {
                live && match self.records[i].group() {
                    Some(h) => h == *g,
                    None => false,
                }
            },
            Query::LivePid(p) => live && self.records[i].pid() == *p,
        }
    }

    fn select(&self, q: &Query) -> (r: Vec<DelegateCommand>)
        requires
            self.wf(),
        ensures
            r@.map_values(|c: DelegateCommand| c@) == selected(self@, q.filter()),
    {
        let mut out: Vec<DelegateCommand> = Vec::new();
        let mut i: usize = 0;
        while i < self.records.len()
            invariant
                self.wf(),
                i <= self@.len(),
                out@.map_values(|c: DelegateCommand| c@) == selected(self@.take(i as int), q.filter()),
            decreases self@.len() - i,
        {
            assert(self@.take(i + 1).drop_last() =~= self@.take(i as int));
            if self.admits_row(i, q) {
                out.push(self.records[i].duplicate());
            }
            i = i + 1;
            assert(out@.map_values(|c: DelegateCommand| c@) =~= selected(self@.take(i as int), q.filter()));
        }
        assert(self@.take(i as int) =~= self@);
        out
    }

    /// The live records.
    pub fn list(&self) -> (r: Vec<DelegateCommand>)
        requires
            self.wf(),
        ensures
            r@.map_values(|c: DelegateCommand| c@) == selected(self@, Filter::Live),
    {
        self.select(&Query::Live)
    }

    /// The live records whose command line starts with `starts_with`, taken
    /// literally and with case.
    pub fn list_with_name(&self, starts_with: &str) -> (r: Vec<DelegateCommand>)
        requires
            self.wf(),
        ensures
            r@.map_values(|c: DelegateCommand| c@) == selected(self@, Filter::LivePrefix(starts_with@)),
    {
        self.select(&Query::LivePrefix(starts_with))
    }

    /// Every record of `group`, live or dead.
    pub fn list_with_group(&self, group: usize) -> (r: Vec<DelegateCommand>)
        requires
            self.wf(),
        ensures
            r@.map_values(|c: DelegateCommand| c@) == selected(self@, Filter::Group(group)),
    {
        self.select(&Query::Group(group))
    }

    /// The live records of `group`.
    pub fn list_live_with_group(&self, group: usize) -> (r: Vec<DelegateCommand>)
        requires
            self.wf(),
        ensures
            r@.map_values(|c: DelegateCommand| c@) == selected(self@, Filter::LiveGroup(group)),
    {
        self.select(&Query::LiveGroup(group))
    }

    /// The one live record of `pid`.
    pub fn get_by_pid(&self, pid: usize) -> (r: Result<DelegateCommand, RegistryError>)
        requires
            self.wf(),
        ensures
            ({
                let s = selected(self@, Filter::LivePid(pid));
                &&& (r == Err::<DelegateCommand, RegistryError>(RegistryError::NotFound) <==> s.len() == 0)
                &&& (r == Err::<DelegateCommand, RegistryError>(RegistryError::Ambiguous) <==> s.len() > 1)
                &&& (r is Ok <==> s.len() == 1)
                &&& (r matches Ok(c) ==> s == seq![c@])
            }),
    {
        let mut out = self.select(&Query::LivePid(pid));
        let ghost s = selected(self@, Filter::LivePid(pid));
        assert(out@.len() == s.len());
        if out.len() > 1 {
            Err(RegistryError::Ambiguous)
        } else if out.len() == 0 {
            Err(RegistryError::NotFound)
        } else {
            let c = out.pop().unwrap();
            assert(s[0] == c@);
            assert(s =~= seq![c@]);
            Ok(c)
        }
    }

    /// Marks dead every row of the pid of `pr`.
    pub fn set_delete(&mut self, pr: &DelegateCommand)
        requires
            old(self).wf(),
        ensures
            final(self).wf(),
            final(self)@ == retired(old(self)@, set![pr@.pid]),
    {
        self.retire_pid(pr.pid())
    }

    pub(crate) fn retire_pid(&mut self, pid: usize)
        requires
            old(self).wf(),
        ensures
            final(self).wf(),
            final(self)@ == retired(old(self)@, set![pid]),
    {
        let ghost start = self@;
        let ghost flags = self.ongoing@;
        let mut i: usize = 0;
        while i < self.records.len()
            invariant
                self.wf(),
                self.records@ == old(self).records@,
                start == old(self)@,
                flags == old(self).ongoing@,
                i <= start.len(),
                forall|j: int| 0 <= j < i ==> #[trigger] self.ongoing@[j] == (flags[j] && self.records@[j]@.pid != pid),
                forall|j: int| i <= j < start.len() ==> #[trigger] self.ongoing@[j] == flags[j],
            decreases start.len() - i,
        {
            if self.records[i].pid() == pid {
                self.ongoing.set(i, false);
            }
            i = i + 1;
        }
        assert(self@ =~= retired(start, set![pid]));
    }

    /// Destroys every record; the store that a later operation opens is empty.
    pub fn delete(self) -> (r: Repository)
        ensures
            r.wf(),
            r@ == Seq::<Row>::empty(),
    {
        Repository::create()
    }
}

} // verus!
