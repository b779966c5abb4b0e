use vstd::prelude::*;
use vstd::string::*;
use crate::text::{decimal_text, render_i32};

verus! {

/// One commit of a record's history.
#[derive(Debug)]
pub struct Commit {
    pub author_name: String,
    pub author_email: String,
    /// The instant written into the commit, in milliseconds since the epoch.
    pub time_millis: i64,
    pub message: String,
    /// Position of the parent in the history; `None` for the root.
    pub parent: Option<usize>,
}

pub struct CommitView {
    pub author_name: Seq<char>,
    pub author_email: Seq<char>,
    pub time_millis: i64,
    pub message: Seq<char>,
    pub parent: Option<usize>,
}

impl Commit {
    /// The commit's instant in whole seconds, as a store keeps it.
    pub fn time_seconds(&self) -> (r: i64)
        ensures
            r == seconds_of(self.time_millis as int),
    {
        seconds_of_millis(self.time_millis)
    }
}

impl View for Commit {
    type V = CommitView;

    open spec fn view(&self) -> CommitView {
        CommitView {
            author_name: self.author_name@,
            author_email: self.author_email@,
            time_millis: self.time_millis,
            message: self.message@,
            parent: self.parent,
        }
    }
}

/// The whole second since the epoch in which an instant lies that is given in
/// milliseconds; for instants before the epoch the second that begins at or
/// before them.
pub open spec fn seconds_of(millis: int) -> int {
    millis / 1000
}

/// The seconds to write into a stored commit for an instant in milliseconds.
pub fn seconds_of_millis(millis: i64) -> (r: i64)
    ensures
        r == seconds_of(millis as int),
{
    if millis >= 0 {
        millis / 1000
    } else {
        let below: u64 = (-(millis + 1)) as u64;
        let whole: u64 = below / 1000;
        -(whole as i64) - 1
    }
}

/// The instant in milliseconds at which a stored second begins, where it can
/// be written in 64 bits.
pub fn millis_of_seconds(seconds: i64) -> (r: Option<i64>)
    ensures
        r is Some <==> i64::MIN <= seconds * 1000 <= i64::MAX,
        r matches Some(m) ==> m == seconds * 1000 && seconds_of(m as int) == seconds,
{
    if seconds > 9_223_372_036_854_775 || seconds < -9_223_372_036_854_775 {
        None
    } else {
        Some(seconds * 1000)
    }
}

/// The root commit that a new history starts with, made at `now_millis`.
pub open spec fn root_commit(now_millis: i64) -> CommitView {
    CommitView {
        author_name: "osugit"@,
        author_email: "git@osu.technology"@,
        time_millis: now_millis,
        message: "Initial commit"@,
        parent: None,
    }
}

/// Whether `chain` is a linear history: it starts with a root, and every
/// later commit has the one before it as its parent.
pub open spec fn linear(chain: Seq<CommitView>) -> bool {
    &&& chain.len() >= 1
    &&& chain[0].parent is None
    &&& forall|i: int| 1 <= i < chain.len() ==> (#[trigger] chain[i]).parent == Some((i - 1) as usize)
}

/// Whether the commit at position `a` is reached from the one at `b` by
/// following parents (every commit reaches itself).
pub open spec fn is_ancestor(chain: Seq<CommitView>, a: int, b: int) -> bool
    decreases b,
{
    if b < 0 || b >= chain.len() {
        false
    } else if a == b {
        true
    } else {
        match chain[b].parent {
            Some(p) => p < b && is_ancestor(chain, a, p as int),
            None => false,
        }
    }
}

/// The history of one record: its commits, oldest first.
#[derive(Debug)]
pub struct RecordHistory {
    record_id: i32,
    commits: Vec<Commit>,
}

impl RecordHistory {
    pub closed spec fn id(&self) -> i32 {
        self.record_id
    }

    /// The commits, oldest first.
    pub closed spec fn chain(&self) -> Seq<CommitView> {
        Seq::new(self.commits@.len(), |i: int| self.commits@[i]@)
    }

    /// A history is never empty and always linear.
    pub open spec fn wf(&self) -> bool {
        &&& linear(self.chain())
        &&& self.chain().len() < usize::MAX
    }

    /// Takes commits read from a store as the history of `record_id`, if they
    /// form a linear history.
    pub fn from_commits(record_id: i32, commits: Vec<Commit>) -> (r: Option<RecordHistory>)
        ensures
            r is Some <==> linear(Seq::new(commits@.len(), |i: int| commits@[i]@)) && commits@.len()
                < usize::MAX,
            r matches Some(h) ==> h.wf() && h.id() == record_id && h.chain() == Seq::new(
                commits@.len(),
                |i: int| commits@[i]@,
            ),
    {
        let ghost chain = Seq::new(commits@.len(), |i: int| commits@[i]@);
        let n: usize = commits.len();
        if n == 0 || n == usize::MAX {
            return None;
        }
        if commits[0].parent.is_some() {
            return None;
        }
        let mut i: usize = 1;
        while i < n
            invariant
                1 <= i <= n,
                n == commits@.len(),
                chain == Seq::new(commits@.len(), |i: int| commits@[i]@),
                forall|j: int| 1 <= j < i ==> (#[trigger] chain[j]).parent == Some((j - 1) as usize),
            decreases n - i,
        {
            match commits[i].parent {
                Some(p) => {
                    if p != i - 1 {
                        assert(chain[i as int].parent != Some((i - 1) as usize));
                        return None;
                    }
                },
                None => {
                    assert(chain[i as int].parent != Some((i - 1) as usize));
                    return None;
                },
            }
            i = i + 1;
        }
        let h = RecordHistory { record_id, commits };
        assert(h.chain() == chain);
        Some(h)
    }

    pub fn record_id(&self) -> (r: i32)
        ensures
            r == self.id(),
    {
        self.record_id
    }

    /// Number of commits.
    pub fn len(&self) -> (r: usize)
        ensures
            r == self.chain().len(),
    {
        self.commits.len()
    }

    /// Position of the newest commit.
    pub fn head(&self) -> (r: usize)
        requires
            self.wf(),
        ensures
            r == self.chain().len() - 1,
    {
        self.commits.len() - 1
    }

    /// The commit at `position`, if there is one.
    pub fn get(&self, position: usize) -> (r: Option<&Commit>)
        ensures
            r is Some <==> position < self.chain().len(),
            r matches Some(c) ==> c@ == self.chain()[position as int],
    {
        if position < self.commits.len() {
            Some(&self.commits[position])
        } else {
            None
        }
    }

    /// Records a new commit as the only child of the head and returns its
    /// position. A commit is made whatever the earlier ones hold: a second one
    /// with the same author, instant and message is a commit of its own.
    pub fn commit(
        &mut self,
        author_name: &str,
        author_email: &str,
        time_millis: i64,
        message: &str,
    ) -> (r: usize)
        requires
            old(self).wf(),
            old(self).chain().len() + 1 < usize::MAX,
        ensures
            final(self).wf(),
            final(self).id() == old(self).id(),
            r == old(self).chain().len(),
            final(self).chain() == old(self).chain().push(
                (CommitView {
                    author_name: author_name@,
                    author_email: author_email@,
                    time_millis,
                    message: message@,
                    parent: Some((r - 1) as usize),
                }),
            ),
            is_ancestor(final(self).chain(), 0, r as int),
    {
        let head: usize = self.commits.len() - 1;
        let c = Commit {
            author_name: String::from_str(author_name),
            author_email: String::from_str(author_email),
            time_millis,
            message: String::from_str(message),
            parent: Some(head),
        };
        let ghost before = self.chain();
        let ghost cv = c@;
        self.commits.push(c);
        assert(self.chain() =~= before.push(cv));
        proof {
            assert forall|i: int| 1 <= i < self.chain().len() implies (#[trigger] self.chain()[i]).parent
                == Some((i - 1) as usize) by {
                if i < before.len() {
                    assert(self.chain()[i] == before[i]);
                }
            }
            assert(self.chain()[0] == before[0]);
            root_is_ancestor(self.chain(), head + 1);
        }
        head + 1
    }
}

/// The store of all histories: one directory per record under a root.
#[derive(Debug)]
pub struct GitHost {
    root: String,
}

impl GitHost {
    pub closed spec fn root_text(&self) -> Seq<char> {
        self.root@
    }

    pub fn init(path: &str) -> (r: GitHost)
        ensures
            r.root_text() == path@,
    {
        GitHost { root: String::from_str(path) }
    }

    pub fn root(&self) -> (r: &str)
        ensures
            r@ == self.root_text(),
    {
        self.root.as_str()
    }

    /// The name, under the root, of the directory that holds a record's
    /// history: the record's id in decimal.
    pub fn dir_name(&self, mapset_id: i32) -> (r: String)
        ensures
            r@ == decimal_text(mapset_id as int),
    {
        render_i32(mapset_id)
    }

    /// Opens the history of a record. `existing` is what the store holds for
    /// it. A record met for the first time gets a history of one root commit,
    /// made at `now_millis`; an existing history is handed back as it is.
    pub fn open(
        &self,
        mapset_id: i32,
        existing: Option<RecordHistory>,
        now_millis: i64,
    ) -> (r: RecordHistory)
        requires
            existing matches Some(h) ==> h.wf() && h.id() == mapset_id,
        ensures
            r.wf(),
            r.id() == mapset_id,
            existing matches Some(h) ==> r.chain() == h.chain(),
            existing is None ==> r.chain() == seq![root_commit(now_millis)],
    {
        match existing {
            Some(h) => h,
            None => {
                let c = Commit {
                    author_name: String::from_str("osugit"),
                    author_email: String::from_str("git@osu.technology"),
                    time_millis: now_millis,
                    message: String::from_str("Initial commit"),
                    parent: None,
                };
                let mut commits: Vec<Commit> = Vec::new();
                commits.push(c);
                let h = RecordHistory { record_id: mapset_id, commits };
                assert(h.chain() =~= seq![root_commit(now_millis)]);
                h
            },
        }
    }
}

/// In a linear history every commit has the root among its ancestors.
pub proof fn root_is_ancestor(chain: Seq<CommitView>, position: int)
    requires
        linear(chain),
        chain.len() <= usize::MAX,
        0 <= position < chain.len(),
    ensures
        is_ancestor(chain, 0, position),
    decreases position,
{
    if position > 0 {
        root_is_ancestor(chain, position - 1);
        assert(chain[position].parent == Some((position - 1) as usize));
    }
}

/// A history grows by a commit on its head and by nothing else: the commits
/// that were there stay as they were, the history stays linear, and the root
/// is an ancestor of the new head.
pub proof fn growth_keeps_the_root(chain: Seq<CommitView>, c: CommitView)
    requires
        linear(chain),
        chain.len() + 1 < usize::MAX,
        c.parent == Some((chain.len() - 1) as usize),
    ensures
        linear(chain.push(c)),
        forall|i: int| 0 <= i < chain.len() ==> chain.push(c)[i] == chain[i],
        is_ancestor(chain.push(c), 0, chain.len() as int),
{
    let grown = chain.push(c);
    assert forall|i: int| 1 <= i < grown.len() implies (#[trigger] grown[i]).parent == Some(
        (i - 1) as usize,
    ) by {
        if i < chain.len() {
            assert(grown[i] == chain[i]);
        }
    }
    assert(grown[0] == chain[0]);
    root_is_ancestor(grown, chain.len() as int);
}

} // verus!
