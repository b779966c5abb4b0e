use vstd::prelude::*;
use vstd::string::*;
use crate::clock::{parse_rfc3339_millis, rfc3339_millis, utc_now_millis};
use crate::config::Config;
use crate::git::{is_ancestor, linear, CommitView, GitHost, RecordHistory};
use crate::models::{Beatmapset, BeatmapSearch, RankStatus};
use crate::osuapi::{AuthError, Osuapi, UpstreamError};
use crate::text::{decimal_text, join2, render_i32};

verus! {

/// What the poller reads of one record of a search answer: whose it is and
/// when it was last modified.
#[derive(Copy, Clone, Debug, PartialEq, Eq, Structural)]
pub struct Stamped {
    pub id: i32,
    pub stamp: i64,
}

/// A record takes part in a cycle unless it was last modified strictly
/// before the watermark.
pub open spec fn qualifies(watermark: i64, stamp: i64) -> bool {
    stamp >= watermark
}

/// Whether one of `positions` holds an entry of the record `id`.
pub open spec fn carries(entries: Seq<Stamped>, positions: Seq<usize>, id: i32) -> bool {
    exists|k: int|
        0 <= k < positions.len() && (#[trigger] positions[k]) < entries.len()
            && entries[positions[k] as int].id == id
}

/// The positions, ascending, of the entries to ingest: those that qualify,
/// and of several qualifying entries of one record only the first, so that
/// no record is ingested twice in a cycle.
pub open spec fn selection(watermark: i64, entries: Seq<Stamped>) -> Seq<usize>
    decreases entries.len(),
{
    if entries.len() == 0 {
        Seq::empty()
    } else {
        let rest = selection(watermark, entries.drop_last());
        let last = entries.last();
        if qualifies(watermark, last.stamp) && !carries(entries, rest, last.id) {
            rest.push((entries.len() - 1) as usize)
        } else {
            rest
        }
    }
}

/// The watermark after a cycle over `entries`: the latest of the old
/// watermark and the instants that qualify, whether their entry is among the
/// selected or not. An instant that does not qualify lies before the
/// watermark and so never counts.
pub open spec fn advanced(watermark: i64, entries: Seq<Stamped>) -> i64
    decreases entries.len(),
{
    if entries.len() == 0 {
        watermark
    } else {
        let rest = advanced(watermark, entries.drop_last());
        if entries.last().stamp > rest {
            entries.last().stamp
        } else {
            rest
        }
    }
}

/// Whether `positions` can be ingested all at once: each lies within
/// `entries`, and no two of them belong to one record.
pub open spec fn one_per_record(entries: Seq<Stamped>, positions: Seq<usize>) -> bool {
    &&& forall|k: int| 0 <= k < positions.len() ==> (#[trigger] positions[k]) < entries.len()
    &&& forall|j: int, k: int|
        0 <= j < k < positions.len() ==> entries[(#[trigger] positions[j]) as int].id
            != entries[(#[trigger] positions[k]) as int].id
}

/// What one cycle does: which records it ingests and where the watermark
/// stands once all of them are through, whether they succeeded or not.
#[derive(Debug)]
pub struct CyclePlan {
    /// Positions in the search answer, ascending, no two of one record.
    pub selected: Vec<usize>,
    pub new_watermark: i64,
}

/// Every selected position lies within the entries.
pub proof fn selection_is_bounded(watermark: i64, entries: Seq<Stamped>)
    requires
        entries.len() <= usize::MAX,
    ensures
        forall|k: int|
            0 <= k < selection(watermark, entries).len() ==> (#[trigger] selection(
                watermark,
                entries,
            )[k]) < entries.len(),
    decreases entries.len(),
{
    if entries.len() > 0 {
        let front = entries.drop_last();
        let rest = selection(watermark, front);
        let all = selection(watermark, entries);
        selection_is_bounded(watermark, front);
        assert forall|k: int| 0 <= k < all.len() implies (#[trigger] all[k]) < entries.len() by {
            if k < rest.len() {
                assert(all[k] == rest[k]);
                assert(rest[k] < front.len());
            }
        }
    }
}

fn holds_id(entries: &Vec<Stamped>, positions: &Vec<usize>, id: i32) -> (r: bool)
    ensures
        r == carries(entries@, positions@, id),
{
    let mut k: usize = 0;
    while k < positions.len()
        invariant
            0 <= k <= positions@.len(),
            forall|j: int|
                0 <= j < k ==> !((#[trigger] positions@[j]) < entries@.len()
                    && entries@[positions@[j] as int].id == id),
        decreases positions@.len() - k,
    {
        let p: usize = positions[k];
        if p < entries.len() && entries[p].id == id {
            return true;
        }
        k = k + 1;
    }
    false
}

/// Filters the entries of a cycle and computes the next watermark.
pub fn plan_cycle(watermark: i64, entries: &Vec<Stamped>) -> (r: CyclePlan)
    ensures
        r.selected@ == selection(watermark, entries@),
        r.new_watermark == advanced(watermark, entries@),
        one_per_record(entries@, r.selected@),
{
    let mut selected: Vec<usize> = Vec::new();
    let mut latest: i64 = watermark;
    let n: usize = entries.len();
    let mut i: usize = 0;
    assert(entries@.take(0) =~= Seq::<Stamped>::empty());
    while i < n
        invariant
            0 <= i <= n,
            n == entries@.len(),
            selected@ == selection(watermark, entries@.take(i as int)),
            latest == advanced(watermark, entries@.take(i as int)),
        decreases n - i,
    {
        let ghost prefix = entries@.take(i + 1);
        assert(prefix.drop_last() =~= entries@.take(i as int));
        let entry: Stamped = entries[i];
        if entry.stamp >= watermark {
            let taken: bool = holds_id(entries, &selected, entry.id);
            proof {
                selection_is_bounded(watermark, entries@.take(i as int));
                assert forall|k: int| 0 <= k < selected@.len() implies (#[trigger] selected@[k])
                    < i by {
                    assert(selected@[k] == selection(watermark, entries@.take(i as int))[k]);
                }
                if carries(entries@, selected@, entry.id) {
                    let k = choose|k: int|
                        0 <= k < selected@.len() && (#[trigger] selected@[k]) < entries@.len()
                            && entries@[selected@[k] as int].id == entry.id;
                    assert(prefix[selected@[k] as int] == entries@[selected@[k] as int]);
                }
                if carries(prefix, selected@, entry.id) {
                    let k = choose|k: int|
                        0 <= k < selected@.len() && (#[trigger] selected@[k]) < prefix.len()
                            && prefix[selected@[k] as int].id == entry.id;
                    assert(prefix[selected@[k] as int] == entries@[selected@[k] as int]);
                }
                assert(taken == carries(prefix, selected@, entry.id));
            }
            if !taken {
                selected.push(i);
            }
        }
        if entry.stamp > latest {
            latest = entry.stamp;
        }
        i = i + 1;
    }
    assert(entries@.take(n as int) =~= entries@);
    proof {
        selection_is_exact(watermark, entries@);
        let all = selection(watermark, entries@);
        assert forall|k: int| 0 <= k < selected@.len() implies (#[trigger] selected@[k])
            < entries@.len() by {
            assert(selected@[k] == all[k]);
        }
        assert forall|j: int, k: int| 0 <= j < k < selected@.len() implies entries@[(
            #[trigger] selected@[j]) as int].id != entries@[(#[trigger] selected@[k]) as int].id by {
            assert(selected@[j] == all[j] && selected@[k] == all[k]);
        }
    }
    CyclePlan { selected, new_watermark: latest }
}

/// The watermark never moves back.
pub proof fn watermark_is_monotone(watermark: i64, entries: Seq<Stamped>)
    ensures
        advanced(watermark, entries) >= watermark,
    decreases entries.len(),
{
    if entries.len() > 0 {
        watermark_is_monotone(watermark, entries.drop_last());
    }
}

/// The new watermark is the latest instant that the cycle looked at: no
/// entry lies after it, selected or not, and it is the old watermark or the
/// instant of an entry that qualifies.
pub proof fn watermark_is_latest(watermark: i64, entries: Seq<Stamped>)
    ensures
        forall|i: int| 0 <= i < entries.len() ==> entries[i].stamp <= advanced(watermark, entries),
        advanced(watermark, entries) == watermark || exists|i: int|
            0 <= i < entries.len() && qualifies(watermark, entries[i].stamp) && entries[i].stamp
                == advanced(watermark, entries),
    decreases entries.len(),
{
    if entries.len() > 0 {
        let front = entries.drop_last();
        watermark_is_latest(watermark, front);
        watermark_is_monotone(watermark, front);
        assert forall|i: int| 0 <= i < entries.len() implies entries[i].stamp <= advanced(
            watermark,
            entries,
        ) by {
            if i < front.len() {
                assert(front[i] == entries[i]);
            }
        }
        if entries.last().stamp > advanced(watermark, front) {
            let k = entries.len() - 1;
            assert(qualifies(watermark, entries[k].stamp) && entries[k].stamp == advanced(
                watermark,
                entries,
            ));
        } else if advanced(watermark, front) != watermark {
            let k = choose|i: int|
                0 <= i < front.len() && qualifies(watermark, front[i].stamp) && front[i].stamp
                    == advanced(watermark, front);
            assert(front[k] == entries[k]);
            assert(qualifies(watermark, entries[k].stamp) && entries[k].stamp == advanced(
                watermark,
                entries,
            ));
        }
    }
}

/// Only entries that qualify are ingested, in the order of the search
/// answer: a record last modified before the watermark is never among them.
/// No two selected positions belong to one record, so a cycle never has two
/// workers on one record. And no record that qualifies is passed over: each
/// qualifying entry is selected itself or has an earlier selected entry of
/// its record.
pub proof fn selection_is_exact(watermark: i64, entries: Seq<Stamped>)
    requires
        entries.len() <= usize::MAX,
    ensures
        forall|k: int|
            0 <= k < selection(watermark, entries).len() ==> {
                let p = #[trigger] selection(watermark, entries)[k];
                p < entries.len() && qualifies(watermark, entries[p as int].stamp)
            },
        forall|j: int, k: int|
            0 <= j < k < selection(watermark, entries).len() ==> {
                let p = #[trigger] selection(watermark, entries)[j];
                let q = #[trigger] selection(watermark, entries)[k];
                p < q && entries[p as int].id != entries[q as int].id
            },
        forall|i: int|
            0 <= i < entries.len() && qualifies(watermark, (#[trigger] entries[i]).stamp) ==> exists|
                k: int,
            |
                0 <= k < selection(watermark, entries).len() && (#[trigger] selection(
                    watermark,
                    entries,
                )[k]) <= i && entries[selection(watermark, entries)[k] as int].id == entries[i].id,
    decreases entries.len(),
{
    if entries.len() > 0 {
        let front = entries.drop_last();
        let rest = selection(watermark, front);
        let all = selection(watermark, entries);
        let last = entries.last();
        let pushed = qualifies(watermark, last.stamp) && !carries(entries, rest, last.id);
        selection_is_exact(watermark, front);
        assert forall|k: int| 0 <= k < rest.len() implies (#[trigger] rest[k]) < front.len()
            && all[k] == rest[k] && front[rest[k] as int] == entries[rest[k] as int] by {}
        assert forall|k: int| 0 <= k < all.len() implies {
            let p = #[trigger] all[k];
            p < entries.len() && qualifies(watermark, entries[p as int].stamp)
        } by {
            if k < rest.len() {
                assert(rest[k] < front.len());
            }
        }
        assert forall|j: int, k: int| 0 <= j < k < all.len() implies {
            let p = #[trigger] all[j];
            let q = #[trigger] all[k];
            p < q && entries[p as int].id != entries[q as int].id
        } by {
            assert(rest[j] < front.len());
            if k < rest.len() {
                assert(rest[k] < front.len());
            } else {
                assert(pushed);
                assert(!carries(entries, rest, last.id));
            }
        }
        assert forall|i: int|
            0 <= i < entries.len() && qualifies(watermark, (#[trigger] entries[i]).stamp) implies exists|
            k: int,
        |
            0 <= k < all.len() && (#[trigger] all[k]) <= i && entries[all[k] as int].id
                == entries[i].id by {
            if i < front.len() {
                assert(front[i] == entries[i]);
                let k = choose|k: int|
                    0 <= k < rest.len() && (#[trigger] rest[k]) <= i && front[rest[k] as int].id
                        == front[i].id;
                assert(rest[k] < front.len());
                assert(all[k] <= i && entries[all[k] as int].id == entries[i].id);
            } else if pushed {
                let k = all.len() - 1;
                assert(all[k] <= i && entries[all[k] as int].id == entries[i].id);
            } else {
                assert(carries(entries, rest, last.id));
                let k = choose|k: int|
                    0 <= k < rest.len() && (#[trigger] rest[k]) < entries.len()
                        && entries[rest[k] as int].id == last.id;
                assert(rest[k] < front.len());
                assert(all[k] <= i && entries[all[k] as int].id == entries[i].id);
            }
        }
    }
}

/// The instant at which a record was last modified, where its text says one.
pub open spec fn stamp_of(set: Beatmapset) -> Option<i64> {
    rfc3339_millis(set.last_updated@)
}

/// Whether every record of a search answer says when it was last modified.
pub open spec fn all_stamped(sets: Seq<Beatmapset>) -> bool {
    forall|i: int| 0 <= i < sets.len() ==> (#[trigger] stamp_of(sets[i])) is Some
}

/// The id and the instant of each record of a search answer.
pub open spec fn entries_of(sets: Seq<Beatmapset>) -> Seq<Stamped> {
    Seq::new(sets.len(), |i: int| Stamped { id: sets[i].id, stamp: stamp_of(sets[i])->0 })
}

/// Reads the id and the instant of every record of a search answer. One
/// record without a readable instant makes the whole answer malformed.
pub fn read_stamps(search: &BeatmapSearch) -> (r: Option<Vec<Stamped>>)
    ensures
        r is Some <==> all_stamped(search.beatmapsets@),
        r matches Some(v) ==> v@ == entries_of(search.beatmapsets@),
{
    let mut entries: Vec<Stamped> = Vec::new();
    let n: usize = search.beatmapsets.len();
    let mut i: usize = 0;
    while i < n
        invariant
            0 <= i <= n,
            n == search.beatmapsets@.len(),
            entries@.len() == i,
            forall|j: int|
                0 <= j < i ==> stamp_of(#[trigger] search.beatmapsets@[j]) == Some(entries@[j].stamp)
                    && entries@[j].id == search.beatmapsets@[j].id,
        decreases n - i,
    {
        match parse_rfc3339_millis(search.beatmapsets[i].last_updated.as_str()) {
            Some(stamp) => {
                entries.push(Stamped { id: search.beatmapsets[i].id, stamp });
            },
            None => {
                assert(stamp_of(search.beatmapsets@[i as int]) is None);
                return None;
            },
        }
        i = i + 1;
    }
    assert(entries@ =~= entries_of(search.beatmapsets@));
    Some(entries)
}

/// Where the poller stands between two events. Filtering happens within the
/// turn that takes the search answer, advancing within the turn that learns
/// that all ingestions are through.
#[derive(Copy, Clone, Debug, PartialEq, Eq, Structural)]
pub enum Phase {
    Idle,
    Searching,
    FanningOut,
}

/// What happened outside since the last turn.
#[derive(Debug)]
pub enum Event {
    /// The delay is over, or the process has just started.
    Wake,
    /// The search came back.
    SearchDone(BeatmapSearch),
    /// The search failed.
    SearchFailed,
    /// Every ingestion of the cycle has ended, well or not.
    IngestsDone,
}

/// What to do outside before the next turn.
#[derive(Debug, PartialEq, Eq)]
pub enum Action {
    /// The event does not belong to the phase: nothing changed.
    Nothing,
    /// Search the catalog for the records of this class.
    Search(RankStatus),
    /// Ingest the records at these positions of the search answer, all at
    /// once, and report when the last one has ended. No two positions belong
    /// to one record.
    Ingest(Vec<usize>),
    /// Wait this many seconds, then wake the poller.
    Sleep(u64),
}

/// The poller. It owns the watermark.
#[derive(Debug)]
pub struct Scraper {
    last_update_time: i64,
    pending: i64,
    phase: Phase,
    osuapi: Osuapi,
    config: Config,
    git: GitHost,
}

impl Scraper {
    /// The watermark: every change up to this instant counts as ingested.
    pub closed spec fn watermark(&self) -> i64 {
        self.last_update_time
    }

    /// While records are being ingested: the watermark that the cycle ends
    /// with.
    pub closed spec fn pending(&self) -> i64 {
        self.pending
    }

    pub closed spec fn phase(&self) -> Phase {
        self.phase
    }

    pub closed spec fn store_root(&self) -> Seq<char> {
        self.git.root_text()
    }

    /// Seconds between the end of one cycle and the start of the next, as
    /// the settings give them.
    pub closed spec fn poll_interval(&self) -> u64 {
        self.config.poll_interval
    }

    /// The catalog client that the poller owns.
    pub closed spec fn client(&self) -> Osuapi {
        self.osuapi
    }

    pub open spec fn wf(&self) -> bool {
        self.phase() == Phase::FanningOut ==> self.pending() >= self.watermark()
    }

    /// A poller whose watermark is the present instant.
    pub fn new(osuapi: Osuapi, config: Config) -> (r: Scraper)
        ensures
            r.wf(),
            r.phase() == Phase::Idle,
            r.client() == osuapi,
            r.poll_interval() == config.poll_interval,
            r.store_root() == config.repos@,
    {
        let now: i64 = utc_now_millis();
        Scraper::starting_at(osuapi, config, now)
    }

    /// A poller with the given watermark.
    pub fn starting_at(osuapi: Osuapi, config: Config, watermark: i64) -> (r: Scraper)
        ensures
            r.wf(),
            r.phase() == Phase::Idle,
            r.watermark() == watermark,
            r.client() == osuapi,
            r.poll_interval() == config.poll_interval,
            r.store_root() == config.repos@,
    {
        let git = GitHost::init(config.repos.as_str());
        Scraper {
            last_update_time: watermark,
            pending: watermark,
            phase: Phase::Idle,
            osuapi,
            config,
            git,
        }
    }

    pub fn last_update_time(&self) -> (r: i64)
        ensures
            r == self.watermark(),
    {
        self.last_update_time
    }

    pub fn current_phase(&self) -> (r: Phase)
        ensures
            r == self.phase(),
    {
        self.phase
    }

    pub fn git(&self) -> (r: &GitHost)
        ensures
            r.root_text() == self.store_root(),
    {
        &self.git
    }

    /// The catalog client, to be used and changed in place. Nothing else of
    /// the poller changes with it.
    pub fn osuapi(&mut self) -> (r: &mut Osuapi)
        ensures
            *r == old(self).client(),
            final(self).client() == *final(r),
            final(self).poll_interval() == old(self).poll_interval(),
            final(self).watermark() == old(self).watermark(),
            final(self).pending() == old(self).pending(),
            final(self).phase() == old(self).phase(),
            final(self).store_root() == old(self).store_root(),
    {
        &mut self.osuapi
    }

    /// Plans a cycle from a search answer: which records are ingested and
    /// where the watermark will stand. An answer with an unreadable instant
    /// is malformed and yields no plan. The watermark itself is not touched.
    pub fn scrape_pending_beatmaps(&self, search: &BeatmapSearch) -> (r: Option<CyclePlan>)
        ensures
            r is Some <==> all_stamped(search.beatmapsets@),
            r matches Some(plan) ==> {
                &&& plan.selected@ == selection(self.watermark(), entries_of(search.beatmapsets@))
                &&& one_per_record(entries_of(search.beatmapsets@), plan.selected@)
                &&& plan.new_watermark == advanced(self.watermark(), entries_of(search.beatmapsets@))
            },
    {
        match read_stamps(search) {
            Some(stamps) => Some(plan_cycle(self.last_update_time, &stamps)),
            None => None,
        }
    }

    /// One turn of the main loop: takes what happened outside and says what
    /// to do next. A failed or malformed search ends the cycle with the
    /// watermark where it was. The watermark moves only when all ingestions
    /// of the cycle have ended, and then to the latest instant among the
    /// records of the cycle, those whose ingestion failed included: such a
    /// record is not taken up again until the catalog changes it.
    pub fn main_loop(&mut self, event: Event) -> (r: Action)
        requires
            old(self).wf(),
        ensures
            final(self).wf(),
            final(self).store_root() == old(self).store_root(),
            final(self).client() == old(self).client(),
            final(self).poll_interval() == old(self).poll_interval(),
            final(self).watermark() >= old(self).watermark(),
            match (old(self).phase(), event) {
                (Phase::Idle, Event::Wake) => {
                    &&& final(self).phase() == Phase::Searching
                    &&& final(self).watermark() == old(self).watermark()
                    &&& r == Action::Search(RankStatus::Pending)
                },
                (Phase::Searching, Event::SearchFailed) => {
                    &&& final(self).phase() == Phase::Idle
                    &&& final(self).watermark() == old(self).watermark()
                    &&& r == Action::Sleep(old(self).poll_interval())
                },
                (Phase::Searching, Event::SearchDone(search)) => {
                    &&& final(self).watermark() == old(self).watermark()
                    &&& if all_stamped(search.beatmapsets@) {
                        &&& final(self).phase() == Phase::FanningOut
                        &&& final(self).pending() == advanced(
                            old(self).watermark(),
                            entries_of(search.beatmapsets@),
                        )
                        &&& r matches Action::Ingest(positions)
                        &&& one_per_record(entries_of(search.beatmapsets@), positions@)
                        &&& positions@ == selection(
                            old(self).watermark(),
                            entries_of(search.beatmapsets@),
                        )
                    } else {
                        &&& final(self).phase() == Phase::Idle
                        &&& r == Action::Sleep(old(self).poll_interval())
                    }
                },
                (Phase::FanningOut, Event::IngestsDone) => {
                    &&& final(self).phase() == Phase::Idle
                    &&& final(self).watermark() == old(self).pending()
                    &&& r == Action::Sleep(old(self).poll_interval())
                },
                _ => {
                    &&& final(self).phase() == old(self).phase()
                    &&& final(self).watermark() == old(self).watermark()
                    &&& final(self).pending() == old(self).pending()
                    &&& r == Action::Nothing
                },
            },
    {
        match (self.phase, event) {
            (Phase::Idle, Event::Wake) => {
                self.phase = Phase::Searching;
                Action::Search(RankStatus::Pending)
            },
            (Phase::Searching, Event::SearchFailed) => {
                self.phase = Phase::Idle;
                Action::Sleep(self.config.poll_interval)
            },
            (Phase::Searching, Event::SearchDone(search)) => {
                match self.scrape_pending_beatmaps(&search) {
                    Some(plan) => {
                        proof {
                            watermark_is_monotone(
                                self.watermark(),
                                entries_of(search.beatmapsets@),
                            );
                        }
                        self.pending = plan.new_watermark;
                        self.phase = Phase::FanningOut;
                        Action::Ingest(plan.selected)
                    },
                    None => {
                        self.phase = Phase::Idle;
                        Action::Sleep(self.config.poll_interval)
                    },
                }
            },
            (Phase::FanningOut, Event::IngestsDone) => {
                self.last_update_time = self.pending;
                self.phase = Phase::Idle;
                Action::Sleep(self.config.poll_interval)
            },
            _ => Action::Nothing,
        }
    }
}

/// One file to fetch into a record's working directory.
#[derive(Debug)]
pub struct FileJob {
    pub map_id: i32,
    pub file_name: String,
}

/// The name under which a file is kept in the working directory.
pub open spec fn file_name_of(map_id: i32) -> Seq<char> {
    decimal_text(map_id as int) + ".osu"@
}

/// The files of a record, in the record's order.
pub fn file_jobs(mapset: &Beatmapset) -> (r: Vec<FileJob>)
    ensures
        r@.len() == mapset.beatmaps@.len(),
        forall|i: int|
            0 <= i < r@.len() ==> (#[trigger] r@[i]).map_id == mapset.beatmaps@[i].id
                && r@[i].file_name@ == file_name_of(mapset.beatmaps@[i].id),
{
    let mut jobs: Vec<FileJob> = Vec::new();
    let n: usize = mapset.beatmaps.len();
    let mut i: usize = 0;
    while i < n
        invariant
            0 <= i <= n,
            n == mapset.beatmaps@.len(),
            jobs@.len() == i,
            forall|j: int|
                0 <= j < i ==> (#[trigger] jobs@[j]).map_id == mapset.beatmaps@[j].id
                    && jobs@[j].file_name@ == file_name_of(mapset.beatmaps@[j].id),
        decreases n - i,
    {
        let map_id: i32 = mapset.beatmaps[i].id;
        let id: String = render_i32(map_id);
        jobs.push(FileJob { map_id, file_name: join2(id.as_str(), ".osu") });
        i = i + 1;
    }
    jobs
}

/// Why one file of a record was not fetched.
#[derive(Debug, PartialEq, Eq)]
pub enum FetchError {
    /// No credential could be had.
    Auth(AuthError),
    /// The catalog refused the download.
    Upstream(UpstreamError),
    /// The transfer broke off, or the file could not be written into the
    /// working directory.
    Io,
}

/// Why a record was not ingested.
#[derive(Debug, PartialEq, Eq)]
pub enum IngestError {
    /// The record does not say when it was last modified.
    Stamp,
    /// There is not one outcome for each file of the record.
    Incomplete,
    /// The download of the file at this position failed, for this reason;
    /// the ones before it went well.
    Fetch { position: usize, cause: FetchError },
    /// The history cannot take the commit: it belongs to another record, or
    /// it is full.
    Commit,
}

/// Whether every file of the record was fetched.
pub open spec fn all_fetched(mapset: Beatmapset, outcomes: Seq<Result<(), FetchError>>) -> bool {
    &&& outcomes.len() == mapset.beatmaps@.len()
    &&& forall|i: int| 0 <= i < outcomes.len() ==> outcomes[i] is Ok
}

/// Whether `history` can take a commit for the record.
pub open spec fn can_commit(history: RecordHistory, mapset: Beatmapset) -> bool {
    &&& history.id() == mapset.id
    &&& history.chain().len() + 1 < usize::MAX
}

/// The author of a record's commits: its creator, or the system's own name
/// where the record names none.
pub open spec fn author_of(mapset: Beatmapset) -> Seq<char> {
    if mapset.creator@.len() == 0 {
        "osugit"@
    } else {
        mapset.creator@
    }
}

/// The commit that takes a record's files into its history: signed with the
/// record's creator and the instant of the record's last change, not with the
/// instant of the ingestion.
pub open spec fn update_commit(mapset: Beatmapset, stamp: i64, parent: usize) -> CommitView {
    CommitView {
        author_name: author_of(mapset),
        author_email: "git@osu.technology"@,
        time_millis: stamp,
        message: "update"@,
        parent: Some(parent),
    }
}

/// The history's commits once the ingestion of a record has ended: one
/// commit more, on top of the head, where every file was fetched and the
/// history can take it, and the commits as they were otherwise.
pub open spec fn after_ingest(
    history: RecordHistory,
    mapset: Beatmapset,
    stamp: i64,
    outcomes: Seq<Result<(), FetchError>>,
) -> Seq<CommitView> {
    if all_fetched(mapset, outcomes) && can_commit(history, mapset) {
        history.chain().push(
            update_commit(mapset, stamp, (history.chain().len() - 1) as usize),
        )
    } else {
        history.chain()
    }
}

/// Whether `e` is the reason for which the record is not committed: the
/// first thing that is amiss, looking at the record's instant, then at the
/// number of outcomes, then at the downloads in their order, then at the
/// history.
pub open spec fn explains(
    e: IngestError,
    history: RecordHistory,
    mapset: Beatmapset,
    outcomes: Seq<Result<(), FetchError>>,
) -> bool {
    match e {
        IngestError::Stamp => stamp_of(mapset) is None,
        IngestError::Incomplete => outcomes.len() != mapset.beatmaps@.len(),
        IngestError::Fetch { position, cause } => {
            &&& outcomes.len() == mapset.beatmaps@.len()
            &&& position < outcomes.len()
            &&& outcomes[position as int] == Err::<(), FetchError>(cause)
            &&& forall|j: int| 0 <= j < position ==> outcomes[j] is Ok
        },
        IngestError::Commit => all_fetched(mapset, outcomes) && !can_commit(history, mapset),
    }
}

/// Ends the ingestion of one record, given the outcome of each download and
/// the instant of the record's last change. Either every file was fetched
/// and one commit is added on top of the head, or the history stays as it
/// was: nothing is committed for a record of which a file is missing.
pub fn commit_update(
    history: &mut RecordHistory,
    mapset: &Beatmapset,
    stamp: i64,
    outcomes: Vec<Result<(), FetchError>>,
) -> (r: Result<usize, IngestError>)
    requires
        old(history).wf(),
    ensures
        final(history).wf(),
        final(history).id() == old(history).id(),
        final(history).chain() == after_ingest(*old(history), *mapset, stamp, outcomes@),
        r matches Ok(id) ==> is_ancestor(final(history).chain(), 0, id as int),
        all_fetched(*mapset, outcomes@) && can_commit(*old(history), *mapset) ==> {
            &&& r == Ok::<usize, IngestError>(old(history).chain().len() as usize)
            &&& final(history).chain() == old(history).chain().push(
                update_commit(*mapset, stamp, (old(history).chain().len() - 1) as usize),
            )
        },
        !(all_fetched(*mapset, outcomes@) && can_commit(*old(history), *mapset)) ==> r is Err
            && final(history).chain() == old(history).chain(),
        r matches Err(e) ==> e != IngestError::Stamp && explains(
            e,
            *old(history),
            *mapset,
            outcomes@,
        ),
{
    let mut rest: Vec<Result<(), FetchError>> = outcomes;
    let n: usize = rest.len();
    if n != mapset.beatmaps.len() {
        return Err(IngestError::Incomplete);
    }
    let mut i: usize = 0;
    while i < n
        invariant
            0 <= i <= n,
            n == outcomes@.len(),
            n == mapset.beatmaps@.len(),
            rest@ == outcomes@,
            *history == *old(history),
            history.wf(),
            forall|j: int| 0 <= j < i ==> outcomes@[j] is Ok,
        decreases n - i,
    {
        if rest[i].is_err() {
            let cause: FetchError = rest.swap_remove(i).unwrap_err();
            return Err(IngestError::Fetch { position: i, cause });
        }
        i = i + 1;
    }
    if history.record_id() != mapset.id || history.len() >= usize::MAX - 1 {
        return Err(IngestError::Commit);
    }
    let author: &str = if mapset.creator.as_str().is_empty() {
        "osugit"
    } else {
        mapset.creator.as_str()
    };
    let id: usize = history.commit(author, "git@osu.technology", stamp, "update");
    Ok(id)
}

/// Ends the ingestion of one record as `commit_update` does, with the instant
/// that the record itself states. A record that states none is not
/// committed.
pub fn update_beatmap_git(
    history: &mut RecordHistory,
    mapset: &Beatmapset,
    outcomes: Vec<Result<(), FetchError>>,
) -> (r: Result<usize, IngestError>)
    requires
        old(history).wf(),
    ensures
        final(history).wf(),
        final(history).id() == old(history).id(),
        stamp_of(*mapset) is None ==> r == Err::<usize, IngestError>(IngestError::Stamp)
            && final(history).chain() == old(history).chain(),
        r matches Ok(id) ==> is_ancestor(final(history).chain(), 0, id as int),
        stamp_of(*mapset) matches Some(stamp) ==> {
            &&& final(history).chain() == after_ingest(*old(history), *mapset, stamp, outcomes@)
            &&& r matches Err(e) ==> e != IngestError::Stamp && explains(
                e,
                *old(history),
                *mapset,
                outcomes@,
            )
            &&& all_fetched(*mapset, outcomes@) && can_commit(*old(history), *mapset) ==> {
                &&& r == Ok::<usize, IngestError>(old(history).chain().len() as usize)
                &&& final(history).chain() == old(history).chain().push(
                    update_commit(*mapset, stamp, (old(history).chain().len() - 1) as usize),
                )
            }
            &&& !(all_fetched(*mapset, outcomes@) && can_commit(*old(history), *mapset)) ==> r is Err
                && final(history).chain() == old(history).chain()
        },
{
    match parse_rfc3339_millis(mapset.last_updated.as_str()) {
        Some(stamp) => commit_update(history, mapset, stamp, outcomes),
        None => Err(IngestError::Stamp),
    }
}

/// No commit is ever left out because an equal one is there already: ending
/// a second ingestion of a record, with the same files and the same instant
/// as the first, adds a second commit. It stands on top of the first, which
/// stays as it was, and differs from it by its parent.
pub proof fn no_implicit_dedupe(
    before: RecordHistory,
    between: RecordHistory,
    mapset: Beatmapset,
    stamp: i64,
    outcomes: Seq<Result<(), FetchError>>,
)
    requires
        before.wf(),
        between.wf(),
        all_fetched(mapset, outcomes),
        can_commit(before, mapset),
        can_commit(between, mapset),
        between.chain() == after_ingest(before, mapset, stamp, outcomes),
    ensures
        ({
            let n = before.chain().len() as int;
            let second = after_ingest(between, mapset, stamp, outcomes);
            &&& second.len() == n + 2
            &&& second.drop_last() == between.chain()
            &&& second[n + 1].parent == Some(n as usize)
            &&& second[n] == between.chain()[n]
            &&& second[n + 1] != second[n]
            &&& linear(second)
            &&& is_ancestor(second, n, n + 1)
        }),
{
    let n = before.chain().len() as int;
    let first = between.chain();
    let second = after_ingest(between, mapset, stamp, outcomes);
    assert(second.drop_last() =~= first);
    assert(first[n].parent == Some((n - 1) as usize));
    assert(second[n + 1].parent == Some(n as usize));
    crate::git::growth_keeps_the_root(
        first,
        update_commit(mapset, stamp, (first.len() - 1) as usize),
    );
    assert(is_ancestor(second, n, n));
}

/// Records are ingested each for itself: of two records in one cycle, the
/// one of which a file is missing leaves its history as it was, and the one
/// whose files all came adds exactly one commit on the head of its own.
pub proof fn failed_record_spares_its_sibling(
    failed_history: RecordHistory,
    failed: Beatmapset,
    failed_stamp: i64,
    failed_outcomes: Seq<Result<(), FetchError>>,
    history: RecordHistory,
    mapset: Beatmapset,
    stamp: i64,
    outcomes: Seq<Result<(), FetchError>>,
)
    requires
        failed_history.wf(),
        history.wf(),
        !all_fetched(failed, failed_outcomes),
        all_fetched(mapset, outcomes),
        can_commit(history, mapset),
    ensures
        after_ingest(failed_history, failed, failed_stamp, failed_outcomes)
            == failed_history.chain(),
        after_ingest(history, mapset, stamp, outcomes).len() == history.chain().len() + 1,
        after_ingest(history, mapset, stamp, outcomes).drop_last() == history.chain(),
        after_ingest(history, mapset, stamp, outcomes).last() == update_commit(
            mapset,
            stamp,
            (history.chain().len() - 1) as usize,
        ),
        linear(after_ingest(history, mapset, stamp, outcomes)),
{
    let grown = after_ingest(history, mapset, stamp, outcomes);
    assert(grown.drop_last() =~= history.chain());
    crate::git::growth_keeps_the_root(
        history.chain(),
        update_commit(mapset, stamp, (history.chain().len() - 1) as usize),
    );
}

/// A cycle over two different records that both qualify, the second modified
/// after the first, ingests both, ends with the watermark at the later
/// instant, and, where all files come, adds exactly one commit to each of
/// the two histories.
pub proof fn cycle_of_two_records(
    watermark: i64,
    a: Stamped,
    b: Stamped,
    history_a: RecordHistory,
    mapset_a: Beatmapset,
    outcomes_a: Seq<Result<(), FetchError>>,
    history_b: RecordHistory,
    mapset_b: Beatmapset,
    outcomes_b: Seq<Result<(), FetchError>>,
)
    requires
        a.id != b.id,
        watermark <= a.stamp < b.stamp,
        history_a.wf(),
        history_b.wf(),
        all_fetched(mapset_a, outcomes_a),
        all_fetched(mapset_b, outcomes_b),
        can_commit(history_a, mapset_a),
        can_commit(history_b, mapset_b),
    ensures
        selection(watermark, seq![a, b]) == seq![0usize, 1usize],
        advanced(watermark, seq![a, b]) == b.stamp,
        after_ingest(history_a, mapset_a, a.stamp, outcomes_a).len() == history_a.chain().len()
            + 1,
        after_ingest(history_a, mapset_a, a.stamp, outcomes_a).drop_last() == history_a.chain(),
        after_ingest(history_b, mapset_b, b.stamp, outcomes_b).len() == history_b.chain().len()
            + 1,
        after_ingest(history_b, mapset_b, b.stamp, outcomes_b).drop_last() == history_b.chain(),
{
    let both = seq![a, b];
    let one = seq![a];
    let none = Seq::<Stamped>::empty();
    assert(both.drop_last() =~= one);
    assert(one.drop_last() =~= none);
    assert(selection(watermark, none) =~= Seq::<usize>::empty());
    assert(advanced(watermark, none) == watermark);
    assert(!carries(one, Seq::<usize>::empty(), a.id));
    assert(selection(watermark, one) =~= seq![0usize]);
    assert(advanced(watermark, one) == a.stamp);
    assert(!carries(both, seq![0usize], b.id));
    assert(selection(watermark, both) =~= seq![0usize, 1usize]);
    assert(after_ingest(history_a, mapset_a, a.stamp, outcomes_a).drop_last()
        =~= history_a.chain());
    assert(after_ingest(history_b, mapset_b, b.stamp, outcomes_b).drop_last()
        =~= history_b.chain());
}

} // verus!
