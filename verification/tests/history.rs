use osugit::git::{millis_of_seconds, seconds_of_millis, Commit, GitHost, RecordHistory};
use osugit::text::{join2, join3, render_i32};

fn history_commit(parent: Option<usize>) -> Commit {
    Commit {
        author_name: String::from("a"),
        author_email: String::from("e"),
        time_millis: 1,
        message: String::from("m"),
        parent,
    }
}

#[test]
fn init_keeps_the_root_path() {
    let host = GitHost::init("/var/lib/osugit");
    assert_eq!(host.root(), "/var/lib/osugit");
    assert_eq!(GitHost::init("").root(), "");
}

#[test]
fn directory_is_named_by_the_record_id() {
    let host = GitHost::init("r");
    assert_eq!(host.dir_name(1234), "1234");
    assert_eq!(host.dir_name(0), "0");
    assert_eq!(host.dir_name(-5), "-5");
}

#[test]
fn first_opening_makes_one_root_commit() {
    let history = GitHost::init("r").open(9, None, 1_600_000_000_000);
    assert_eq!(history.record_id(), 9);
    assert_eq!(history.len(), 1);
    assert_eq!(history.head(), 0);
    let root = history.get(0).unwrap();
    assert_eq!(root.author_name, "osugit");
    assert_eq!(root.author_email, "git@osu.technology");
    assert_eq!(root.time_millis, 1_600_000_000_000);
    assert_eq!(root.message, "Initial commit");
    assert_eq!(root.parent, None);
    assert!(history.get(1).is_none());
}

#[test]
fn second_opening_changes_nothing() {
    let host = GitHost::init("r");
    let mut history = host.open(9, None, 10);
    history.commit("a", "e", 11, "update");
    let again = host.open(9, Some(history), 99);
    assert_eq!(again.len(), 2);
    assert_eq!(again.get(0).unwrap().time_millis, 10);
    assert_eq!(again.get(1).unwrap().time_millis, 11);
}

#[test]
fn every_commit_leads_back_to_the_root() {
    let mut history = GitHost::init("r").open(9, None, 0);
    for i in 0..20 {
        let id = history.commit("a", "e", i, "update");
        assert_eq!(id, (i as usize) + 1);
    }
    assert_eq!(history.len(), 21);
    for start in 0..history.len() {
        let mut at = start;
        let mut steps = 0;
        while let Some(parent) = history.get(at).unwrap().parent {
            assert_eq!(parent + 1, at);
            at = parent;
            steps += 1;
        }
        assert_eq!(at, 0);
        assert_eq!(steps, start);
    }
}

#[test]
fn commit_records_what_it_was_given() {
    let mut history = GitHost::init("r").open(9, None, 0);
    let id = history.commit("peppy", "git@osu.technology", -3, "update");
    assert_eq!(id, 1);
    assert_eq!(history.head(), 1);
    let c = history.get(1).unwrap();
    assert_eq!(c.author_name, "peppy");
    assert_eq!(c.author_email, "git@osu.technology");
    assert_eq!(c.time_millis, -3);
    assert_eq!(c.message, "update");
    assert_eq!(c.parent, Some(0));
}

#[test]
fn stored_commits_are_taken_only_as_a_linear_chain() {
    let good = RecordHistory::from_commits(
        3,
        vec![history_commit(None), history_commit(Some(0)), history_commit(Some(1))],
    )
    .unwrap();
    assert_eq!(good.record_id(), 3);
    assert_eq!(good.len(), 3);
    assert!(RecordHistory::from_commits(3, vec![]).is_none());
    assert!(RecordHistory::from_commits(3, vec![history_commit(Some(0))]).is_none());
    assert!(RecordHistory::from_commits(3, vec![history_commit(None), history_commit(None)]).is_none());
    assert!(RecordHistory::from_commits(
        3,
        vec![history_commit(None), history_commit(Some(0)), history_commit(Some(0))]
    )
    .is_none());
    assert!(RecordHistory::from_commits(3, vec![history_commit(None)]).is_some());
}

#[test]
fn integers_are_written_in_decimal() {
    assert_eq!(render_i32(0), "0");
    assert_eq!(render_i32(7), "7");
    assert_eq!(render_i32(10), "10");
    assert_eq!(render_i32(1234567890), "1234567890");
    assert_eq!(render_i32(-1), "-1");
    assert_eq!(render_i32(i32::MAX), "2147483647");
    assert_eq!(render_i32(i32::MIN), "-2147483648");
    for n in [-1000, -99, 5, 42, 100, 65536] {
        assert_eq!(render_i32(n), n.to_string());
    }
}

#[test]
fn pieces_of_text_are_joined_in_order() {
    assert_eq!(join2("ab", "cd"), "abcd");
    assert_eq!(join2("", ""), "");
    assert_eq!(join3("a", "", "c"), "ac");
    assert_eq!(join3("x/", "12", "/y"), "x/12/y");
}

#[test]
fn stored_seconds_are_the_floor_of_the_milliseconds() {
    assert_eq!(seconds_of_millis(0), 0);
    assert_eq!(seconds_of_millis(999), 0);
    assert_eq!(seconds_of_millis(1_000), 1);
    assert_eq!(seconds_of_millis(1_577_836_800_123), 1_577_836_800);
    assert_eq!(seconds_of_millis(-1), -1);
    assert_eq!(seconds_of_millis(-1_000), -1);
    assert_eq!(seconds_of_millis(-1_001), -2);
    assert_eq!(seconds_of_millis(i64::MAX), 9_223_372_036_854_775);
    assert_eq!(seconds_of_millis(i64::MIN), -9_223_372_036_854_776);
    for m in [-2_500i64, -1, 0, 1, 2_500, 86_400_000] {
        assert_eq!(seconds_of_millis(m), m.div_euclid(1000));
    }
}

#[test]
fn stored_seconds_come_back_as_milliseconds() {
    assert_eq!(millis_of_seconds(0), Some(0));
    assert_eq!(millis_of_seconds(1_577_836_800), Some(1_577_836_800_000));
    assert_eq!(millis_of_seconds(-2), Some(-2_000));
    assert_eq!(millis_of_seconds(9_223_372_036_854_775), Some(9_223_372_036_854_775_000));
    assert_eq!(millis_of_seconds(9_223_372_036_854_776), None);
    assert_eq!(millis_of_seconds(-9_223_372_036_854_775), Some(-9_223_372_036_854_775_000));
    assert_eq!(millis_of_seconds(-9_223_372_036_854_776), None);
    assert_eq!(millis_of_seconds(i64::MAX), None);
    for s in [-5i64, 0, 12, 1_600_000_000] {
        assert_eq!(seconds_of_millis(millis_of_seconds(s).unwrap()), s);
    }
}

#[test]
fn commit_states_its_instant_in_seconds() {
    let mut history = GitHost::init("r").open(9, None, 1_577_836_800_999);
    history.commit("a", "e", -1, "update");
    assert_eq!(history.get(0).unwrap().time_seconds(), 1_577_836_800);
    assert_eq!(history.get(1).unwrap().time_seconds(), -1);
}
