use git_rg::oid::label_for;
use git_rg::{DedupRegistry, GitSearcher, Oid, RunCounters, SearchError, TreeEntry, VisitAction,
    VisitOutcome};

fn oid_of(seed: u8) -> Oid {
    Oid::from_bytes(vec![seed; 20]).expect("twenty bytes make an identifier")
}

#[test]
fn oid_takes_only_full_hashes() {
    assert!(Oid::from_bytes(vec![1u8; 20]).is_some());
    assert!(Oid::from_bytes(vec![1u8; 19]).is_none());
    assert!(Oid::from_bytes(vec![1u8; 21]).is_none());
    assert!(Oid::from_bytes(Vec::new()).is_none());
}

#[test]
fn short_hex_renders_leading_digits() {
    let mut bytes = vec![0u8; 20];
    bytes[0] = 0xab;
    bytes[1] = 0xcd;
    bytes[2] = 0xef;
    let oid = Oid::from_bytes(bytes).unwrap();
    assert_eq!(oid.short_hex(7), b"abcdef0".to_vec());
    assert_eq!(oid.short_hex(0), Vec::<u8>::new());
    assert_eq!(oid.short_hex(40).len(), 40);
}

#[test]
fn label_shows_short_id_and_path() {
    let mut bytes = vec![0u8; 20];
    bytes[0] = 0xab;
    bytes[1] = 0xcd;
    bytes[2] = 0xef;
    let oid = Oid::from_bytes(bytes).unwrap();
    let label = label_for(&oid, &b"a/file.txt".to_vec());
    assert_eq!(label, b"[abcdef0] a/file.txt".to_vec());
}

#[test]
fn path_components_join_with_single_separator() {
    let mut gs = GitSearcher::new("test", false).unwrap();
    gs.push_path_component(&b"a".to_vec());
    assert_eq!(gs.current_path().as_slice(), b"a");
    gs.push_path_component(&b"file.txt".to_vec());
    assert_eq!(gs.current_path().as_slice(), b"a/file.txt");
}

#[test]
fn empty_component_is_never_inserted() {
    let mut gs = GitSearcher::new("test", false).unwrap();
    gs.push_path_component(&Vec::new());
    assert_eq!(gs.current_path().as_slice(), b"");
    gs.push_path_component(&b"dir".to_vec());
    gs.push_path_component(&Vec::new());
    assert_eq!(gs.current_path().as_slice(), b"dir");
}

#[test]
fn pop_returns_to_parent() {
    let mut gs = GitSearcher::new("test", false).unwrap();
    gs.push_path_component(&b"a".to_vec());
    gs.push_path_component(&b"b".to_vec());
    gs.push_path_component(&b"c.txt".to_vec());
    assert_eq!(gs.current_path().as_slice(), b"a/b/c.txt");
    gs.pop_path_component();
    assert_eq!(gs.current_path().as_slice(), b"a/b");
    gs.pop_path_component();
    assert_eq!(gs.current_path().as_slice(), b"a");
    gs.pop_path_component();
    assert_eq!(gs.current_path().as_slice(), b"");
}

#[test]
fn tracked_queue_restores_announced_paths() {
    let mut gs = GitSearcher::new("test", false).unwrap();
    gs.push_back_tracked_path_component(&b"a".to_vec());
    assert_eq!(gs.current_path().as_slice(), b"a");
    assert_eq!(gs.tracked_paths(), 1);
    gs.push_back_tracked_path_component(&b"b".to_vec());
    assert_eq!(gs.current_path().as_slice(), b"a/b");
    assert_eq!(gs.tracked_paths(), 2);
    gs.pop_front_tracked_path_and_set_current();
    assert_eq!(gs.current_path().as_slice(), b"a");
    gs.pop_back_tracked_path_and_set_current();
    assert_eq!(gs.current_path().as_slice(), b"a/b");
    gs.pop_back_tracked_path_and_set_current();
    assert_eq!(gs.current_path().as_slice(), b"");
    assert_eq!(gs.tracked_paths(), 0);
}

#[test]
fn registry_claims_each_identifier_once() {
    let mut reg = DedupRegistry::new();
    let a = oid_of(1);
    let b = oid_of(2);
    assert!(!reg.contains(&a));
    assert!(reg.insert(&a));
    assert!(reg.contains(&a));
    assert!(!reg.insert(&a));
    assert!(!reg.contains(&b));
    assert!(reg.insert(&b));
}

#[test]
fn bad_pattern_is_a_setup_error() {
    match GitSearcher::new("(", false) {
        Err(SearchError::Pattern) => {},
        _ => panic!("an unbalanced pattern must fail to compile"),
    }
}

#[test]
fn tree_entries_are_told_from_content() {
    let dir = TreeEntry { name: b"src".to_vec(), oid: oid_of(3), mode: 0o40000 };
    let file = TreeEntry { name: b"lib.rs".to_vec(), oid: oid_of(4), mode: 0o100644 };
    let link = TreeEntry { name: b"alias".to_vec(), oid: oid_of(5), mode: 0o120000 };
    assert!(dir.is_tree());
    assert!(!file.is_tree());
    assert!(!link.is_tree());
}

#[test]
fn directories_are_never_searched() {
    let gs = GitSearcher::new("test", false).unwrap();
    let dir = TreeEntry { name: b"src".to_vec(), oid: oid_of(3), mode: 0o40000 };
    assert_eq!(gs.visit_tree(&dir), VisitAction::Continue);
}

#[test]
fn no_double_search_of_one_identifier() {
    let mut gs = GitSearcher::new("test", false).unwrap();
    let mut reg = DedupRegistry::new();
    let mut counters = RunCounters::new();
    let oid = oid_of(9);
    let first = gs.apply_fetch_outcome(&mut reg, &oid, Some(b"some test data\n".to_vec()), &mut counters);
    assert_eq!(first, VisitOutcome::Searched);
    assert_eq!(counters.searched, 1);
    assert_eq!(counters.skipped, 0);
    let second = gs.apply_fetch_outcome(&mut reg, &oid, Some(b"some test data\n".to_vec()), &mut counters);
    assert_eq!(second, VisitOutcome::Skipped);
    assert_eq!(counters.searched, 1);
    assert_eq!(counters.skipped, 1);
    assert_eq!(counters.failures, 0);
}

#[test]
fn distinct_identifiers_are_all_searched() {
    let mut gs = GitSearcher::new("needle", false).unwrap();
    let mut reg = DedupRegistry::new();
    let mut counters = RunCounters::new();
    for seed in 0..10u8 {
        let oid = oid_of(seed);
        let outcome = gs.apply_fetch_outcome(&mut reg, &oid, Some(b"plain text\n".to_vec()), &mut counters);
        assert_eq!(outcome, VisitOutcome::Searched);
    }
    assert_eq!(counters.searched, 10);
    assert_eq!(counters.skipped, 0);
    assert_eq!(counters.failures, 0);
}

#[test]
fn idempotent_skip_on_second_pass() {
    let mut gs = GitSearcher::new("needle", false).unwrap();
    let mut reg = DedupRegistry::new();
    let mut counters = RunCounters::new();
    for seed in 0..5u8 {
        gs.apply_fetch_outcome(&mut reg, &oid_of(seed), Some(b"line\n".to_vec()), &mut counters);
    }
    assert_eq!(counters.searched, 5);
    for seed in 0..5u8 {
        gs.apply_fetch_outcome(&mut reg, &oid_of(seed), Some(b"line\n".to_vec()), &mut counters);
    }
    assert_eq!(counters.searched, 5);
    assert_eq!(counters.skipped, 5);
}

#[test]
fn one_unreadable_object_does_not_stop_the_rest() {
    let mut gs = GitSearcher::new("needle", false).unwrap();
    let mut reg = DedupRegistry::new();
    let mut counters = RunCounters::new();
    for seed in 0..10u8 {
        gs.apply_fetch_outcome(&mut reg, &oid_of(seed), Some(b"readable\n".to_vec()), &mut counters);
    }
    let broken = oid_of(99);
    let outcome = gs.apply_fetch_outcome(&mut reg, &broken, None, &mut counters);
    assert_eq!(outcome, VisitOutcome::FetchFailed);
    assert_eq!(counters.searched, 10);
    assert_eq!(counters.failures, 1);
    assert_eq!(counters.skipped, 0);
    // the failed object is not claimed, so a later visit may try it again
    assert!(!reg.contains(&broken));
    assert!(reg.contains(&oid_of(0)));
}

#[test]
fn component_names_are_screened() {
    assert!(git_rg::paths::name_ok(&b"file.txt".to_vec()));
    assert!(!git_rg::paths::name_ok(&Vec::new()));
    assert!(!git_rg::paths::name_ok(&b"a/b".to_vec()));
}

#[test]
fn counters_start_at_zero() {
    let counters = RunCounters::new();
    assert_eq!(counters.searched, 0);
    assert_eq!(counters.skipped, 0);
    assert_eq!(counters.failures, 0);
}
