use node_store::errors::ErrorKind;
use node_store::persistence::{
    CommitFailed, CommitState, PersistenceOperationGuard, StoreOperation,
};

fn text(operation: &StoreOperation) -> String {
    match operation {
        StoreOperation::Write { primary_namespace, secondary_namespace, key, value } => {
            format!("write {}/{}/{} {:?}", primary_namespace, secondary_namespace, key, value)
        }
        StoreOperation::Remove { primary_namespace, secondary_namespace, key } => {
            format!("remove {}/{}/{}", primary_namespace, secondary_namespace, key)
        }
    }
}

fn texts(operations: &[StoreOperation]) -> Vec<String> {
    operations.iter().map(text).collect()
}

#[test]
fn operations_are_batched_in_order() {
    let mut state = CommitState::new();
    state.queue_write("a", "b", "c", vec![1, 2]);
    state.queue_remove("d", "e", "f", false);
    state.queue_remove("d", "e", "g", true);
    state.queue_write("a", "b", "c", vec![]);
    assert_eq!(
        texts(&state.start_commit()),
        vec!["write a/b/c [1, 2]", "remove d/e/f", "remove d/e/g", "write a/b/c []"]
    );
    assert!(state.start_commit().is_empty());
}

#[test]
fn written_batch_raises_the_generation() {
    let mut state = CommitState::new();
    assert_eq!(state.commit_generation(), 0);
    assert_eq!(state.poll_commit(0), None);
    assert_eq!(state.finish_commit::<String>(Ok(())), Ok(()));
    assert_eq!(state.commit_generation(), 1);
    assert_eq!(state.poll_commit(0), Some(Ok(())));
    assert_eq!(state.poll_commit(1), None);
}

#[test]
fn failed_batch_fails_everyone_for_good() {
    let mut state = CommitState::new();
    state.queue_write("a", "b", "c", vec![1]);
    assert_eq!(state.start_commit().len(), 1);
    assert_eq!(state.finish_commit(Err("disk full")), Err("disk full"));
    assert_eq!(state.commit_generation(), 0);
    assert_eq!(state.poll_commit(0), Some(Err(CommitFailed)));
    assert!(state.start_commit().is_empty());
    assert_eq!(state.finish_commit::<String>(Ok(())), Ok(()));
    assert_eq!(state.commit_generation(), 1);
    assert_eq!(state.poll_commit(0), Some(Err(CommitFailed)));
    assert_eq!(CommitFailed.message(), "atomic persistence batch failed");
    assert_eq!(CommitFailed.kind(), ErrorKind::Other);
}

#[test]
fn one_section_runs_at_a_time() {
    let mut state = CommitState::new();
    assert!(state.begin_operation());
    assert!(!state.begin_operation());
    assert!(!state.begin_atomic_commit());
    state.end_operation();
    assert!(state.begin_atomic_commit());
    assert!(!state.begin_operation());
    assert!(!state.begin_atomic_commit());
    state.end_atomic_commit();
    assert!(state.begin_operation());
}

#[test]
fn queueing_needs_no_section() {
    let mut state = CommitState::new();
    state.queue_write("a", "b", "1", vec![]);
    assert!(state.begin_atomic_commit());
    assert_eq!(state.start_commit().len(), 1);
    state.queue_write("a", "b", "2", vec![]);
    assert_eq!(texts(&state.start_commit()), vec!["write a/b/2 []"]);
}

#[test]
fn guard_waits_for_the_commit_of_its_operation() {
    let mut state = CommitState::new();
    assert_eq!(state.finish_commit::<String>(Ok(())), Ok(()));
    let guard = PersistenceOperationGuard::new(&mut state).unwrap();
    assert!(PersistenceOperationGuard::new(&mut state).is_none());
    state.queue_write("a", "b", "c", vec![7]);
    let after = guard.wait_for_commit(&mut state);
    assert_eq!(after, 1);
    assert_eq!(state.poll_commit(after), None);

    assert!(state.begin_atomic_commit());
    assert!(PersistenceOperationGuard::new(&mut state).is_none());
    assert_eq!(texts(&state.start_commit()), vec!["write a/b/c [7]"]);
    assert_eq!(state.finish_commit::<String>(Ok(())), Ok(()));
    state.end_atomic_commit();
    assert_eq!(state.poll_commit(after), Some(Ok(())));
}

#[test]
fn guard_ends_its_operation_once() {
    let mut state = CommitState::new();
    let mut guard = PersistenceOperationGuard::new(&mut state).unwrap();
    guard.release(&mut state);
    assert!(state.begin_atomic_commit());
    guard.release(&mut state);
    assert!(!state.begin_operation());
    state.end_atomic_commit();
    assert!(PersistenceOperationGuard::new(&mut state).is_some());
}

#[test]
fn failure_comes_before_a_raised_generation() {
    let mut state = CommitState::new();
    state.start_commit();
    assert_eq!(state.finish_commit::<&str>(Ok(())), Ok(()));
    state.start_commit();
    assert_eq!(state.finish_commit(Err("disk")), Err("disk"));
    assert_eq!(state.commit_generation(), 1);
    let error = state.poll_commit(0).unwrap().unwrap_err();
    assert_eq!(error.kind(), ErrorKind::Other);
    assert_eq!(error.message(), "atomic persistence batch failed");
}

#[test]
fn every_change_is_handed_over_once() {
    let mut state = CommitState::new();
    state.queue_write("a", "b", "1", vec![]);
    let first = state.start_commit();
    state.queue_write("a", "b", "2", vec![]);
    state.queue_remove("a", "b", "1", false);
    // The second commit starts before the first has ended.
    let second = state.start_commit();
    assert_eq!(state.finish_commit(Err("disk")), Err("disk"));
    state.queue_write("a", "b", "3", vec![]);
    let third = state.start_commit();
    assert_eq!(texts(&first), vec!["write a/b/1 []"]);
    assert_eq!(texts(&second), vec!["write a/b/2 []", "remove a/b/1"]);
    assert_eq!(texts(&third), vec!["write a/b/3 []"]);
}

#[test]
fn guard_is_given_up_once() {
    let mut guard = PersistenceOperationGuard::begun(7);
    assert_eq!(guard.commit_generation(), 7);
    assert!(guard.give_up());
    assert!(!guard.give_up());
    assert_eq!(guard.commit_generation(), 7);
}
