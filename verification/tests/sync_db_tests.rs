use hbbs::database::{max_database_connections, DbPool};
use hbbs::sync_db::{CycleTaskDb, SyncDb, SyncPolicy};

#[test]
fn tasks_come_out_in_order() {
    let mut q: SyncDb<u32> = SyncDb::new();
    q.push_task(1);
    q.push_task(2);
    q.push_task(3);
    assert_eq!(q.task_len(), 3);
    assert_eq!(q.take_tasks(), vec![1, 2, 3]);
    assert_eq!(q.task_len(), 0);
}

const POLICY: SyncPolicy = SyncPolicy { max_steps: 5, expire_ms: 1000, max_count: 3 };

#[test]
fn batch_due_on_steps() {
    let mut c: CycleTaskDb<u8> = CycleTaskDb::new(0);
    for _ in 0..5 {
        c.inc_step();
    }
    assert!(!c.batch_due(0, POLICY));
    c.inc_step();
    assert!(c.batch_due(0, POLICY));
    assert_eq!(c.take_batch(0, POLICY), Some(vec![]));
    c.batch_done(7);
    assert_eq!((c.db_step, c.expire), (0, 7));
}

#[test]
fn batch_due_on_age_only_when_not_empty() {
    let mut c: CycleTaskDb<u8> = CycleTaskDb::new(0);
    assert!(!c.batch_due(2_000_000_000, POLICY));
    c.insert_sync_task(9);
    assert!(!c.batch_due(1_000_000_000, POLICY));
    assert!(c.batch_due(1_001_000_000, POLICY));
    c.update_expire(1_000_000_000);
    assert!(!c.batch_due(1_001_000_000, POLICY));
}

#[test]
fn batch_due_on_length() {
    let mut c: CycleTaskDb<u8> = CycleTaskDb::new(0);
    for i in 0..3 {
        c.insert_sync_task(i);
    }
    assert_eq!(c.take_batch(0, POLICY), None);
    c.insert_sync_task(3);
    assert_eq!(c.take_batch(0, POLICY), Some(vec![0, 1, 2, 3]));
    assert_eq!(c.sync_to_db.task_len(), 0);
}

#[test]
fn pool_settings() {
    let p = DbPool::new("db_v2.sqlite3");
    assert_eq!(p.url(), "db_v2.sqlite3");
    assert_eq!(p.recycle_count(), 0);
    assert_eq!(max_database_connections(None), 1);
    assert_eq!(max_database_connections(Some("8".to_string())), 8);
    assert_eq!(max_database_connections(Some("eight".to_string())), 1);
}
