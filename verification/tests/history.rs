use agentic_robot::history::{
    present_entries, recent_names, retention_excess, retention_victims, take_newest_first, take_oldest, DiskHistoryStore, EntryDisk,
    HistoryEntry, HistoryStore, InMemoryHistoryStore, MemoryDisk,
};
use agentic_robot::listing::{name_le, sort_names};
use agentic_robot::speed::Speed;
use agentic_robot::time::Timestamp;

fn speed(v: f32) -> Speed {
    Speed::from_bits(v.to_bits())
}

fn value(s: Speed) -> f32 {
    f32::from_bits(s.bits)
}

#[test]
fn in_memory_store_creates_entries() {
    let mut store = InMemoryHistoryStore::new(100);
    let id = store.create_entry("/tmp/frame.jpg").unwrap();
    assert_eq!(id, "entry-0");
    assert_eq!(store.entry_count(), 1);
}

#[test]
fn in_memory_store_appends_reasoning() {
    let mut store = InMemoryHistoryStore::new(100);
    store.create_entry("/tmp/frame.jpg").unwrap();
    store.append_reasoning("I see a wall ahead").unwrap();
    store.append_reasoning("Turning right").unwrap();

    let entries = store.recent(1);
    assert_eq!(entries[0].reasoning.len(), 2);
    assert_eq!(entries[0].reasoning[0], "I see a wall ahead");
}

#[test]
fn in_memory_store_records_command() {
    let mut store = InMemoryHistoryStore::new(100);
    store.create_entry("/tmp/frame.jpg").unwrap();
    store.record_command(speed(0.5), speed(-0.3)).unwrap();

    let entries = store.recent(1);
    let cmd = entries[0].command.as_ref().unwrap();
    assert!((value(cmd.left) - 0.5).abs() < f32::EPSILON);
    assert!((value(cmd.right) - (-0.3)).abs() < f32::EPSILON);
}

#[test]
fn in_memory_store_enforces_retention() {
    let mut store = InMemoryHistoryStore::new(3);
    for i in 0..5 {
        store.create_entry(&format!("/tmp/frame{i}.jpg")).unwrap();
    }
    assert_eq!(store.entry_count(), 3);
}

#[test]
fn in_memory_store_recent_returns_newest_first() {
    let mut store = InMemoryHistoryStore::new(100);
    store.create_entry("/tmp/frame0.jpg").unwrap();
    store.create_entry("/tmp/frame1.jpg").unwrap();
    store.create_entry("/tmp/frame2.jpg").unwrap();

    let entries = store.recent(2);
    assert_eq!(entries.len(), 2);
    assert_eq!(entries[0].id, "entry-2");
    assert_eq!(entries[1].id, "entry-1");
}

#[test]
fn in_memory_store_retention_keeps_newest_frames() {
    let mut store = InMemoryHistoryStore::new(2);
    for i in 0..4 {
        store.create_entry(&format!("/tmp/frame{i}.jpg")).unwrap();
    }
    let entries = store.recent(10);
    assert_eq!(entries.len(), 2);
    assert_eq!(entries[0].frame_path.as_deref(), Some("/tmp/frame3.jpg"));
    assert_eq!(entries[1].frame_path.as_deref(), Some("/tmp/frame2.jpg"));
    // Ids count the entries held when each was created.
    assert_eq!(entries[0].id, "entry-2");
    assert_eq!(entries[1].id, "entry-2");
}

#[test]
fn in_memory_store_zero_limit_keeps_nothing() {
    let mut store = InMemoryHistoryStore::new(0);
    let id = store.create_entry("/tmp/frame.jpg").unwrap();
    assert_eq!(id, "entry-0");
    assert_eq!(store.entry_count(), 0);
    store.append_reasoning("nothing to attach to").unwrap();
    assert!(store.recent(5).is_empty());
}

#[test]
fn in_memory_store_reasoning_goes_to_latest_only() {
    let mut store = InMemoryHistoryStore::new(10);
    store.create_entry("/tmp/a.jpg").unwrap();
    store.create_entry("/tmp/b.jpg").unwrap();
    store.append_reasoning("about b").unwrap();
    let entries = store.recent(2);
    assert_eq!(entries[0].reasoning, vec!["about b".to_string()]);
    assert!(entries[1].reasoning.is_empty());
}

#[test]
fn record_without_entry_changes_nothing() {
    let mut store = InMemoryHistoryStore::new(10);
    store.record_command(speed(0.6), speed(0.6)).unwrap();
    assert_eq!(store.entry_count(), 0);
}

#[test]
fn disk_store_creates_and_loads() {
    let mut store = DiskHistoryStore::with_disk(MemoryDisk::new(), 100);

    let id = store.create_entry("/tmp/frame.jpg").unwrap();
    assert!(!id.is_empty());

    let entries = store.recent(1);
    assert_eq!(entries.len(), 1);
    assert_eq!(entries[0].frame_path.as_deref(), Some("/tmp/frame.jpg"));
}

#[test]
fn disk_store_enforces_retention() {
    let mut store = DiskHistoryStore::with_disk(MemoryDisk::new(), 2);

    // Entries with unique timestamps.
    for i in 0..4 {
        store
            .create_entry_at(&format!("/tmp/frame{i}.jpg"), Timestamp { secs: 1_776_616_200 + i, nanos: 0 })
            .unwrap();
    }

    assert!(store.entry_count() <= 2);
    let names = store.disk().list_entry_names();
    assert_eq!(names, vec!["2026-04-19T16-30-02".to_string(), "2026-04-19T16-30-03".to_string()]);
    assert_eq!(store.recent(5)[0].frame_path.as_deref(), Some("/tmp/frame3.jpg"));
}

#[test]
fn disk_store_recent_skips_removed_and_keeps_order() {
    let mut store = DiskHistoryStore::with_disk(MemoryDisk::new(), 10);
    for i in 0..3 {
        store
            .create_entry_at(&format!("/tmp/f{i}.jpg"), Timestamp { secs: 1_776_616_200 + i, nanos: 0 })
            .unwrap();
    }
    let recent = store.recent(2);
    assert_eq!(recent.len(), 2);
    assert_eq!(recent[0].id, "2026-04-19T16-30-02");
    assert_eq!(recent[1].id, "2026-04-19T16-30-01");
    assert_eq!(store.entry_count(), 3);
}

#[test]
fn disk_store_entry_id_is_a_timestamp() {
    let mut store = DiskHistoryStore::with_disk(MemoryDisk::new(), 10);
    let id = store
        .create_entry_at("/tmp/f.jpg", Timestamp { secs: 1_776_616_200, nanos: 5 })
        .unwrap();
    assert_eq!(id, "2026-04-19T16-30-00");
}

#[test]
fn disk_store_appends_to_current_entry() {
    let mut store = DiskHistoryStore::with_disk(MemoryDisk::new(), 10);
    store.append_reasoning("before any capture").unwrap();
    assert_eq!(store.entry_count(), 0);
    let id = store.create_entry("/tmp/f.jpg").unwrap();
    store.append_reasoning("wall ahead").unwrap();
    store.record_command(speed(0.6), speed(-0.6)).unwrap();
    let saved = store.disk().load_entry(&id).unwrap();
    assert_eq!(saved.reasoning, vec!["wall ahead".to_string()]);
    let cmd = saved.command.unwrap();
    assert_eq!(value(cmd.left), 0.6);
    assert_eq!(value(cmd.right), -0.6);
}

#[test]
fn retention_helpers() {
    assert_eq!(retention_excess(5, 3), 2);
    assert_eq!(retention_excess(3, 3), 0);
    assert_eq!(retention_excess(1, 3), 0);
    assert_eq!(take_oldest(vec![1, 2, 3, 4], 2), vec![1, 2]);
    assert_eq!(take_oldest(vec![1, 2], 5), vec![1, 2]);
    assert_eq!(take_newest_first(vec![1, 2, 3, 4], 3), vec![4, 3, 2]);
    assert_eq!(take_newest_first(vec![1, 2], 5), vec![2, 1]);
}

#[test]
fn disk_store_retention_goes_by_name_order() {
    // Written out of timestamp order: retention still removes the oldest names.
    let mut store = DiskHistoryStore::with_disk(MemoryDisk::new(), 2);
    for i in [3, 1, 2, 0] {
        store
            .create_entry_at(&format!("/tmp/frame{i}.jpg"), Timestamp { secs: 1_776_616_200 + i, nanos: 0 })
            .unwrap();
    }
    assert_eq!(store.entry_count(), 2);
    let names = store.disk().list_entry_names();
    assert_eq!(names, vec!["2026-04-19T16-30-03".to_string(), "2026-04-19T16-30-02".to_string()]);
    let recent = store.recent(10);
    assert_eq!(recent.len(), 2);
    assert_eq!(recent[0].id, "2026-04-19T16-30-03");
    assert_eq!(recent[1].id, "2026-04-19T16-30-02");
}

/// A disk that refuses every write and counts what it is asked.
struct RefusingDisk {
    saves: usize,
    listings: std::cell::Cell<usize>,
    removals: usize,
}

impl EntryDisk for RefusingDisk {
    fn save_entry(&mut self, _entry: &HistoryEntry) -> Result<(), std::io::Error> {
        self.saves += 1;
        Err(std::io::Error::new(std::io::ErrorKind::Other, "disk full"))
    }

    fn load_entry(&self, _name: &String) -> Option<HistoryEntry> {
        None
    }

    fn list_entry_names(&self) -> Vec<String> {
        self.listings.set(self.listings.get() + 1);
        vec!["a".to_string(), "b".to_string(), "c".to_string()]
    }

    fn remove_entry_dir(&mut self, _name: &String) {
        self.removals += 1;
    }
}

#[test]
fn disk_store_failed_write_prunes_nothing() {
    let disk = RefusingDisk { saves: 0, listings: std::cell::Cell::new(0), removals: 0 };
    let mut store = DiskHistoryStore::with_disk(disk, 1);
    assert!(store.create_entry("/tmp/frame.jpg").is_err());
    assert_eq!(store.disk().saves, 1);
    assert_eq!(store.disk().listings.get(), 0);
    assert_eq!(store.disk().removals, 0);
    // No entry became current, so nothing more is written.
    store.append_reasoning("wall ahead").unwrap();
    assert_eq!(store.disk().saves, 1);
}

#[test]
fn disk_store_recent_skips_unreadable_entries() {
    let disk = RefusingDisk { saves: 0, listings: std::cell::Cell::new(0), removals: 0 };
    let store = DiskHistoryStore::with_disk(disk, 1);
    assert!(store.recent(5).is_empty());
    assert_eq!(store.entry_count(), 3);
}

#[test]
fn memory_disk_reads_back_what_was_written() {
    let mut disk = MemoryDisk::new();
    let mut store = InMemoryHistoryStore::new(10);
    store.create_entry("/tmp/a.jpg").unwrap();
    let mut entry = store.recent(1).remove(0);
    disk.save_entry(&entry).unwrap();
    entry.reasoning.push("turning".to_string());
    disk.save_entry(&entry).unwrap();
    assert_eq!(disk.list_entry_names(), vec![entry.id.clone()]);
    let back = disk.load_entry(&entry.id).unwrap();
    assert_eq!(back.reasoning, vec!["turning".to_string()]);
    disk.remove_entry_dir(&entry.id);
    assert!(disk.list_entry_names().is_empty());
    assert!(disk.load_entry(&entry.id).is_none());
}

#[test]
fn names_sort_byte_by_byte() {
    let names = vec!["b".to_string(), "aa".to_string(), "B".to_string(), "a".to_string(), "b".to_string()];
    assert_eq!(
        sort_names(names),
        vec!["B".to_string(), "a".to_string(), "aa".to_string(), "b".to_string(), "b".to_string()]
    );
    assert!(name_le(&"2026-04-19T16-30-02".to_string(), &"2026-04-19T16-30-03".to_string()));
    assert!(!name_le(&"2026-04-20T00-00-00".to_string(), &"2026-04-19T23-59-59".to_string()));
    assert!(name_le(&"ab".to_string(), &"abc".to_string()));
}

#[test]
fn present_entries_keeps_read_entries_in_order() {
    let mut store = InMemoryHistoryStore::new(10);
    store.create_entry("/tmp/a.jpg").unwrap();
    store.create_entry("/tmp/b.jpg").unwrap();
    let mut recent = store.recent(2);
    let first = recent.remove(0);
    let second = recent.remove(0);
    let loads = vec![None, Some(first), None, Some(second)];
    let got = present_entries(&loads);
    assert_eq!(got.len(), 2);
    assert_eq!(got[0].frame_path.as_deref(), Some("/tmp/b.jpg"));
    assert_eq!(got[1].frame_path.as_deref(), Some("/tmp/a.jpg"));
}

#[test]
fn retention_victims_are_the_oldest_names() {
    let raw = vec![
        "2026-04-19T16-30-03".to_string(),
        "2026-04-19T16-30-00".to_string(),
        "2026-04-19T16-30-02".to_string(),
        "2026-04-19T16-30-01".to_string(),
    ];
    assert_eq!(
        retention_victims(raw.clone(), 1),
        vec!["2026-04-19T16-30-00".to_string(), "2026-04-19T16-30-01".to_string(), "2026-04-19T16-30-02".to_string()]
    );
    assert!(retention_victims(raw.clone(), 4).is_empty());
    assert_eq!(retention_victims(raw.clone(), 0).len(), 4);
    assert_eq!(
        recent_names(raw, 2),
        vec!["2026-04-19T16-30-03".to_string(), "2026-04-19T16-30-02".to_string()]
    );
}
