use rainy_mate::memory::{MemoryEntry, ShortTermMemory};

fn create_test_entry(id: &str, content: &str) -> MemoryEntry {
    MemoryEntry {
        id: id.to_string(),
        content: content.to_string(),
        timestamp: 1_700_000_000,
        tags: vec![],
    }
}

#[test]
fn test_new_memory() {
    let memory = ShortTermMemory::new(10);
    assert_eq!(memory.size(), 0);
    assert_eq!(memory.capacity(), 10);
    assert!(memory.is_empty());
}

#[test]
fn test_add_entry() {
    let mut memory = ShortTermMemory::new(10);
    let entry = create_test_entry("1", "Test");
    memory.add(entry);
    assert_eq!(memory.size(), 1);
    assert!(!memory.is_empty());
}

#[test]
fn test_ring_buffer_eviction() {
    let mut memory = ShortTermMemory::new(2);

    memory.add(create_test_entry("1", "First"));
    memory.add(create_test_entry("2", "Second"));
    assert_eq!(memory.size(), 2);

    memory.add(create_test_entry("3", "Third"));
    assert_eq!(memory.size(), 2);

    let recent = memory.get_recent(10);
    assert_eq!(recent.len(), 2);
    assert_eq!(recent[0].id, "3");
    assert_eq!(recent[1].id, "2");
}

#[test]
fn test_get_recent() {
    let mut memory = ShortTermMemory::new(10);

    for i in 0..5 {
        memory.add(create_test_entry(&i.to_string(), &format!("Entry {}", i)));
    }

    let recent = memory.get_recent(3);
    assert_eq!(recent.len(), 3);
    assert_eq!(recent[0].id, "4");
    assert_eq!(recent[1].id, "3");
    assert_eq!(recent[2].id, "2");
}

#[test]
fn test_get_recent_more_than_available() {
    let mut memory = ShortTermMemory::new(10);

    for i in 0..3 {
        memory.add(create_test_entry(&i.to_string(), &format!("Entry {}", i)));
    }

    let recent = memory.get_recent(10);
    assert_eq!(recent.len(), 3);
}

#[test]
fn test_get_all() {
    let mut memory = ShortTermMemory::new(10);

    for i in 0..3 {
        memory.add(create_test_entry(&i.to_string(), &format!("Entry {}", i)));
    }

    let all = memory.get_all();
    assert_eq!(all.len(), 3);
    assert_eq!(all[0].id, "2");
    assert_eq!(all[1].id, "1");
    assert_eq!(all[2].id, "0");
}

#[test]
fn test_clear() {
    let mut memory = ShortTermMemory::new(10);

    memory.add(create_test_entry("1", "Test"));
    assert_eq!(memory.size(), 1);

    memory.clear();
    assert_eq!(memory.size(), 0);
    assert!(memory.is_empty());
}

#[test]
fn test_capacity() {
    let memory = ShortTermMemory::new(100);
    assert_eq!(memory.capacity(), 100);
}

#[test]
fn test_empty_memory_get_recent() {
    let memory = ShortTermMemory::new(10);
    let recent = memory.get_recent(5);
    assert_eq!(recent.len(), 0);
}

#[test]
fn test_empty_memory_get_all() {
    let memory = ShortTermMemory::new(10);
    let all = memory.get_all();
    assert_eq!(all.len(), 0);
}

#[test]
fn zero_capacity_buffer_keeps_nothing() {
    let mut memory = ShortTermMemory::new(0);
    memory.add(create_test_entry("1", "First"));
    memory.add(create_test_entry("2", "Second"));
    assert_eq!(memory.size(), 0);
    assert!(memory.get_all().is_empty());
}

#[test]
fn entries_keep_their_content_and_tags() {
    let mut memory = ShortTermMemory::new(3);
    memory.add(MemoryEntry {
        id: "a".to_string(),
        content: "alpha".to_string(),
        timestamp: 42,
        tags: vec!["workspace:w".to_string()],
    });
    let got = memory.get_recent(1);
    assert_eq!(got[0].content, "alpha");
    assert_eq!(got[0].timestamp, 42);
    assert_eq!(got[0].tags, vec!["workspace:w".to_string()]);
}
