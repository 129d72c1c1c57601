use barq_memory::id::MemoryId;
use barq_memory::repair::index_repair_plan;

fn ids(v: &[u128]) -> Vec<MemoryId> {
    v.iter().map(|&x| MemoryId::from_uuid(x)).collect()
}

#[test]
fn repair_removes_ghosts_and_reindexes_missing() {
    let active = ids(&[1, 2, 3]);
    let indexed = ids(&[2, 9, 9, 4]);
    let (ghosts, missing) = index_repair_plan(&active, &indexed);
    assert_eq!(ghosts, ids(&[9, 4]));
    assert_eq!(missing, ids(&[1, 3]));
}

#[test]
fn repairing_twice_changes_nothing() {
    let active = ids(&[5, 6, 7]);
    let indexed = ids(&[6, 8]);
    let (ghosts, missing) = index_repair_plan(&active, &indexed);
    let mut repaired: Vec<MemoryId> = indexed.iter().copied().filter(|x| !ghosts.contains(x)).collect();
    repaired.extend(missing);
    let (ghosts2, missing2) = index_repair_plan(&active, &repaired);
    assert!(ghosts2.is_empty());
    assert!(missing2.is_empty());
}

#[test]
fn an_empty_index_reindexes_everything() {
    let active = ids(&[1, 2]);
    let (ghosts, missing) = index_repair_plan(&active, &Vec::new());
    assert!(ghosts.is_empty());
    assert_eq!(missing, active);
}
