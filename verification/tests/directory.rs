use ascending_login::containers::directory::Directory;
use ascending_login::containers::index_set::IndexSet;
use ascending_login::containers::storage::GameServerInfo;

fn info(name: &str, players_on: u64) -> GameServerInfo {
    GameServerInfo {
        name: name.to_string(),
        ip: "10.0.0.1".to_string(),
        port: 7000,
        players_on,
        max_players: 100,
    }
}

fn names_in_order(directory: &Directory) -> Vec<(usize, String)> {
    let mut out = Vec::new();
    let mut i = 0;
    while let Some((id, info)) = directory.get_index(i) {
        out.push((id, info.name.clone()));
        i += 1;
    }
    out
}

/// The name index is the exact inverse of the entries.
fn is_inverse(directory: &Directory, names: &[&str]) -> bool {
    let entries = names_in_order(directory);
    let forward = entries
        .iter()
        .all(|(id, name)| directory.find(name) == Some(*id));
    let backward = names.iter().all(|name| match directory.find(&name.to_string()) {
        Some(id) => directory.get(id).map(|info| info.name.as_str()) == Some(*name),
        None => true,
    });
    forward && backward
}

#[test]
fn new_directory_is_empty() {
    let directory = Directory::new();
    assert_eq!(directory.len(), 0);
    assert!(directory.get(2).is_none());
    assert!(directory.get_index(0).is_none());
    assert!(directory.find(&"S1".to_string()).is_none());
}

#[test]
fn update_info_adds_entries_in_order() {
    let mut directory = Directory::new();
    directory.update_info(7, info("S1", 1));
    directory.update_info(3, info("S2", 2));
    directory.update_info(9, info("S3", 3));
    assert_eq!(directory.len(), 3);
    assert_eq!(
        names_in_order(&directory),
        vec![(7, "S1".to_string()), (3, "S2".to_string()), (9, "S3".to_string())]
    );
    assert_eq!(directory.find(&"S2".to_string()), Some(3));
    assert_eq!(directory.get(9).unwrap().players_on, 3);
    assert!(is_inverse(&directory, &["S1", "S2", "S3"]));
}

#[test]
fn update_info_overwrites_in_place_and_renames() {
    let mut directory = Directory::new();
    directory.update_info(7, info("S1", 1));
    directory.update_info(3, info("S2", 2));
    directory.update_info(7, info("S9", 50));
    assert_eq!(directory.len(), 2);
    assert_eq!(names_in_order(&directory), vec![(7, "S9".to_string()), (3, "S2".to_string())]);
    assert_eq!(directory.find(&"S1".to_string()), None);
    assert_eq!(directory.find(&"S9".to_string()), Some(7));
    assert_eq!(directory.get(7).unwrap().players_on, 50);
    assert!(is_inverse(&directory, &["S1", "S2", "S9"]));
}

#[test]
fn update_info_with_a_name_in_use_takes_the_name_over() {
    let mut directory = Directory::new();
    directory.update_info(7, info("S1", 1));
    directory.update_info(3, info("S1", 2));
    assert_eq!(directory.len(), 2);
    assert_eq!(directory.find(&"S1".to_string()), Some(3));
    assert_eq!(directory.get(7).unwrap().name, "S1");
    assert!(!is_inverse(&directory, &["S1"]));
    directory.remove(3);
    assert_eq!(directory.find(&"S1".to_string()), None);
    assert_eq!(directory.get(7).unwrap().name, "S1");
}

#[test]
fn update_count_changes_the_counts_alone() {
    let mut directory = Directory::new();
    directory.update_info(7, info("S1", 1));
    assert!(directory.update_count(7, 11, 22));
    let entry = directory.get(7).unwrap();
    assert_eq!(entry.name, "S1");
    assert_eq!(entry.ip, "10.0.0.1");
    assert_eq!(entry.port, 7000);
    assert_eq!(entry.players_on, 11);
    assert_eq!(entry.max_players, 22);
    assert!(!directory.update_count(8, 1, 2));
    assert_eq!(directory.len(), 1);
    assert!(is_inverse(&directory, &["S1"]));
}

#[test]
fn remove_keeps_the_order_of_the_rest() {
    let mut directory = Directory::new();
    for (id, name) in [(2usize, "a"), (3, "b"), (4, "c"), (5, "d")] {
        directory.update_info(id, info(name, 0));
    }
    assert!(directory.remove(3));
    assert!(!directory.remove(3));
    assert_eq!(
        names_in_order(&directory),
        vec![(2, "a".to_string()), (4, "c".to_string()), (5, "d".to_string())]
    );
    assert_eq!(directory.find(&"b".to_string()), None);
    assert_eq!(directory.find(&"c".to_string()), Some(4));
    assert!(is_inverse(&directory, &["a", "b", "c", "d"]));
}

#[test]
fn index_set_inserts_once_and_swap_removes() {
    let mut set = IndexSet::new();
    assert!(set.is_empty());
    assert!(set.insert(5));
    assert!(set.insert(6));
    assert!(set.insert(7));
    assert!(!set.insert(6));
    assert_eq!(set.snapshot(), vec![5, 6, 7]);
    assert_eq!(set.len(), 3);
    assert!(set.contains(6));
    assert_eq!(set.get_index_of(7), Some(2));
    assert_eq!(set.get_index(1), Some(6));
    assert_eq!(set.get_index(3), None);
    assert!(set.swap_remove(5));
    assert_eq!(set.snapshot(), vec![7, 6]);
    assert!(!set.swap_remove(5));
    assert!(set.swap_remove(6));
    assert_eq!(set.snapshot(), vec![7]);
    assert!(set.swap_remove(7));
    assert!(set.is_empty());
}
