use std::path::{Path, PathBuf};

use tinyvox::store::{DictionaryStore, StatsStore};

#[test]
fn dictionary_store_keeps_its_path() {
    let path = PathBuf::from("data").join("dictionary.json");
    let store = DictionaryStore::new(&path);
    assert_eq!(store.path(), &path);
    let store = DictionaryStore::new("dictionary.json");
    assert_eq!(store.path().as_path(), Path::new("dictionary.json"));
}

#[test]
fn stats_store_keeps_its_path() {
    let store = StatsStore::new(PathBuf::from("stats.json"));
    assert_eq!(store.path(), &PathBuf::from("stats.json"));
}
