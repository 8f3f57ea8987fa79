use proof_of_heart::error::Error;
use proof_of_heart::saved_list::{add_bookmark, find_bookmark, is_bookmarked, remove_bookmark};
use soroban_sdk::testutils::EnvTestConfig;
use soroban_sdk::{Env, IntoVal, Symbol, TryFromVal, Val, Vec};

fn env() -> Env {
    Env::new_with_config(EnvTestConfig {
        capture_snapshot_at_drop: false,
    })
}

fn list(env: &Env, ids: &[u32]) -> Vec<u32> {
    let mut v = Vec::new(env);
    for id in ids {
        v.push_back(*id);
    }
    v
}

fn items(v: &Vec<u32>) -> std::vec::Vec<u32> {
    v.iter().collect()
}

#[test]
fn add_bookmark_appends_new_id() {
    let env = env();
    let mut v = list(&env, &[4, 9]);
    assert_eq!(add_bookmark(&mut v, 7), Ok(()));
    assert_eq!(items(&v), [4, 9, 7]);
}

#[test]
fn add_bookmark_to_empty_list() {
    let env = env();
    let mut v = list(&env, &[]);
    assert_eq!(add_bookmark(&mut v, 0), Ok(()));
    assert_eq!(items(&v), [0]);
}

#[test]
fn add_bookmark_refuses_present_id() {
    let env = env();
    let mut v = list(&env, &[4, 9]);
    assert_eq!(add_bookmark(&mut v, 9), Err(Error::CampaignAlreadyBookmarked));
    assert_eq!(items(&v), [4, 9]);
}

#[test]
fn remove_bookmark_removes_first_occurrence_only() {
    let env = env();
    let mut v = list(&env, &[5, 8, 3, 8]);
    assert_eq!(remove_bookmark(&mut v, 8), Ok(()));
    assert_eq!(items(&v), [5, 3, 8]);
}

#[test]
fn remove_bookmark_first_and_last() {
    let env = env();
    let mut v = list(&env, &[1, 2, 3]);
    assert_eq!(remove_bookmark(&mut v, 1), Ok(()));
    assert_eq!(items(&v), [2, 3]);
    assert_eq!(remove_bookmark(&mut v, 3), Ok(()));
    assert_eq!(items(&v), [2]);
}

#[test]
fn remove_bookmark_refuses_absent_id() {
    let env = env();
    let mut v = list(&env, &[1, 2, 3]);
    assert_eq!(remove_bookmark(&mut v, 4), Err(Error::CampaignNotBookmarked));
    assert_eq!(items(&v), [1, 2, 3]);
    let mut empty = list(&env, &[]);
    assert_eq!(
        remove_bookmark(&mut empty, 0),
        Err(Error::CampaignNotBookmarked)
    );
}

#[test]
fn find_bookmark_gives_first_position() {
    let env = env();
    let v = list(&env, &[6, 2, 6]);
    assert_eq!(find_bookmark(&v, 6), Some(0));
    assert_eq!(find_bookmark(&v, 2), Some(1));
    assert_eq!(find_bookmark(&v, 7), None);
    assert!(is_bookmarked(&v, 2));
    assert!(!is_bookmarked(&v, 7));
}

#[test]
fn save_then_remove_restores_list() {
    let env = env();
    let mut v = list(&env, &[10, 20]);
    add_bookmark(&mut v, 30).unwrap();
    remove_bookmark(&mut v, 30).unwrap();
    assert_eq!(items(&v), [10, 20]);
}

#[test]
fn second_save_is_refused() {
    let env = env();
    let mut v = list(&env, &[10]);
    add_bookmark(&mut v, 11).unwrap();
    assert_eq!(add_bookmark(&mut v, 11), Err(Error::CampaignAlreadyBookmarked));
    assert_eq!(items(&v), [10, 11]);
}

#[test]
fn removing_one_id_keeps_the_others() {
    let env = env();
    let mut v = list(&env, &[1, 2, 3, 4]);
    remove_bookmark(&mut v, 3).unwrap();
    assert_eq!(items(&v), [1, 2, 4]);
    assert!(!is_bookmarked(&v, 3));
    assert!(is_bookmarked(&v, 1) && is_bookmarked(&v, 2) && is_bookmarked(&v, 4));
}

#[test]
fn items_of_another_kind_are_skipped_not_fatal() {
    let env = env();
    let mut raw: Vec<Val> = Vec::new(&env);
    raw.push_back(Symbol::new(&env, "odd").into_val(&env));
    raw.push_back(7u32.into_val(&env));
    let mut v: Vec<u32> = Vec::try_from_val(&env, &raw.to_val()).unwrap();
    assert_eq!(find_bookmark(&v, 7), Some(1));
    assert!(!is_bookmarked(&v, 3));
    assert_eq!(add_bookmark(&mut v, 7), Err(Error::CampaignAlreadyBookmarked));
    assert_eq!(remove_bookmark(&mut v, 7), Ok(()));
    assert_eq!(v.len(), 1);
    assert_eq!(add_bookmark(&mut v, 3), Ok(()));
    assert_eq!(find_bookmark(&v, 3), Some(1));
}
