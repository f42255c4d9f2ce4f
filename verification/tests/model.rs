use topspin::app_data::AppData;
use topspin::model::{
    program_id, ExitStatus, OsError, ProgramId, ProgramIdGen, ProgramMap, RunResponse,
};

#[test]
fn test_program_map() {
    let mut map: ProgramMap<String> = ProgramMap::new();
    let key = program_id(4);
    map.insert(key, "A".to_string());
    let prev = map.insert(key, "B".to_string()).unwrap();
    assert_eq!(prev, "A");
    assert_eq!(map.get(key).unwrap(), "B");
}

#[test]
fn remove_never_inserted_is_none() {
    let mut map: ProgramMap<u32> = ProgramMap::new();
    assert_eq!(map.remove(program_id(0)), None);
    assert_eq!(map.remove(program_id(17)), None);
    map.insert(program_id(2), 5);
    assert_eq!(map.remove(program_id(1)), None);
    assert_eq!(map.remove(program_id(2)), Some(5));
    assert_eq!(map.remove(program_id(2)), None);
}

#[test]
fn get_mut_changes_only_that_key() {
    let mut map: ProgramMap<u32> = ProgramMap::with_capacity(8);
    map.insert(program_id(0), 10);
    map.insert(program_id(3), 30);
    assert!(map.get_mut(program_id(1)).is_none());
    *map.get_mut(program_id(3)).unwrap() = 31;
    assert_eq!(map.get(program_id(0)), Some(&10));
    assert_eq!(map.get(program_id(3)), Some(&31));
    assert_eq!(map.get(program_id(2)), None);
}

#[test]
fn drain_yields_values_in_slot_order() {
    let mut map: ProgramMap<&str> = ProgramMap::new();
    map.insert(program_id(4), "four");
    map.insert(program_id(1), "one");
    map.insert(program_id(6), "six");
    map.remove(program_id(1));
    let drained = map.drain();
    assert_eq!(drained, vec!["four", "six"]);
    assert_eq!(map.get(program_id(4)), None);
    assert_eq!(map.drain(), Vec::<&str>::new());
}

#[test]
fn next_id_never_reuses_identifiers() {
    let mut app = AppData::new();
    let first = app.next_id();
    let second = app.next_id();
    let third = app.next_id();
    assert_eq!(first, program_id(0));
    assert_eq!(second, program_id(1));
    assert_eq!(third, program_id(2));
    assert_ne!(first, second);
    assert_ne!(second, third);
    assert_ne!(first, third);
}

#[test]
fn counter_borrow_feeds_next_id() {
    let mut app = AppData::new();
    *app.counter() = 40;
    assert_eq!(app.next_id(), program_id(40));
    assert_eq!(*app.counter(), 41);
}

#[test]
fn program_id_indexes_by_value() {
    let id: ProgramId = program_id(9);
    assert_eq!(id.as_index(), 9);
}

#[test]
fn run_response_names_its_program() {
    assert_eq!(
        RunResponse::Started(program_id(3), 555).program_id(),
        program_id(3)
    );
    assert_eq!(
        RunResponse::Exited(program_id(4), ExitStatus(0)).program_id(),
        program_id(4)
    );
    assert_eq!(
        RunResponse::IoError(program_id(5), OsError(2)).program_id(),
        program_id(5)
    );
}
