use supervisor::capabilities::storage::controller::{
    absolute_path, file_text, load, temporary_path, Outcome, Refusal, StorageController,
};
use supervisor::table::Table;

const PATH: &str = "/home/me/settings.json";

fn table(entries: &[(&str, &str)]) -> Table {
    let entries: Vec<(String, String)> =
        entries.iter().map(|(key, value)| (key.to_string(), value.to_string())).collect();
    Table::of(&entries)
}

/// What a file holding `text` loads as.
fn holding(text: &str) -> Result<Option<Table>, String> {
    load(Ok(Some(text.to_string())))
}

fn absent() -> Result<Option<Table>, String> {
    load(Ok(None))
}

fn stored(controller: &StorageController, entries: &[(&str, &str)]) -> bool {
    controller.values(PATH).is_some_and(|values| values.same(&table(entries)))
}

#[test]
fn defaults_fill_a_file_that_does_not_exist_yet() {
    let mut controller = StorageController::new();
    assert!(controller.declares(PATH));

    let outcome = controller.open(PATH, "{\"theme\":\"mocha\",\"dnd\":false}", absent());

    assert_eq!(outcome, Ok(Outcome { save: true, push: true }));
    assert!(stored(&controller, &[("theme", "\"mocha\""), ("dnd", "false")]));
}

#[test]
fn a_stored_key_wins_over_a_default_and_a_new_default_is_added_beside_it() {
    let mut controller = StorageController::new();

    controller.open(PATH, "{\"theme\":\"mocha\",\"dnd\":true}", holding("{ \"theme\": \"latte\" }")).unwrap();

    assert!(stored(&controller, &[("theme", "\"latte\""), ("dnd", "true")]));
}

#[test]
fn a_reopen_does_not_re_read_the_file_under_a_live_write() {
    let mut controller = StorageController::new();
    controller.open(PATH, "{\"theme\":\"mocha\"}", absent()).unwrap();

    controller.set(PATH, "theme", "\"latte\"").unwrap();
    assert!(!controller.declares(PATH));
    controller.open(PATH, "{\"theme\":\"mocha\"}", absent()).unwrap();

    assert!(
        stored(&controller, &[("theme", "\"latte\"")]),
        "the in-memory copy is newer than the disk one by the time an evaluation re-declares it"
    );
}

#[test]
fn only_a_first_declaration_or_a_new_default_pushes() {
    let mut controller = StorageController::new();
    let mut pushes = |defaults: &str| {
        controller.open(PATH, defaults, holding("{\"theme\":\"latte\"}")).unwrap().push
    };
    assert!(
        pushes("{\"theme\":\"mocha\"}"),
        "a first declaration pushes even when the file already holds every default"
    );
    assert!(!pushes("{\"theme\":\"mocha\"}"), "re-declaring on each evaluation pushes nothing");
    assert!(pushes("{\"dnd\":true}"));
}

#[test]
fn a_write_takes_a_table_and_a_nil_deletes_the_key() {
    let mut controller = StorageController::new();
    controller.open(PATH, "{}", absent()).unwrap();

    controller.set(PATH, "wallpaper", "{\"path\":\"/w/1.jpg\",\"fit\":\"cover\"}").unwrap();
    assert!(stored(&controller, &[("wallpaper", "{\"path\":\"/w/1.jpg\",\"fit\":\"cover\"}")]));

    controller.set(PATH, "wallpaper", "null").unwrap();
    assert!(stored(&controller, &[]));
}

#[test]
fn a_write_that_changes_nothing_pushes_nothing_and_still_saves() {
    let mut controller = StorageController::new();
    controller.open(PATH, "{}", holding("{\"fit\":\"cover\"}")).unwrap();

    assert_eq!(controller.set(PATH, "fit", "\"cover\""), Ok(Outcome { save: true, push: false }));
    assert_eq!(controller.set(PATH, "never-stored", "null"), Ok(Outcome { save: true, push: false }));
    let step = controller.sync(PATH, absent(), true).unwrap();
    assert!(step.write.is_some_and(|values| values.same(&table(&[("fit", "\"cover\"")]))));
    controller.saved(PATH, table(&[("fit", "\"cover\"")]));

    let step = controller.sync(PATH, holding("{\"fit\":\"cover\"}"), false).unwrap();
    assert!(!step.push && step.write.is_none(), "the watch saw our rename and found nothing new");
    let step = controller.sync(PATH, holding("{\"fit\":\"fill\"}"), false).unwrap();
    assert!(step.push);
    assert!(stored(&controller, &[("fit", "\"fill\"")]));

    assert_eq!(controller.set(PATH, "fit", "\"contain\""), Ok(Outcome { save: true, push: true }));
}

#[test]
fn a_write_to_a_file_no_config_declared_is_refused() {
    let mut controller = StorageController::new();

    assert_eq!(controller.set("/tmp/never-opened.json", "key", "1"), Err(Refusal::Undeclared));

    assert!(controller.snapshot().is_empty());
}

#[test]
fn a_relative_path_is_refused_rather_than_resolved_against_the_working_directory() {
    let mut controller = StorageController::new();
    assert!(!absolute_path("settings.json"));

    assert_eq!(controller.open("settings.json", "{\"theme\":\"mocha\"}", absent()), Err(Refusal::Relative));

    assert!(controller.snapshot().is_empty());
}

#[test]
fn a_key_cannot_be_empty() {
    let mut controller = StorageController::new();
    controller.open(PATH, "{}", absent()).unwrap();
    assert_eq!(controller.set(PATH, "", "1"), Err(Refusal::EmptyKey));
}

#[test]
fn the_last_write_of_a_burst_is_the_one_that_reaches_the_disk() {
    let mut controller = StorageController::new();
    controller.open(PATH, "{}", absent()).unwrap();

    for value in 1..=5 {
        controller.set(PATH, "scroll", &value.to_string()).unwrap();
    }

    let step = controller.sync(PATH, absent(), true).unwrap();
    let written = file_text(&step.write.unwrap()).unwrap();
    assert!(holding(&written).unwrap().unwrap().same(&table(&[("scroll", "5")])));
}

#[test]
fn a_save_goes_through_a_temporary_no_table_can_be_named() {
    assert_eq!(temporary_path("/home/me/state.json", 42), "/home/me/.state.json.42.tmp");
}

#[test]
fn what_was_saved_reads_back_through_a_fresh_controller() {
    let mut first = StorageController::new();
    first.open(PATH, "{}", absent()).unwrap();
    first.set(PATH, "theme", "\"latte\"").unwrap();
    let written = file_text(&first.sync(PATH, absent(), true).unwrap().write.unwrap()).unwrap();
    assert_eq!(written, "{\n  \"theme\": \"latte\"\n}\n");

    let mut second = StorageController::new();
    second.open(PATH, "{\"theme\":\"mocha\"}", holding(&written)).unwrap();

    assert!(stored(&second, &[("theme", "\"latte\"")]), "the round trip is the contract");
}

#[test]
fn a_second_shell_writing_after_the_first_saved_keeps_both_keys() {
    let mut second = StorageController::new();
    second.open(PATH, "{}", absent()).unwrap();

    assert!(second.sync(PATH, holding("{\"wallpaper\":\"/w/1.jpg\"}"), false).unwrap().push);
    second.set(PATH, "theme", "\"latte\"").unwrap();
    let step = second.sync(PATH, holding("{\"wallpaper\":\"/w/1.jpg\"}"), true).unwrap();

    assert!(step
        .write
        .is_some_and(|values| values.same(&table(&[("wallpaper", "\"/w/1.jpg\""), ("theme", "\"latte\"")]))));
}

#[test]
fn an_external_write_is_pushed_whether_renamed_or_in_place() {
    let mut controller = StorageController::new();
    controller.open(PATH, "{\"dnd\":false}", holding("{\"theme\":\"mocha\"}")).unwrap();

    assert!(controller.sync(PATH, holding("{\"theme\":\"latte\"}"), false).unwrap().push);
    assert!(stored(&controller, &[("theme", "\"latte\""), ("dnd", "false")]), "defaults stay");

    assert!(controller.sync(PATH, holding("{\"theme\":\"frappe\"}"), false).unwrap().push);
    assert!(stored(&controller, &[("theme", "\"frappe\""), ("dnd", "false")]));
}

#[test]
fn a_fixed_malformed_file_wins_whole_over_writes_made_while_it_was_broken() {
    let mut controller = StorageController::new();
    controller.open(PATH, "{}", holding("{oops")).unwrap();
    controller.set(PATH, "theme", "\"latte\"").unwrap();
    let step = controller.sync(PATH, holding("{oops"), true).unwrap();
    assert!(step.write.is_none(), "a hand edit gone wrong is the owner's to fix");

    let step = controller.sync(PATH, holding("{\"wallpaper\":\"/w/1.jpg\"}"), false).unwrap();
    assert!(step.push);
    assert!(stored(&controller, &[("wallpaper", "\"/w/1.jpg\"")]), "the newer edit wins");
    assert!(step.write.is_none(), "nothing rewrites a file the shell agrees with");
}

#[test]
fn a_file_fixed_before_a_save_reads_it_logs_the_next_break_again() {
    let mut controller = StorageController::new();
    controller.open(PATH, "{}", absent()).unwrap();

    let logged = controller.sync(PATH, holding("{oops"), false).unwrap().logged.expect("a break is logged");
    assert!(logged.contains("line 1"), "{logged}");
    assert_eq!(controller.sync(PATH, holding("{oops"), false).unwrap().logged, None, "once");
    let mended = controller.sync(PATH, holding("{}"), true).unwrap();
    assert_eq!(mended.logged, None);
    assert!(mended.readable_again, "and so is the mend");
    assert!(!controller.sync(PATH, holding("{}"), true).unwrap().readable_again, "once");
    assert!(
        controller.sync(PATH, holding("{oops"), false).unwrap().logged.is_some(),
        "a save that finds the file fixed must re-arm the log for the same breakage"
    );
}

#[test]
fn a_value_that_is_no_json_cannot_be_written() {
    assert_eq!(file_text(&table(&[("a", "not json")])), None);
    assert!(load(Err("EACCES".to_string())).is_err());
    assert!(holding("[1]").is_err(), "a store is an object");
}

#[test]
fn an_event_concerns_the_files_of_its_name() {
    let mut controller = StorageController::new();
    controller.open("/a/state.json", "{}", absent()).unwrap();
    controller.open("/b/other.json", "{}", absent()).unwrap();
    assert_eq!(controller.concerned(Some("state.json")), vec!["/a/state.json".to_string()]);
    assert_eq!(controller.concerned(None).len(), 2, "an overflow may have lost any name");
    assert!(controller.sync("/c/none.json", absent(), false).is_none());
}

#[test]
fn a_minus_zero_over_a_zero_changes_nothing() {
    let mut controller = StorageController::new();
    controller.open(PATH, "{}", holding("{\"x\":0.0,\"at\":[0.0,1]}")).unwrap();
    assert_eq!(controller.set(PATH, "x", "-0.0"), Ok(Outcome { save: true, push: false }));
    assert_eq!(controller.values(PATH).unwrap().get("x"), Some("0.0"), "the value that was there stays");
    assert_eq!(controller.set(PATH, "at", "[-0.0,1]"), Ok(Outcome { save: true, push: false }));
    assert!(!controller.sync(PATH, holding("{\"x\":-0.0,\"at\":[0.0,1]}"), false).unwrap().push);
    assert_eq!(controller.set(PATH, "x", "0"), Ok(Outcome { save: true, push: true }), "no float");
    assert_eq!(controller.set(PATH, "x", "-0.5"), Ok(Outcome { save: true, push: true }));
    assert_eq!(controller.set(PATH, "x", "\"-0.0\""), Ok(Outcome { save: true, push: true }));
    assert_eq!(controller.set(PATH, "x", "\"0.0\""), Ok(Outcome { save: true, push: true }), "texts are texts");
}

#[test]
fn a_float_is_written_as_the_one_that_is_held() {
    let text = file_text(&table(&[("x", "0.9452706955539223")])).unwrap();
    assert!(text.contains("0.9452706955539223"), "{text}");
    assert!(holding(&text).unwrap().unwrap().same(&table(&[("x", "0.9452706955539223")])));
}
