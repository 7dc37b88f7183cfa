use yamengine::clock::{Duration, Instant};
use yamengine::stage::{App, AppBuildError, AppBuilder, AppSettings, AppStageBuilder};

fn ms(n: u64) -> Instant {
    Instant::from_origin(Duration::from_micros(n * 1000))
}

fn two_stages() -> AppBuilder {
    let b = AppBuilder::new().add_stage_builder(AppStageBuilder::new(String::from("first"), 60)).unwrap();
    let second = b.create_stage_builder(String::from("second"), 30).unwrap();
    b.add_stage_builder(second).unwrap()
}

#[test]
fn stage_names_are_unique() {
    let b = two_stages();
    match b.add_stage_builder(AppStageBuilder::new(String::from("first"), 10)) {
        Err(AppBuildError::DuplicateName(rejected)) => {
            assert_eq!(rejected.name(), "first");
            assert_eq!(rejected.frequency(), 10);
        }
        Ok(_) => panic!("a second stage named first was accepted"),
    }
    let b = two_stages();
    assert!(matches!(b.create_stage_builder(String::from("second"), 1), Err(AppBuildError::DuplicateName(_))));
    let third = b.create_stage_builder(String::from("third"), 1).unwrap();
    assert_eq!(third.name(), "third");
    assert_eq!(third.frequency(), 1);
}

#[test]
fn built_stages_are_busy_in_order() {
    let app = two_stages().build(ms(0));
    let busy = app.busy_stage_iter();
    assert_eq!(busy.len(), 2);
    assert_eq!(busy[0].name(), "first");
    assert_eq!(busy[1].name(), "second");
    assert_eq!(app.busy_stage("second").unwrap().frequency(), 30);
    assert!(app.busy_stage("third").is_none());
    assert!(app.is_stage_busy("first"));
    assert!(!app.is_stage_busy("third"));
    assert!(app.spare_stage_iter().is_empty());
    assert!(app.spare_stage("first").is_none());
}

#[test]
fn taking_a_missing_spare_stage_changes_nothing() {
    let mut app = two_stages().build(ms(0));
    assert!(app.take_spare_stage("first").is_none());
    assert_eq!(app.busy_stage_iter().len(), 2);
}

#[test]
fn stage_runs_when_its_interval_has_passed() {
    let mut app = two_stages().build(ms(0));
    assert!(!app.play_stage(1, ms(20)));
    assert!(app.play_stage(1, ms(40)));
    let t = app.busy_stage_iter()[1].timer();
    assert_eq!(t.accumulated_delta.as_nanos(), 40_000_000 - 33_333_333);
    assert!(t.has_ticked);
    assert!(!app.busy_stage_iter()[0].timer().has_ticked);
}

#[test]
fn setting_a_stage_frequency_changes_its_interval() {
    let mut stage = AppStageBuilder::new(String::from("s"), 10).build(ms(0));
    stage.set_frequency(5);
    assert_eq!(stage.frequency(), 5);
    assert_eq!(stage.timer().target_delta.as_nanos(), 200_000_000);
    assert!(!stage.play(ms(100)));
    assert!(stage.play(ms(200)));
}

#[test]
fn empty_applications() {
    let app = App::new();
    assert!(app.busy_stage_iter().is_empty());
    let app = App::from_stages(vec![AppStageBuilder::new(String::from("only"), 1).build(ms(0))]);
    assert!(app.is_stage_busy("only"));
    let mut settings = AppSettings::new();
    settings.quit();
}

#[test]
fn spare_stages_can_be_changed_in_place() {
    let mut app = two_stages().build(ms(0));
    assert!(!app.is_stage_spare("rest"));
    assert!(app.spare_stage_mut("rest").is_none());
    app.spare_stage_iter_mut().push(AppStageBuilder::new(String::from("rest"), 10).build(ms(0)));
    assert!(app.is_stage_spare("rest"));
    assert!(!app.is_stage_busy("rest"));
    assert!(!app.is_stage_spare("first"));
    app.spare_stage_mut("rest").unwrap().set_frequency(5);
    assert_eq!(app.spare_stage("rest").unwrap().frequency(), 5);
    assert_eq!(app.busy_stage_iter().len(), 2);
    let taken = app.take_spare_stage("rest").unwrap();
    assert_eq!(taken.frequency(), 5);
    assert!(!app.is_stage_spare("rest"));
}
