use yamengine::app::{App, AppBuilder, AppCommand, AppSettings, RenderFramerate, Timer};
use yamengine::clock::{Duration, Instant};

fn ms(n: u64) -> Instant {
    Instant::from_origin(Duration::from_micros(n * 1000))
}

fn builder() -> AppBuilder {
    let mut b = App::build();
    b.add_layer_to_update(String::from("physics"), 60);
    b.add_layer_to_update(String::from("render"), 30);
    b.add_layer_to_update(String::from("idle"), 5);
    b
}

fn running_app() -> App {
    let mut b = builder();
    b.add_update_system("physics");
    b.add_update_system("physics");
    b.add_update_system("render");
    b.finish(ms(0))
}

#[test]
fn builder_finds_layers_by_name() {
    let b = builder();
    assert_eq!(b.get_update_builder("physics"), Some(0));
    assert_eq!(b.get_update_builder("render"), Some(1));
    assert_eq!(b.get_update_builder("none"), None);
    assert_eq!(b.update_layer_builders().len(), 3);
    assert_eq!(b.update_layer_builders()[2], (String::from("idle"), 5, 0));
}

#[test]
fn builder_counts_systems_per_layer() {
    let mut b = builder();
    assert_eq!(b.add_update_system("render"), 1);
    assert_eq!(b.add_update_system("render"), 1);
    assert_eq!(b.add_update_system("physics"), 0);
    assert_eq!(b.update_layer_builders()[0], (String::from("physics"), 60, 1));
    assert_eq!(b.update_layer_builders()[1], (String::from("render"), 30, 2));
}

#[test]
fn finish_keeps_layers_with_systems() {
    let app = running_app();
    assert_eq!(app.update_layers.len(), 2);
    assert_eq!(app.update_layers[0].name, "physics");
    assert_eq!(app.update_layers[0].schedule, 0);
    assert_eq!(app.update_layers[0].timer.target_ticks, 60);
    assert_eq!(app.update_layers[1].name, "render");
    assert_eq!(app.update_layers[1].schedule, 1);
    assert_eq!(app.update_layers[1].timer.target_delta.as_nanos(), 33_333_333);
    assert_eq!(app.update_layers[1].timer.last_tick, ms(0));
    assert!(!app.update_layers[1].timer.has_ticked);
}

#[test]
fn finish_with_no_systems_runs_no_layer() {
    let app = builder().finish(ms(0));
    assert_eq!(app.update_layers.len(), 0);
}

#[test]
fn layer_runs_when_its_interval_has_passed() {
    let mut app = running_app();
    assert!(app.update_layers[0].timer.update_fits(ms(10)));
    assert!(!app.tick_layer(0, ms(10)));
    assert!(app.tick_layer(0, ms(20)));
    assert_eq!(app.update_layers[0].timer.accumulated_delta.as_nanos(), 20_000_000 - 16_666_666);
    assert!(app.update_layers[0].timer.has_ticked);
    assert!(!app.update_layers[1].timer.has_ticked);
    assert_eq!(app.update_layers[1].timer.last_tick, ms(0));
}

#[test]
fn settings_report_the_layers() {
    let app = running_app();
    let settings = AppSettings::new(&app);
    let layers = settings.iter_update_layer_to_frequency();
    assert_eq!(layers.len(), 2);
    assert_eq!(layers[0], (String::from("physics"), 60));
    assert_eq!(settings.get_update_layer_frequency("render"), 30);
    assert_eq!(settings.get_render_framerate(), RenderFramerate::Normal);
    assert!(!settings.is_fullscreen());
    assert_eq!(settings.get_inner_size(), (0, 0));
    assert_eq!(settings.get_outer_position(), (0, 0));
}

#[test]
fn requested_frequency_is_applied_by_the_app() {
    let mut app = running_app();
    let mut settings = AppSettings::new(&app);
    settings.set_update_layer_frequency(String::from("render"), 120);
    settings.set_visible(true);
    let window_commands = app.parse_settings(&mut settings);
    assert_eq!(window_commands.len(), 1);
    assert!(matches!(window_commands[0], AppCommand::SetWindowVisible(true)));
    assert_eq!(app.update_layers[1].timer.target_ticks, 120);
    assert_eq!(app.update_layers[1].timer.target_delta.as_nanos(), 8_333_333);
    assert_eq!(app.update_layers[0].timer.target_ticks, 60);
    assert!(settings.take_commands().is_none());
}

#[test]
fn later_request_replaces_earlier_one() {
    let app = running_app();
    let mut settings = AppSettings::new(&app);
    assert!(settings.take_commands().is_none());
    settings.set_update_layer_frequency(String::from("physics"), 10);
    settings.set_update_layer_frequency(String::from("physics"), 20);
    let taken = settings.take_commands().unwrap();
    assert_eq!(taken.len(), 1);
    assert!(matches!(&taken[0], AppCommand::SetUpdateLayerFrequency(name, 20) if name == "physics"));
    assert!(settings.take_commands().is_none());
}

#[test]
fn requests_of_different_kinds_are_all_pending() {
    let app = running_app();
    let mut settings = AppSettings::new(&app);
    settings.set_title(String::from("first"));
    settings.set_visible(false);
    settings.set_title(String::from("second"));
    settings.set_render_framerate(RenderFramerate::High);
    let taken = settings.take_commands().unwrap();
    assert_eq!(taken.len(), 3);
    assert!(taken.iter().any(|c| matches!(c, AppCommand::SetWindowTitle(t) if t == "second")));
    assert!(taken.iter().any(|c| matches!(c, AppCommand::SetWindowVisible(false))));
    assert!(taken.iter().any(|c| matches!(c, AppCommand::SetRenderFramerate(RenderFramerate::High))));
    assert!(!taken.iter().any(|c| matches!(c, AppCommand::SetWindowTitle(t) if t == "first")));
}

#[test]
fn layer_timer_accumulates_and_consumes() {
    let mut t = Timer::new(10, ms(0));
    assert!(t.update_fits(ms(150)));
    t.update(ms(150));
    assert_eq!(t.accumulated_delta.as_nanos(), 150_000_000);
    assert!(!t.has_ticked);
    assert!(t.tick());
    assert_eq!(t.accumulated_delta.as_nanos(), 50_000_000);
    assert!(t.has_ticked);
    assert!(!t.tick());
    t.update(ms(160));
    assert!(!t.has_ticked);
    assert_eq!(t.accumulated_delta.as_nanos(), 60_000_000);
    t.set_ticks_per_second(0);
    assert_eq!(t.target_ticks, 0);
    assert!(!t.tick());
}

#[test]
fn render_framerate_defaults_to_normal() {
    assert_eq!(RenderFramerate::default(), RenderFramerate::Normal);
}

#[test]
fn window_requests_are_handed_back() {
    let mut app = running_app();
    let mut settings = AppSettings::new(&app);
    settings.set_inner_size((800, 600));
    settings.set_fullscreen(true);
    settings.set_title(String::from("yam"));
    let window_commands = app.parse_settings(&mut settings);
    assert_eq!(window_commands.len(), 3);
    assert!(window_commands.iter().any(|c| matches!(c, AppCommand::SetWindowInnerSize((800, 600)))));
    assert!(window_commands.iter().any(|c| matches!(c, AppCommand::SetWindowFullScreen(true))));
    assert!(window_commands.iter().any(|c| matches!(c, AppCommand::SetWindowTitle(t) if t == "yam")));
    assert_eq!(app.update_layers[0].timer.target_ticks, 60);
    assert_eq!(app.update_layers[1].timer.target_ticks, 30);
    assert!(app.parse_settings(&mut settings).is_empty());
}

#[test]
fn requests_the_app_cannot_carry_out_are_detected() {
    let app = running_app();
    let mut settings = AppSettings::new(&app);
    assert!(app.parse_settings_fits(&settings));
    settings.set_update_layer_frequency(String::from("physics"), 10);
    assert!(app.parse_settings_fits(&settings));
    settings.set_update_layer_frequency(String::from("idle"), 10);
    assert!(!app.parse_settings_fits(&settings));
    let mut settings = AppSettings::new(&app);
    settings.set_render_framerate(RenderFramerate::Low);
    assert!(!app.parse_settings_fits(&settings));
    assert!(settings.pending_command(1).is_some());
    assert!(settings.pending_command(2).is_none());
}

#[test]
fn layer_runs_once_per_whole_interval() {
    let mut app = running_app();
    let interval = app.update_layers[1].timer.target_delta.as_nanos();
    let mut runs: u128 = 0;
    for &r in [5u64, 33, 34, 70, 70, 150, 151, 400, 401, 1000].iter() {
        if app.tick_layer(1, ms(r)) {
            runs += 1;
        }
        let acc = app.update_layers[1].timer.accumulated_delta.as_nanos();
        assert_eq!(runs * interval + acc, r as u128 * 1_000_000);
    }
}

#[test]
fn requests_for_different_layers_are_all_applied() {
    let mut app = running_app();
    let mut settings = AppSettings::new(&app);
    settings.set_update_layer_frequency(String::from("physics"), 10);
    settings.set_update_layer_frequency(String::from("render"), 20);
    settings.set_update_layer_frequency(String::from("physics"), 15);
    assert_eq!(settings.pending_frequency_requests().len(), 2);
    let window_commands = app.parse_settings(&mut settings);
    assert!(window_commands.is_empty());
    assert_eq!(app.update_layers[0].timer.target_ticks, 15);
    assert_eq!(app.update_layers[0].timer.target_delta.as_nanos(), 66_666_666);
    assert_eq!(app.update_layers[1].timer.target_ticks, 20);
    assert_eq!(app.update_layers[1].timer.target_delta.as_nanos(), 50_000_000);
}

#[test]
fn taken_requests_list_frequencies_first() {
    let app = running_app();
    let mut settings = AppSettings::new(&app);
    settings.set_visible(true);
    settings.set_update_layer_frequency(String::from("a"), 10);
    settings.set_update_layer_frequency(String::from("b"), 20);
    let taken = settings.take_commands().unwrap();
    assert_eq!(taken.len(), 3);
    assert!(matches!(&taken[0], AppCommand::SetUpdateLayerFrequency(n, 10) if n == "a"));
    assert!(matches!(&taken[1], AppCommand::SetUpdateLayerFrequency(n, 20) if n == "b"));
    assert!(matches!(taken[2], AppCommand::SetWindowVisible(true)));
}
