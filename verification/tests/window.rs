use cosmic_applet_ram::config::{CosmicAppletRamConfig, DEFAULT_UPDATE_INTERVAL, ID, VERSION};
use cosmic_applet_ram::units::{Prefix, Standard};
use cosmic_applet_ram::window::{
    interval_of, popup_limits, Command, Message, PopupLimits, Window, PRECISION_MAX,
    PRECISION_MIN, PRECISION_STEP,
};

fn started() -> Window {
    Window::init(CosmicAppletRamConfig::default()).0
}

fn toggle(parent: Option<u64>, fresh: u64) -> Message {
    Message::TogglePopup { parent, fresh }
}

#[test]
fn default_settings() {
    let config = CosmicAppletRamConfig::default();
    assert_eq!(config.precision, 0);
    assert_eq!(config.prefix, Prefix::Auto);
    assert!(config.show_total);
    assert_eq!(config.standard, Standard::Iec);
    assert_eq!(config.update_interval, 1000);
    assert_eq!(DEFAULT_UPDATE_INTERVAL, 1000);
    assert!(config.is_valid());
    assert!(!CosmicAppletRamConfig { update_interval: 0, ..config }.is_valid());
    assert_eq!(ID, "be.samvervaeck.CosmicAppletRAM");
    assert_eq!(VERSION, 1);
}

#[test]
fn init_selects_the_standard_and_samples() {
    let config = CosmicAppletRamConfig {
        precision: 2,
        prefix: Prefix::Mega,
        show_total: false,
        standard: Standard::Si,
        update_interval: 2500,
    };
    let (window, commands) = Window::init(config);
    assert_eq!(commands, [Command::ActivateStandard(Standard::Si), Command::RefreshMetrics]);
    assert_eq!(window.popup(), None);
    assert_eq!(window.used(), 0);
    assert_eq!(window.total(), 0);
    assert_eq!(window.live_config(), config);
    assert_eq!(window.update_interval_text(), "2500");
    assert_eq!(window.timer_period(), 2500);
}

#[test]
fn tick_asks_for_a_sample() {
    let mut window = started();
    assert_eq!(window.update(Message::Tick), [Command::RefreshMetrics]);
    window.refresh_metrics(3 << 30, 16 << 30);
    assert_eq!(window.used(), 3 << 30);
    assert_eq!(window.total(), 16 << 30);
}

#[test]
fn toggling_twice_leaves_no_popup() {
    let mut window = started();
    let opened = window.update(toggle(Some(1), 7));
    assert_eq!(opened, [Command::GetPopup { parent: 1, id: 7, limits: popup_limits() }]);
    assert_eq!(window.popup(), Some(7));
    let closed = window.update(toggle(Some(1), 8));
    assert_eq!(closed, [Command::DestroyPopup(7)]);
    assert_eq!(window.popup(), None);
}

#[test]
fn popup_is_sized_within_the_limits() {
    assert_eq!(
        popup_limits(),
        PopupLimits { min_width: 300, max_width: 372, min_height: 200, max_height: 1080 }
    );
}

#[test]
fn no_main_window_no_popup() {
    let mut window = started();
    assert_eq!(window.update(toggle(None, 7)), []);
    assert_eq!(window.popup(), None);
}

#[test]
fn only_the_open_popup_can_be_reported_closed() {
    let mut window = started();
    assert_eq!(window.update(Message::PopupClosed(7)), []);
    assert_eq!(window.popup(), None);
    window.update(toggle(Some(1), 7));
    assert_eq!(window.update(Message::PopupClosed(6)), []);
    assert_eq!(window.popup(), Some(7));
    assert_eq!(window.update(Message::PopupClosed(7)), []);
    assert_eq!(window.popup(), None);
    assert_eq!(window.update(Message::PopupClosed(7)), []);
    assert_eq!(window.popup(), None);
}

#[test]
fn close_request_becomes_a_message() {
    assert!(matches!(Window::on_close_requested(5), Some(Message::PopupClosed(5))));
}

#[test]
fn user_settings_are_saved_and_put_in_force() {
    let mut window = started();
    assert_eq!(
        window.update(Message::UpdatePrecision(3)),
        [Command::SavePrecision(3), Command::RefreshMetrics]
    );
    assert_eq!(
        window.update(Message::UpdateStandard(Standard::Si)),
        [
            Command::SaveStandard(Standard::Si),
            Command::ActivateStandard(Standard::Si),
            Command::RefreshMetrics
        ]
    );
    assert_eq!(
        window.update(Message::UpdateShowTotal(false)),
        [Command::SaveShowTotal(false), Command::RefreshMetrics]
    );
    assert_eq!(
        window.update(Message::UpdatePrefix(Prefix::Giga)),
        [Command::SavePrefix(Prefix::Giga), Command::RefreshMetrics]
    );
    assert_eq!(
        window.live_config(),
        CosmicAppletRamConfig {
            precision: 3,
            prefix: Prefix::Giga,
            show_total: false,
            standard: Standard::Si,
            update_interval: 1000,
        }
    );
    assert_eq!(window.update_interval_text(), "1000");
}

#[test]
fn a_typed_period_rearms_the_timer() {
    let mut window = started();
    assert_eq!(
        window.update(Message::UpdateInterval(String::from("250"))),
        [Command::SaveUpdateInterval(250), Command::SetTicks(250)]
    );
    assert_eq!(window.timer_period(), 250);
    assert_eq!(window.live_config().update_interval, 250);
    assert_eq!(window.update_interval_text(), "250");
    assert_eq!(
        window.update(Message::UpdateInterval(String::from("+0042"))),
        [Command::SaveUpdateInterval(42), Command::SetTicks(42)]
    );
    assert_eq!(window.update_interval_text(), "+0042");
}

#[test]
fn a_rejected_period_keeps_the_old_one_and_the_text() {
    let mut window = started();
    window.update(Message::UpdateInterval(String::from("250")));
    for text in ["0", "", "abc", "12x", "-5", " 7", "1.5", "000", "99999999999999999999"] {
        assert_eq!(window.update(Message::UpdateInterval(String::from(text))), [], "{text:?}");
        assert_eq!(window.timer_period(), 250);
        assert_eq!(window.live_config().update_interval, 250);
        assert_eq!(window.update_interval_text(), text);
    }
}

#[test]
fn wanted_periods() {
    assert_eq!(interval_of("1000"), Some(1000));
    assert_eq!(interval_of("1"), Some(1));
    assert_eq!(interval_of("0"), None);
    assert_eq!(interval_of("+0"), None);
    assert_eq!(interval_of("ten"), None);
    assert_eq!(interval_of("18446744073709551615"), Some(u64::MAX));
    assert_eq!(interval_of("18446744073709551616"), None);
}

#[test]
fn unchanged_stored_settings_change_nothing() {
    let mut window = started();
    window.update(Message::UpdateInterval(String::from("+250")));
    window.update(toggle(Some(1), 7));
    window.refresh_metrics(10, 20);
    let config = window.live_config();
    assert_eq!(window.update(Message::ConfigChanged(config)), []);
    assert_eq!(window.live_config(), config);
    assert_eq!(window.update_interval_text(), "+250");
    assert_eq!(window.popup(), Some(7));
    assert_eq!((window.used(), window.total()), (10, 20));
}

#[test]
fn changed_stored_settings_are_taken_field_by_field() {
    let mut window = started();
    let precision_only = CosmicAppletRamConfig { precision: 4, ..window.live_config() };
    assert_eq!(window.update(Message::ConfigChanged(precision_only)), []);
    assert_eq!(window.live_config(), precision_only);

    let standard_too = CosmicAppletRamConfig { standard: Standard::Si, ..precision_only };
    assert_eq!(
        window.update(Message::ConfigChanged(standard_too)),
        [Command::ActivateStandard(Standard::Si)]
    );

    window.update(Message::UpdateInterval(String::from("abc")));
    let quiet = CosmicAppletRamConfig { prefix: Prefix::Tera, show_total: false, ..standard_too };
    assert_eq!(window.update(Message::ConfigChanged(quiet)), []);
    assert_eq!(window.update_interval_text(), "abc");

    let everything = CosmicAppletRamConfig {
        precision: 1,
        prefix: Prefix::Kilo,
        show_total: true,
        standard: Standard::Iec,
        update_interval: 5000,
    };
    assert_eq!(
        window.update(Message::ConfigChanged(everything)),
        [Command::ActivateStandard(Standard::Iec), Command::SetTicks(5000)]
    );
    assert_eq!(window.live_config(), everything);
    assert_eq!(window.update_interval_text(), "5000");
    assert_eq!(window.timer_period(), 5000);
    assert_eq!(window.update(Message::ConfigChanged(everything)), []);
}

#[test]
fn setters_change_one_field_each() {
    let mut window = started();
    assert_eq!(window.ui_set_standard(Standard::Si), Command::ActivateStandard(Standard::Si));
    window.ui_set_prefix(Prefix::Peta);
    window.ui_set_precision(9);
    window.ui_set_show_total(false);
    assert_eq!(window.ui_set_update_interval(60_000), Command::SetTicks(60_000));
    assert_eq!(Window::set_ticks(5), Command::SetTicks(5));
    assert_eq!(
        window.live_config(),
        CosmicAppletRamConfig {
            precision: 9,
            prefix: Prefix::Peta,
            show_total: false,
            standard: Standard::Si,
            update_interval: 60_000,
        }
    );
    assert_eq!(window.update_interval_text(), "60000");
}

#[test]
fn panel_shows_used_and_total() {
    let mut window = started();
    window.refresh_metrics(3 << 30, 16 << 30);
    assert_eq!(window.panel_labels(), ["3 GB", " / ", "16 GB"]);
    window.update(Message::UpdateShowTotal(false));
    assert_eq!(window.panel_labels(), ["3 GB"]);
    window.update(Message::UpdateStandard(Standard::Si));
    window.update(Message::UpdatePrecision(2));
    window.update(Message::UpdateShowTotal(true));
    assert_eq!(window.panel_labels(), ["3.22 GiB", " / ", "17.18 GiB"]);
    window.update(Message::UpdatePrefix(Prefix::Mega));
    assert_eq!(window.panel_labels(), ["3221.23 MiB", " / ", "17179.87 MiB"]);
}

#[test]
fn settings_show_what_is_in_force() {
    let mut window = started();
    window.update(Message::UpdatePrefix(Prefix::Tera));
    window.update(Message::UpdatePrecision(7));
    window.update(Message::UpdateInterval(String::from("12 ms")));
    let shown = window.settings();
    assert_eq!(shown.update_interval_text, "12 ms");
    assert_eq!(shown.standard, Standard::Iec);
    assert_eq!(shown.prefix_index, 5);
    assert_eq!(Prefix::from_index(shown.prefix_index), Some(Prefix::Tera));
    assert_eq!(shown.precision, 7);
    assert_eq!(shown.precision_text, "7");
    assert!(shown.show_total);
    assert_eq!((PRECISION_MIN, PRECISION_MAX, PRECISION_STEP), (0, 10, 1));
}
