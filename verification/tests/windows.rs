//! Window identities, geometry, and the delivery handshake.

use std::collections::HashSet;

use sticky_rs::common::Size;
use sticky_rs::handshake::HandshakeRegistry;
use sticky_rs::image_io::{DataURL, ImageContent};
use sticky_rs::manager::WindowManager;
use sticky_rs::scale::{compute_geometry, parse_scale_factor, resolve_scale_override, ConfigError,
    ScaleFactor};
use sticky_rs::window::{main_window_options, window_label};

fn payload(tag: &str) -> DataURL {
    DataURL {
        mime_type: "image/png".to_string(),
        base64_encoded_data: tag.to_string(),
    }
}

fn tiny_image(tag: u8) -> ImageContent {
    ImageContent {
        mime_type: "image/png".to_string(),
        data: vec![tag, tag, tag],
        size: Size { width: 1, height: 1 },
    }
}

#[test]
fn window_label_format() {
    assert_eq!(window_label(0), "main-0");
    assert_eq!(window_label(7), "main-7");
    assert_eq!(window_label(12345), "main-12345");
    assert_eq!(window_label(u64::MAX), format!("main-{}", u64::MAX));
}

#[test]
fn identities_stay_unique_under_stress() {
    let mut seen = HashSet::new();
    let mut manager = WindowManager::new();
    for i in 0..1000u64 {
        let plan = manager.open_image(tiny_image((i % 251) as u8));
        assert!(seen.insert(plan.label.clone()), "duplicate identity {}", plan.label);
        assert_eq!(plan.label, window_label(i));
    }
    assert_eq!(seen.len(), 1000);
    assert_eq!(manager.counter, 1000);
}

#[test]
fn geometry_halves_at_scale_two() {
    let scale = parse_scale_factor("2.0").expect("scale parse failed");
    assert_eq!((scale.num, scale.den), (20, 10));
    let g = compute_geometry(Size { width: 800, height: 600 }, scale);
    assert_eq!(g.physical, Size { width: 800, height: 600 });
    assert_eq!(g.logical.width_num % g.logical.den, 0);
    assert_eq!(g.logical.width_num / g.logical.den, 400);
    assert_eq!(g.logical.height_num % g.logical.den, 0);
    assert_eq!(g.logical.height_num / g.logical.den, 300);
}

#[test]
fn geometry_is_exact_for_fractional_scale() {
    let scale = parse_scale_factor("1.5").expect("scale parse failed");
    assert_eq!((scale.num, scale.den), (15, 10));
    let g = compute_geometry(Size { width: 300, height: 150 }, scale);
    // 300 / 1.5 == 200 and 150 / 1.5 == 100, exactly.
    assert_eq!(g.logical.width_num / g.logical.den, 200);
    assert_eq!(g.logical.width_num % g.logical.den, 0);
    assert_eq!(g.logical.height_num / g.logical.den, 100);
    assert_eq!(g.logical.height_num % g.logical.den, 0);
}

#[test]
fn scale_override_accepts_decimal_literals() {
    assert_eq!(parse_scale_factor("2").unwrap(), ScaleFactor { num: 2, den: 1 });
    assert_eq!(parse_scale_factor("0.5").unwrap(), ScaleFactor { num: 5, den: 10 });
    assert_eq!(parse_scale_factor("1.25").unwrap(), ScaleFactor { num: 125, den: 100 });
    assert_eq!(parse_scale_factor(".5").unwrap(), ScaleFactor { num: 5, den: 10 });
    assert_eq!(parse_scale_factor("3.").unwrap(), ScaleFactor { num: 3, den: 1 });
}

#[test]
fn scale_override_rejects_everything_else() {
    for bad in ["abc", "", "-1", "0", "0.0", ".", "1.2.3", "1e3", "2,5", " 2.0", "NaN"] {
        assert_eq!(
            parse_scale_factor(bad).unwrap_err(),
            ConfigError::InvalidScaleFactor,
            "input {bad:?}"
        );
    }
}

#[test]
fn scale_override_resolution_order() {
    assert_eq!(resolve_scale_override(None), Ok(None));
    assert_eq!(
        resolve_scale_override(Some("2.0")),
        Ok(Some(ScaleFactor { num: 20, den: 10 }))
    );
    assert_eq!(
        resolve_scale_override(Some("abc")),
        Err(ConfigError::InvalidScaleFactor)
    );
}

#[test]
fn handshake_delivers_to_the_right_window_only() {
    let mut reg = HandshakeRegistry::new();
    reg.arm("main-0".to_string(), payload("for-a"));
    reg.arm("main-1".to_string(), payload("for-b"));

    // B's signal arrives first; it must get B's payload, and leave A armed.
    let got_b = reg.on_ready(&"main-1".to_string()).expect("B undelivered");
    assert_eq!(got_b.base64_encoded_data, "for-b");
    let got_a = reg.on_ready(&"main-0".to_string()).expect("A undelivered");
    assert_eq!(got_a.base64_encoded_data, "for-a");
}

#[test]
fn handshake_delivery_is_one_shot() {
    let mut reg = HandshakeRegistry::new();
    reg.arm("main-0".to_string(), payload("once"));
    assert!(reg.on_ready(&"main-0".to_string()).is_some());
    assert!(reg.on_ready(&"main-0".to_string()).is_none());
    assert!(reg.on_ready(&"main-0".to_string()).is_none());
}

#[test]
fn handshake_ignores_unknown_identities() {
    let mut reg = HandshakeRegistry::new();
    reg.arm("main-0".to_string(), payload("kept"));
    assert!(reg.on_ready(&"main-99".to_string()).is_none());
    assert!(reg.on_ready(&"other".to_string()).is_none());
    assert!(reg.on_ready(&"main-0".to_string()).is_some());
}

#[test]
fn closing_a_window_disarms_it() {
    let mut manager = WindowManager::new();
    let plan = manager.open_image(tiny_image(1));
    manager.window_closed(&plan.label);
    assert!(manager.deliver_ready(&plan.label).is_none());
}

#[test]
fn manager_isolates_concurrent_windows() {
    let mut manager = WindowManager::new();
    let plan_a = manager.open_image(tiny_image(10));
    let plan_b = manager.open_image(tiny_image(20));
    assert_ne!(plan_a.label, plan_b.label);

    let for_b = manager.deliver_ready(&plan_b.label).expect("B undelivered");
    let for_a = manager.deliver_ready(&plan_a.label).expect("A undelivered");
    assert_ne!(for_a.base64_encoded_data, for_b.base64_encoded_data);
    // exactly one delivery each
    assert!(manager.deliver_ready(&plan_a.label).is_none());
    assert!(manager.deliver_ready(&plan_b.label).is_none());
}

#[test]
fn main_window_chrome_flags() {
    let opts = main_window_options();
    assert!(!opts.decorations);
    assert!(opts.always_on_top);
    assert!(opts.skip_taskbar);
    assert!(!opts.visible);
    assert!(opts.devtools);
    assert!(opts.centered);
}
