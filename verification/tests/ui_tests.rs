use grease::ui::benchmark::{pause_schedule, Approach, UIBenchmark};
use grease::ui::platform::{
    PlatformWindowHandle, UIError, UIFeature, UIPlatform, UnsupportedPlatform, WindowHandle,
};
use grease::ui::theme::{ColorScheme, Elevation, Shape, Theme, Typography};
use grease::ui::web::WebPlatform;
use std::time::{Duration, Instant};

/// Waits out each pause of a schedule and gives the time it took.
fn measure(pauses: &Vec<u64>) -> Duration {
    let start = Instant::now();
    for &us in pauses {
        let p = Instant::now();
        while p.elapsed() < Duration::from_micros(us) {}
    }
    start.elapsed()
}

fn measured(a: Approach, n: usize) -> (Duration, Duration) {
    let (s, r) = pause_schedule(a, n);
    (measure(&s), measure(&r))
}


#[test]
fn test_unsupported_platform() {
    let platform = UnsupportedPlatform;
    assert_eq!(platform.platform_name(), "Unsupported");
    assert!(!platform.supports_feature(UIFeature::NativeMenus));
}

#[test]
fn test_ui_error_display() {
    let error = UIError::PlatformError("test error".to_string());
    assert_eq!(error.to_string(), "UI Error: Platform error: test error");
}

#[test]
fn test_ui_handle_creation() {
    let window = WindowHandle { id: "test-window".to_string(), platform_handle: PlatformWindowHandle { data: 0 } };

    assert_eq!(window.id, "test-window");
}

#[test]
fn test_web_platform_creation() {
    let platform = WebPlatform::new();
    assert_eq!(platform.platform_name(), "Web");
    assert!(platform.supports_feature(UIFeature::WebAssemblyIntegration));
    assert!(!platform.supports_feature(UIFeature::SystemTray));
}

#[test]
fn web_test_next_id_generation() {
    let mut platform = WebPlatform::new();
    let id1 = platform.next_id();
    let id2 = platform.next_id();

    assert_ne!(id1, id2);
    assert!(id1.starts_with("widget_"));
    assert!(id2.starts_with("widget_"));
    assert_eq!(id1, "widget_1");
    assert_eq!(id2, "widget_2");
}

#[test]
fn web_test_window_creation() {
    let mut platform = WebPlatform::new();
    let result = platform.create_window("Test Window", 800, 600, "test_window");

    assert!(result.is_ok());
    let window = result.unwrap();
    assert_eq!(window.id, "test_window");
}

#[test]
fn test_button_creation() {
    let mut platform = WebPlatform::new();
    let window = platform.create_window("Test", 400, 300, "test").unwrap();
    let result = platform.create_button(&window, "btn1", "Click Me", 10, 10, 100);

    assert!(result.is_ok());
    let button = result.unwrap();
    assert_eq!(button.id, "test_btn1");
}

#[test]
fn test_label_creation() {
    let mut platform = WebPlatform::new();
    let window = platform.create_window("Test", 400, 300, "test").unwrap();
    let result = platform.create_label(&window, "label1", "Hello World", 10, 50);

    assert!(result.is_ok());
    let label = result.unwrap();
    assert_eq!(label.id, "test_label1");
}

#[test]
fn web_test_event_loop_controls() {
    let mut platform = WebPlatform::new();

    assert!(platform.run_event_loop().is_ok());
    assert!(platform.run_event_loop().is_err());
    assert!(platform.stop_event_loop().is_ok());
    assert!(platform.run_event_loop().is_ok());
}

#[test]
fn web_test_button_click_tracking() {
    let mut platform = WebPlatform::new();
    let window = platform.create_window("Test", 400, 300, "test").unwrap();
    let button = platform.create_button(&window, "btn1", "Click Me", 10, 10, 100).unwrap();

    assert!(!platform.button_clicked(&button));

    platform.reset_button_click(&button);
    assert!(!platform.button_clicked(&button));
}

#[test]
fn web_window_script_names_the_window() {
    let mut platform = WebPlatform::new();
    platform.create_window("Main", 640, 480, "main").unwrap();
    let scripts = platform.executed_scripts();
    assert_eq!(scripts.len(), 1);
    assert!(scripts[0].contains("div.id = 'main';"));
    assert!(scripts[0].contains("div.style.width = '640px';"));
    assert!(scripts[0].contains("<h3>Main</h3>"));
}

#[test]
fn unsupported_platform_refuses_windows() {
    let mut platform = UnsupportedPlatform;
    assert!(platform.create_window("x", 1, 1, "x").is_err());
}

#[test]
fn test_benchmark_creation() {
    let benchmark = UIBenchmark::new();
    assert!(benchmark.get_results().is_empty());
}

#[test]
fn test_vm_benchmark() {
    let mut benchmark = UIBenchmark::new();
    let (startup, render) = measured(Approach::VmUi, 10);
    let result = benchmark.benchmark_vm_ui(10, startup, render);

    assert_eq!(result.approach, "VM-based UI");
    assert_eq!(result.widget_count, 10);
    assert!(result.startup_time > Duration::ZERO);
    assert!(result.render_time > Duration::ZERO);
}

#[test]
fn test_hybrid_benchmark() {
    let mut benchmark = UIBenchmark::new();
    let (startup, render) = measured(Approach::HybridUi, 10);
    let result = benchmark.benchmark_hybrid_ui(10, startup, render);

    assert_eq!(result.approach, "Hybrid UI");
    assert_eq!(result.widget_count, 10);
    assert!(result.startup_time > Duration::ZERO);
    assert!(result.render_time > Duration::ZERO);
}

#[test]
fn test_pure_rust_benchmark() {
    let mut benchmark = UIBenchmark::new();
    let (startup, render) = measured(Approach::PureRustUi, 10);
    let result = benchmark.benchmark_pure_rust_ui(10, startup, render);

    assert_eq!(result.approach, "Pure Rust UI");
    assert_eq!(result.widget_count, 10);
    assert!(result.startup_time > Duration::ZERO);
    assert!(result.render_time > Duration::ZERO);
}

#[test]
fn test_full_benchmark() {
    let mut benchmark = UIBenchmark::new();
    let results = benchmark.run_full_benchmark(vec![10, 20], &measure);

    assert_eq!(results.len(), 2);
    assert!(results.contains_key(&10));
    assert!(results.contains_key(&20));

    for count in [10, 20] {
        let count_results = &results[&count];
        assert_eq!(count_results.len(), 3);
    }
}

#[test]
fn benchmark_memory_estimates() {
    let mut benchmark = UIBenchmark::new();
    assert_eq!(benchmark.benchmark_vm_ui(3, Duration::ZERO, Duration::ZERO).memory_usage, 3 * 1024);
    assert_eq!(benchmark.benchmark_hybrid_ui(3, Duration::ZERO, Duration::ZERO).memory_usage, 3 * 512);
    assert_eq!(benchmark.benchmark_pure_rust_ui(3, Duration::ZERO, Duration::ZERO).memory_usage, 3 * 256);
    // A second run of an approach replaces its results.
    assert_eq!(benchmark.benchmark_vm_ui(5, Duration::ZERO, Duration::ZERO).widget_count, 5);
    let keys: Vec<&str> = benchmark.get_results().iter().map(|(k, _)| k.as_str()).collect();
    assert_eq!(keys, vec!["vm_ui", "hybrid_ui", "pure_rust_ui"]);
}

#[test]
fn theme_colors_and_parts() {
    let mocha = ColorScheme::catppuccin_mocha();
    assert_eq!(mocha.primary, "#cba6f7");
    assert_eq!(mocha.background, "#1e1e2e");
    let latte = ColorScheme::catppuccin_latte();
    assert_eq!(latte.primary, "#8839ef");
    assert_eq!(ColorScheme::default(), mocha);
    let t = Typography::default();
    assert_eq!(t.display_large.font_size, "57px");
    assert_eq!(t.label_small.letter_spacing, "0.5px");
    assert_eq!(Shape::medium().corner_radius, "12px");
    assert_eq!(Elevation::level0().box_shadow(), "none");
    assert_eq!(
        Elevation::level3().box_shadow(),
        "0px 1px 3px 0px rgba(0, 0, 0, 0.3), 0px 4px 8px 3px rgba(0, 0, 0, 0.15)"
    );
    assert_eq!(Elevation { level: 9 }.box_shadow(), "none");
    let theme = Theme::new(latte.clone()).with_shape(Shape::large());
    assert_eq!(theme.colors, latte);
    assert_eq!(theme.shape.corner_radius, "16px");
    assert_eq!(theme.elevation.level, 0);
    assert_eq!(Theme::catppuccin_mocha().colors, mocha);
}

#[test]
fn pause_schedules_of_each_approach() {
    assert_eq!(pause_schedule(Approach::VmUi, 2), (vec![50_000, 100, 100], vec![50, 50]));
    assert_eq!(pause_schedule(Approach::HybridUi, 3), (vec![20_000, 20, 100, 20], vec![10, 50, 10]));
    assert_eq!(pause_schedule(Approach::PureRustUi, 1), (vec![10_000, 20], vec![10]));
    assert_eq!(pause_schedule(Approach::VmUi, 0), (vec![50_000], vec![]));
}

#[test]
fn benchmarks_record_the_measured_times() {
    let mut benchmark = UIBenchmark::new();
    let r = benchmark.benchmark_hybrid_ui(4, Duration::from_millis(7), Duration::from_millis(3));
    assert_eq!(r.startup_time, Duration::from_millis(7));
    assert_eq!(r.render_time, Duration::from_millis(3));
}
