//! The registry, the dispatcher and the route handler, observed from
//! outside.

use demo_nav::holder::NavigationHolder;
use demo_nav::registry::DemoRegistry;
use demo_nav::registry::Renderer;
use demo_nav::route::RoutePath;
use demo_nav::route::RouteTarget;
use demo_nav::route::handle_route_change;
use demo_nav::route::parse;

fn demo_registry() -> DemoRegistry {
    let mut registry = DemoRegistry::new();
    let entries = [
        ("basic_component", "basic components"),
        ("components_and_pros", "components and props"),
        ("demo_basic_iteration", "basic iterator"),
        ("demo_form_and_input", "form and input"),
        ("demo_error_handling", "error handling"),
        ("demo_reactivity", "reactivity"),
        ("demo_parent_children_communication", "parent child communication"),
        ("demo_async", "demo async"),
        ("control_flow", "demo control flow"),
        ("demo_nested_route", "demo nested route"),
    ];
    for (i, (segment, label)) in entries.iter().enumerate() {
        assert!(registry.register(segment, label, i as u64));
    }
    registry
}

#[test]
fn resolve_returns_the_registered_renderer() {
    let registry = demo_registry();
    assert_eq!(registry.resolve("basic_component"), Renderer::Demo(0));
    assert_eq!(registry.resolve("demo_async"), Renderer::Demo(7));
    assert_eq!(registry.resolve("demo_nested_route"), Renderer::Demo(9));
}

#[test]
fn resolve_of_unknown_segment_is_the_fallback() {
    let registry = demo_registry();
    assert_eq!(registry.resolve("zzz"), Renderer::Fallback);
    assert_eq!(registry.resolve(""), Renderer::Fallback);
    assert_eq!(registry.resolve("BASIC_COMPONENT"), Renderer::Fallback);
    assert_eq!(registry.resolve("basic_component "), Renderer::Fallback);
}

#[test]
fn resolve_on_empty_registry_is_the_fallback() {
    let registry = DemoRegistry::new();
    assert_eq!(registry.resolve("anything"), Renderer::Fallback);
}

#[test]
fn register_refuses_a_duplicate_segment() {
    let mut registry = DemoRegistry::new();
    assert!(registry.register("a", "Alpha", 1));
    assert!(!registry.register("a", "Other", 2));
    assert_eq!(registry.len(), 1);
    assert_eq!(registry.resolve("a"), Renderer::Demo(1));
}

#[test]
fn contains_finds_only_registered_segments() {
    let registry = demo_registry();
    assert!(registry.contains("control_flow"));
    assert!(!registry.contains("zzz"));
}

#[test]
fn parse_classifies_paths() {
    assert!(matches!(parse("/demos"), RoutePath::Menu));
    assert!(matches!(parse("/demos/"), RoutePath::Menu));
    match parse("/demos/demo_async") {
        RoutePath::Segment(seg) => assert_eq!(seg, "demo_async"),
        _ => panic!("expected a segment"),
    }
    match parse("/demos/demo_nested_route/home") {
        RoutePath::Segment(seg) => assert_eq!(seg, "demo_nested_route"),
        _ => panic!("expected the first segment only"),
    }
    match parse("/demos//") {
        RoutePath::Segment(seg) => assert_eq!(seg, ""),
        _ => panic!("expected an empty segment"),
    }
    assert!(matches!(parse(""), RoutePath::Outside));
    assert!(matches!(parse("/"), RoutePath::Outside));
    assert!(matches!(parse("/demo"), RoutePath::Outside));
    assert!(matches!(parse("/demosx"), RoutePath::Outside));
    assert!(matches!(parse("/contacts/1"), RoutePath::Outside));
}

#[test]
fn route_change_to_a_known_demo_updates_and_notifies() {
    let registry = demo_registry();
    let mut holder = NavigationHolder::new();
    holder.subscribe(1);
    holder.subscribe(2);
    let outcome = handle_route_change(&registry, &mut holder, "/demos/control_flow");
    assert_eq!(outcome.target, RouteTarget::Demo(8));
    assert_eq!(outcome.notified, vec![1, 2]);
    assert_eq!(holder.read().demo_name, "control_flow");
}

#[test]
fn route_change_without_segment_selects_nothing() {
    let registry = demo_registry();
    let mut holder = NavigationHolder::new();
    holder.subscribe(4);
    holder.write("demo_async");
    let outcome = handle_route_change(&registry, &mut holder, "/demos");
    assert_eq!(outcome.target, RouteTarget::NoSelection);
    assert_eq!(outcome.notified, vec![4]);
    assert_eq!(holder.read().demo_name, "");
}

#[test]
fn failed_resolution_leaves_the_navigation_state_unchanged() {
    let registry = demo_registry();
    let mut holder = NavigationHolder::new();
    holder.subscribe(4);
    holder.write("demo_async");
    let log_before = holder.notification_log().clone();
    let outcome = handle_route_change(&registry, &mut holder, "/demos/zzz");
    assert_eq!(outcome.target, RouteTarget::NotFound);
    assert!(outcome.notified.is_empty());
    assert_eq!(holder.read().demo_name, "demo_async");
    assert_eq!(holder.notification_log(), &log_before);
}

#[test]
fn route_change_outside_the_shell_touches_nothing() {
    let registry = demo_registry();
    let mut holder = NavigationHolder::new();
    holder.subscribe(4);
    holder.write("demo_async");
    let log_before = holder.notification_log().clone();
    let outcome = handle_route_change(&registry, &mut holder, "/");
    assert_eq!(outcome.target, RouteTarget::Outside);
    assert!(outcome.notified.is_empty());
    assert_eq!(holder.read().demo_name, "demo_async");
    assert_eq!(holder.notification_log(), &log_before);
}
