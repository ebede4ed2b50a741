use arqen::module::{all_healthy, EmptyModule, Module, ModuleBuilder, ModuleHealth, RouteEntry, RouteModule};

#[test]
fn test_empty_module() {
    let m = EmptyModule::new("test");
    assert_eq!(m.name(), "test");
    assert!(m.routes().is_none());
    assert!(m.dependencies().is_empty());
}

#[test]
fn test_route_module() {
    let m = RouteModule::new("api")
        .with_route("/users", "GET", "List users")
        .with_route("/users", "POST", "Create user");
    assert_eq!(m.name(), "api");
    let routes = m.routes().unwrap();
    assert_eq!(routes.len(), 2);
    assert_eq!(routes[0].path, "/users");
    assert_eq!(routes[0].method, "GET");
}

#[test]
fn test_route_module_empty() {
    let m = RouteModule::new("empty");
    assert!(m.routes().is_none());
}

#[test]
fn test_module_builder_new() {
    let builder = ModuleBuilder::new();
    assert_eq!(builder.module_count(), 0);
}

#[test]
fn test_module_builder_register() {
    let builder = ModuleBuilder::new()
        .register(EmptyModule::new("mod1"))
        .register(EmptyModule::new("mod2"));
    assert_eq!(builder.module_count(), 2);
    assert_eq!(builder.module_names(), vec!["mod1", "mod2"]);
}

#[test]
fn test_module_builder_all_routes() {
    let builder = ModuleBuilder::new()
        .register(RouteModule::new("api").with_route("/users", "GET", "List users"))
        .register(RouteModule::new("admin").with_route("/admin", "GET", "Admin panel"));
    let routes = builder.all_routes();
    assert_eq!(routes.len(), 2);
}

#[test]
fn test_module_builder_mixed() {
    let builder = ModuleBuilder::new()
        .register(EmptyModule::new("empty"))
        .register(RouteModule::new("routes").with_route("/test", "GET", "Test"));
    assert_eq!(builder.module_count(), 2);
    assert_eq!(builder.all_routes().len(), 1);
}

struct DepModule;

impl Module for DepModule {
    fn name(&self) -> &str {
        "dep"
    }
    fn routes(&self) -> Option<Vec<RouteEntry>> {
        None
    }
    fn dependencies(&self) -> Vec<String> {
        vec!["base".to_string()]
    }
}

#[test]
fn test_modules_with_dependencies() {
    let builder = ModuleBuilder::new()
        .register(EmptyModule::new("base"))
        .register(DepModule);
    let deps = builder.modules_with_dependencies();
    assert_eq!(deps.len(), 1);
    assert_eq!(deps[0].0, "dep");
    assert_eq!(deps[0].1, vec!["base"]);
}

#[test]
fn all_healthy_needs_every_module_healthy() {
    assert!(all_healthy(&vec![]));
    let mut results = vec![("a".to_string(), ModuleHealth::Healthy), ("b".to_string(), ModuleHealth::Healthy)];
    assert!(all_healthy(&results));
    results.push(("c".to_string(), ModuleHealth::Degraded { reason: "slow".to_string() }));
    assert!(!all_healthy(&results));
}

#[test]
fn register_records_name_routes_and_dependencies() {
    let builder = ModuleBuilder::new()
        .register(RouteModule::new("api").with_route("/items", "GET", "List items"))
        .register(DepModule);
    assert_eq!(builder.module_names(), vec!["api", "dep"]);
    let routes = builder.all_routes();
    assert_eq!(routes.len(), 1);
    assert_eq!(routes[0].path, "/items");
    let deps = builder.modules_with_dependencies();
    assert_eq!(deps, vec![("dep".to_string(), vec!["base".to_string()])]);
}

#[test]
fn modules_start_in_order_and_stop_in_reverse() {
    let builder = ModuleBuilder::new()
        .register(EmptyModule::new("a"))
        .register(EmptyModule::new("b"))
        .register(EmptyModule::new("c"));
    let start = builder.init_order();
    assert_eq!(start, vec![0, 1, 2]);
    let stop = builder.shutdown_order();
    assert_eq!(stop, vec![2, 1, 0]);
    assert_eq!(arqen::module::lifecycle_next(&stop, 0, false), Some(2));
    assert_eq!(arqen::module::lifecycle_next(&stop, 1, true), None);
    assert_eq!(arqen::module::lifecycle_next(&stop, 3, false), None);
}
