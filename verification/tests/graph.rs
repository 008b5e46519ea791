use upm::graph::{DependencyGraph, DependencyNode};
use upm::repository::{PackageCategory, PackageProvider, RepositoryType};

fn node(name: &str, deps: &[&str]) -> DependencyNode {
    DependencyNode {
        package_name: name.to_string(),
        version: "1".to_string(),
        provider: PackageProvider {
            package_name: name.to_string(),
            repo_name: "main".to_string(),
            repo_type: RepositoryType::APT,
            category: PackageCategory::Native,
            version: "1".to_string(),
            priority: 0,
            provides: vec![],
        },
        dependencies: deps.iter().map(|d| d.to_string()).collect(),
        is_virtual: false,
        is_optional: false,
    }
}

fn position(order: &[String], name: &str) -> usize {
    order.iter().position(|n| n == name).unwrap()
}

#[test]
fn install_order_puts_dependencies_first() {
    let mut g = DependencyGraph::new("app".to_string());
    g.add_node("app".to_string(), node("app", &["lib", "tool"]));
    g.add_node("tool".to_string(), node("tool", &["lib"]));
    g.add_node("lib".to_string(), node("lib", &["libc-outside-graph"]));
    let order = g.get_install_order().unwrap();
    assert_eq!(order.len(), 3);
    assert!(position(&order, "lib") < position(&order, "tool"));
    assert!(position(&order, "tool") < position(&order, "app"));
    assert!(!g.has_cycles());
}

#[test]
fn cycle_has_no_install_order() {
    let mut g = DependencyGraph::new("a".to_string());
    g.add_node("a".to_string(), node("a", &["b"]));
    g.add_node("b".to_string(), node("b", &["c"]));
    g.add_node("c".to_string(), node("c", &["a"]));
    assert!(g.get_install_order().is_err());
    assert!(g.has_cycles());
}

#[test]
fn self_dependency_is_a_cycle() {
    let mut g = DependencyGraph::new("a".to_string());
    g.add_node("a".to_string(), node("a", &["a"]));
    assert!(g.has_cycles());
}

#[test]
fn empty_graph_has_empty_order() {
    let g = DependencyGraph::new("a".to_string());
    assert_eq!(g.get_install_order().unwrap(), Vec::<String>::new());
}

#[test]
fn adding_a_node_twice_replaces_it() {
    let mut g = DependencyGraph::new("a".to_string());
    g.add_node("a".to_string(), node("a", &["a"]));
    g.add_node("a".to_string(), node("a", &[]));
    assert_eq!(g.nodes().len(), 1);
    assert!(!g.has_cycles());
}

#[test]
fn visualize_lists_nodes() {
    let mut g = DependencyGraph::new("app".to_string());
    g.add_node("app".to_string(), node("app", &["lib", "tool"]));
    g.add_node("lib".to_string(), node("lib", &[]));
    assert_eq!(g.visualize(), "root: app\napp -> lib, tool\nlib");
    let empty = DependencyGraph::new("x".to_string());
    assert_eq!(empty.visualize(), "root: x");
}
