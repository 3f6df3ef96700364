use kubectl_rs::api::{api_group_version, resource_type};
use kubectl_rs::config::{client_config_failure, config_view_failure, ConfigArgs, ConfigCommands};
use kubectl_rs::get::{default_context_name, output_format, unsupported_output_message, GetArgs, GetError, MultiClusterMap, OutputFormat};
use kubectl_rs::groups::{default_groups_file, kubeconfig_file, Groups};
use kubectl_rs::listing::{build_listing, tab_list_printer, ListingError};
use kubectl_rs::manifest::{apply_target, delete_scope, DeleteScope, NamespaceField};
use kubectl_rs::name_map::NameMap;
use kubectl_rs::printers::PrinterColumns;
use kubectl_rs::text::{join_with, split_on, str_equal, str_less};

fn strings(items: &[&str]) -> Vec<String> {
    items.iter().map(|s| s.to_string()).collect()
}

fn pod(namespace: &str, name: &str, restarts: u32) -> serde_json::Value {
    let text = format!(
        "{{\"metadata\":{{\"namespace\":\"{}\",\"name\":\"{}\"}},\"status\":{{\"phase\":\"Running\",\"containerStatuses\":[{{\"ready\":true,\"restartCount\":{}}}]}}}}",
        namespace, name, restarts
    );
    serde_json::from_str(&text).unwrap()
}

#[test]
fn printer_columns_new_is_empty() {
    assert!(PrinterColumns::new().columns.is_empty());
}

#[test]
fn printer_columns_for_pods() {
    let p = PrinterColumns::pods();
    let names: Vec<&str> = p.columns.iter().map(|c| c.name.as_str()).collect();
    assert_eq!(
        names,
        vec!["Namespace", "Name", "Ready", "Status", "Restarts", "Age", "IP", "Node", "Nominated Node", "Readiness Gates"]
    );
    assert_eq!(p.columns[4].json_path, "$.status.containerStatuses[*].restartCount");
    assert_eq!(p.columns[9].json_path, "$spec.readinessGates[*].conditionType");
    let priorities: Vec<u8> = p.columns.iter().map(|c| c.priority).collect();
    assert_eq!(priorities, vec![0, 0, 0, 0, 0, 0, 1, 1, 1, 1]);
    assert!(p.columns.iter().all(|c| c.data_type == "String" && c.format == "String"));
    assert_eq!(p.columns[5].description, "Human readable duration since start time of the Pod");
}

#[test]
fn printer_columns_for_deployments() {
    let p = PrinterColumns::deploys();
    let names: Vec<&str> = p.columns.iter().map(|c| c.name.as_str()).collect();
    assert_eq!(
        names,
        vec!["Namespace", "Name", "Ready", "Up-To-Date", "Available", "Age", "Containers", "Images", "Selector"]
    );
    assert_eq!(p.columns[8].json_path, "$.spec.selector.matchLabels[*]");
    assert_eq!(p.columns[6].priority, 1);
    assert_eq!(p.columns[3].priority, 0);
}

#[test]
fn config_args_default_to_view() {
    assert!(ConfigArgs::new(None).command == Some(ConfigCommands::View));
    assert!(ConfigArgs::new(Some(ConfigCommands::View)).command == Some(ConfigCommands::View));
    let bare = ConfigArgs { command: None };
    assert!(bare.subcommand() == ConfigCommands::View);
}

#[test]
fn config_failure_messages() {
    assert_eq!(config_view_failure("bad"), "error converting kubeconfig at somewhere to yaml: bad");
    assert_eq!(client_config_failure("no context"), "error parsing kubeconfig into client Config: no context");
}

#[test]
fn groups_default_is_empty() {
    let g = Groups::default();
    assert_eq!(g.api_version, "v1alpha1");
    assert_eq!(g.kind, "Groups");
    assert_eq!(g.context_groups.len(), 0);
    assert!(g.contexts("dev").is_none());
}

#[test]
fn groups_lookup_contexts() {
    let mut g = Groups::default();
    g.context_groups.insert("dev".to_string(), strings(&["kind-kind", "kind-kind2"]));
    assert_eq!(g.contexts("dev"), Some(strings(&["kind-kind", "kind-kind2"])));
    assert!(g.contexts("prod").is_none());
}

#[test]
fn group_file_paths() {
    assert_eq!(default_groups_file(), "~/.kube/groups.yaml");
    let home = Some("/home/ada".to_string());
    assert_eq!(Groups::file_path("./groups.yaml", home.clone()), "./groups.yaml");
    assert_eq!(Groups::file_path("~other/groups.yaml", home.clone()), "~other/groups.yaml");
    assert_eq!(Groups::file_path("~/.kube/groups.yaml", home.clone()), "/home/ada/.kube/groups.yaml");
    assert_eq!(Groups::file_path("~", home.clone()), "/home/ada");
    assert_eq!(Groups::file_path("~/.kube/groups.yaml", None), "~/.kube/groups.yaml");
    assert_eq!(kubeconfig_file("/etc/kube/config", home.clone()), "/etc/kube/config");
    assert_eq!(kubeconfig_file("~/.kube/config", home), "/home/ada/.kube/config");
}

#[test]
fn name_map_walks_names_in_order() {
    let mut m: NameMap<u32> = NameMap::new();
    assert_eq!(m.insert("kind-b".to_string(), 2), None);
    assert_eq!(m.insert("kind-a".to_string(), 1), None);
    assert_eq!(m.insert("default".to_string(), 0), None);
    assert_eq!(m.keys(), strings(&["default", "kind-a", "kind-b"]));
    assert_eq!(m.len(), 3);
    assert_eq!(m.key_at(1), "kind-a");
    assert_eq!(*m.value_at(2), 2);
}

#[test]
fn name_map_insert_replaces() {
    let mut m: NameMap<u32> = NameMap::new();
    m.insert("x".to_string(), 1);
    assert_eq!(m.insert("x".to_string(), 5), Some(1));
    assert_eq!(m.len(), 1);
    assert_eq!(m.get("x"), Some(&5));
    assert_eq!(m.get("y"), None);
    assert!(m.contains_key("x"));
    assert!(!m.contains_key("y"));
}

#[test]
fn name_map_append_prefers_incoming() {
    let mut a: NameMap<u32> = NameMap::new();
    a.insert("b".to_string(), 1);
    a.insert("c".to_string(), 2);
    let mut b: NameMap<u32> = NameMap::new();
    b.insert("c".to_string(), 20);
    b.insert("a".to_string(), 10);
    a.append(&mut b);
    assert_eq!(b.len(), 0);
    assert_eq!(a.keys(), strings(&["a", "b", "c"]));
    assert_eq!(a.get("a"), Some(&10));
    assert_eq!(a.get("b"), Some(&1));
    assert_eq!(a.get("c"), Some(&20));
}

#[test]
fn name_map_orders_by_code_point() {
    let mut m: NameMap<()> = NameMap::new();
    for k in ["b", "B", "a", "ab", "", "é"] {
        m.insert(k.to_string(), ());
    }
    let mut expected = strings(&["b", "B", "a", "ab", "", "é"]);
    expected.sort();
    assert_eq!(m.keys(), expected);
}

#[test]
fn text_split_and_join() {
    assert_eq!(split_on("apps/v1", '/'), strings(&["apps", "v1"]));
    assert_eq!(split_on("v1", '/'), strings(&["v1"]));
    assert_eq!(split_on("", '/'), strings(&[""]));
    assert_eq!(split_on("a//b/", '/'), strings(&["a", "", "b", ""]));
    assert_eq!(join_with(&strings(&["a", "", "b", ""]), "/"), "a//b/");
    assert_eq!(join_with(&strings(&["true", "false"]), ", "), "true, false");
    assert_eq!(join_with(&Vec::new(), ", "), "");
    let s = "group/version/kind";
    assert_eq!(join_with(&split_on(s, '/'), "/"), s);
}

#[test]
fn text_comparisons() {
    assert!(str_less("a", "b"));
    assert!(str_less("a", "ab"));
    assert!(!str_less("ab", "a"));
    assert!(!str_less("a", "a"));
    assert!(str_less("", "a"));
    assert!(str_equal("kind", "kind"));
    assert!(!str_equal("kind", "kinds"));
}

#[test]
fn group_versions_from_api_version() {
    let gv = api_group_version("apps/v1");
    assert_eq!((gv.group.as_str(), gv.version.as_str()), ("apps", "v1"));
    assert_eq!(gv.api_version(), "apps/v1");
    let core = api_group_version("v1");
    assert_eq!((core.group.as_str(), core.version.as_str()), ("", "v1"));
    assert_eq!(core.api_version(), "v1");
    let deep = api_group_version("a/b/c");
    assert_eq!((deep.group.as_str(), deep.version.as_str()), ("a", "b/c"));
    let leading = api_group_version("/v1");
    assert_eq!((leading.group.as_str(), leading.version.as_str()), ("", "v1"));
    assert_eq!(leading.api_version(), "v1");
}

#[test]
fn resource_types_guess_plurals() {
    let deploy = resource_type("apps", "v1", "Deployment");
    assert_eq!(deploy.api_version, "apps/v1");
    assert_eq!(deploy.plural, "deployments");
    assert_eq!(deploy.kind, "Deployment");
    let pod = resource_type("", "v1", "Pod");
    assert_eq!(pod.api_version, "v1");
    assert_eq!(pod.plural, "pods");
    assert_eq!(resource_type("", "v1", "Endpoints").plural, "endpoints");
    assert_eq!(resource_type("networking.k8s.io", "v1", "Ingress").plural, "ingresses");
    assert_eq!(resource_type("", "v1", "Policy").plural, "policies");
    assert_eq!(resource_type("", "v1", "Gateway").plural, "gateways");
    assert_eq!(resource_type("", "v1", "Mesh").plural, "meshes");
    assert_eq!(resource_type("", "v1", "Batch").plural, "batches");
    assert_eq!(resource_type("", "v1", "Box").plural, "boxes");
    assert_eq!(resource_type("metrics.k8s.io", "v1beta1", "NodeMetrics").plural, "nodes");
    assert_eq!(resource_type("metrics.k8s.io", "v1beta1", "PodMetrics").plural, "pods");
}

fn get_args(output: &str) -> GetArgs {
    GetArgs {
        group: "apps".to_string(),
        version: "v1".to_string(),
        kind: "Deployment".to_string(),
        resource_name: None,
        output: output.to_string(),
        namespace: "kube-system".to_string(),
        cluster_group: None,
        context_file: default_groups_file(),
        managed_fields: false,
    }
}

#[test]
fn get_args_resource_type() {
    let rt = get_args("tab").resource_type();
    assert_eq!(rt.group, "apps");
    assert_eq!(rt.version, "v1");
    assert_eq!(rt.plural, "deployments");
}

#[test]
fn output_formats() {
    assert!(output_format("json") == OutputFormat::Json);
    assert!(output_format("yaml") == OutputFormat::Yaml);
    assert!(output_format("tab") == OutputFormat::Tab);
    assert!(output_format("wide") == OutputFormat::Wide);
    assert!(output_format("csv") == OutputFormat::Unsupported);
    assert!(output_format("") == OutputFormat::Unsupported);
    assert_eq!(
        unsupported_output_message("csv"),
        "Output format not supported, please use one of 'json', 'yaml', 'tab'. Provided csv"
    );
}

#[test]
fn get_defaults_and_errors() {
    assert_eq!(default_context_name(), "default");
    let (api_version, kind) = kubectl_rs::get::single_object_list_type();
    assert_eq!((api_version.as_str(), kind.as_str()), ("v1", "PodList"));
    match GetError::from_api_error("not found".to_string()) {
        GetError::ContextGroupMissing(m) => assert_eq!(m, "not found"),
        GetError::GetResourcesMissing(_) => panic!("wrong variant"),
    }
    let tree: MultiClusterMap<u8, u8, u8> = MultiClusterMap::new();
    assert_eq!(tree.configs.len() + tree.clients.len() + tree.resources.len(), 0);
}

#[test]
fn tab_listing_of_pods() {
    let mut resources: NameMap<Vec<serde_json::Value>> = NameMap::new();
    resources.insert("kind-b".to_string(), vec![pod("kube-system", "etcd", 4)]);
    resources.insert("kind-a".to_string(), vec![pod("kube-system", "dns", 1), pod("default", "web", 2)]);
    let table = match tab_list_printer(&resources, "tab") {
        Ok(t) => t,
        Err(_) => panic!("the normal pod columns are valid queries"),
    };
    // context + Namespace, Name, Ready, Status, Restarts, Age
    assert_eq!(table.get_column_count(), 7);
    assert_eq!(table.sum_column(5), Some(7.0));
}

#[test]
fn tab_listing_without_objects() {
    let mut resources: NameMap<Vec<serde_json::Value>> = NameMap::new();
    resources.insert("default".to_string(), Vec::new());
    let table = match tab_list_printer(&resources, "wide") {
        Ok(t) => t,
        Err(_) => panic!("nothing is queried without objects"),
    };
    assert_eq!(table.get_column_count(), 5);
    assert_eq!(table.sum_column(1), None);
}

#[test]
fn wide_listing_rejects_invalid_column_path() {
    let mut resources: NameMap<Vec<serde_json::Value>> = NameMap::new();
    resources.insert("default".to_string(), vec![pod("default", "web", 0)]);
    match tab_list_printer(&resources, "wide") {
        Err(ListingError::InvalidJsonPath(p)) => assert_eq!(p, "$spec.readinessGates[*].conditionType"),
        Ok(_) => panic!("the Readiness Gates column has no valid query"),
    }
}

#[test]
fn listing_with_custom_columns() {
    let mut resources: NameMap<Vec<serde_json::Value>> = NameMap::new();
    resources.insert("default".to_string(), vec![pod("default", "web", 3), pod("default", "db", 5)]);
    let mut columns = PrinterColumns::new();
    let mut restarts = PrinterColumns::pods().columns.remove(4);
    restarts.priority = 1;
    columns.columns.push(restarts);
    let table = match build_listing(&resources, &columns, true) {
        Ok(t) => t,
        Err(_) => panic!("valid query"),
    };
    assert_eq!(table.get_column_count(), 2);
    assert_eq!(table.sum_column(1), Some(8.0));
    let narrow = match build_listing(&resources, &columns, false) {
        Ok(t) => t,
        Err(_) => panic!("no queries"),
    };
    assert_eq!(narrow.get_column_count(), 1);
}

#[test]
fn apply_targets() {
    let t = apply_target("apps/v1", "Deployment", "default");
    assert!(t.names_group);
    assert_eq!(t.discovery_group, "");
    assert_eq!(t.kind, "Deployment");
    assert_eq!(t.namespace, "default");
    let core = apply_target("v1", "Pod", "kube-system");
    assert!(!core.names_group);
    assert_eq!(core.discovery_group, "");
}

#[test]
fn delete_scopes() {
    assert!(matches!(delete_scope(NamespaceField::Absent), Some(DeleteScope::AllNamespaces)));
    match delete_scope(NamespaceField::Text("kube-system".to_string())) {
        Some(DeleteScope::Namespace(ns)) => assert_eq!(ns, "kube-system"),
        _ => panic!("expected the namespace"),
    }
    assert!(delete_scope(NamespaceField::Other).is_none());
}

#[test]
fn fetch_outcomes() {
    let ok: Result<u32, String> = Ok(3);
    assert!(matches!(kubectl_rs::get::fetch_outcome(ok), Ok(3)));
    let failed: Result<u32, String> = Err("forbidden".to_string());
    match kubectl_rs::get::fetch_outcome(failed) {
        Err(GetError::ContextGroupMissing(m)) => assert_eq!(m, "forbidden"),
        _ => panic!("expected the error text"),
    }
}

#[test]
fn listing_names_each_context_once() {
    let mut resources: NameMap<Vec<serde_json::Value>> = NameMap::new();
    resources.insert("7".to_string(), vec![pod("a", "x", 1), pod("a", "y", 1)]);
    resources.insert("11".to_string(), vec![pod("b", "z", 1)]);
    resources.insert("5".to_string(), Vec::new());
    let table = match tab_list_printer(&resources, "tab") {
        Ok(t) => t,
        Err(_) => panic!("valid queries"),
    };
    // one row per object: three restart counts
    assert_eq!(table.sum_column(5), Some(3.0));
    assert_eq!(table.average_column(5), Some(1.0));
    // the context column names "7" and "11" once each; "5" has no rows
    assert_eq!(table.sum_column(0), Some(18.0));
    assert_eq!(table.average_column(0), Some(9.0));
}
