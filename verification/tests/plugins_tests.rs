use vhs_86::plugins::{hook_step, plugin_description, plugin_name_for, HookOutcome, Plugin, PluginManager};

#[test]
fn test_plugin_manager_new() {
    let pm = PluginManager::new();
    assert_eq!(pm.count(), 0);
    assert!(pm.list_plugins().is_empty());
}

#[test]
fn test_plugin_manager_default() {
    let pm: PluginManager = Default::default();
    assert_eq!(pm.count(), 0);
}

#[test]
fn test_plugin_manager_get_nonexistent() {
    let pm = PluginManager::new();
    assert!(pm.get_plugin("nonexistent").is_none());
}

#[test]
fn test_plugin_manager_run_no_plugins() {
    let pm = PluginManager::new();
    let result = pm.run("test", "func", "input");
    assert!(result.is_none());
}

#[test]
fn registering_replaces_a_plugin_of_the_same_name() {
    let mut pm = PluginManager::with_dir("/p".to_string());
    pm.register(Plugin { name: "a".to_string(), description: "one".to_string() });
    pm.register(Plugin { name: "b".to_string(), description: "two".to_string() });
    pm.register(Plugin { name: "a".to_string(), description: "three".to_string() });
    assert_eq!(pm.count(), 2);
    assert_eq!(pm.get_plugin("a").unwrap().description, "three");
    let call = pm.run("b", "go", "in").unwrap();
    assert_eq!(call.wasm_path, "/p/b.wasm");
    assert_eq!(call.func, "go");
    let hooks = pm.hook_calls("preview", "/x");
    assert_eq!(hooks.len(), 2);
    assert_eq!(hooks[0].wasm_path, "/p/a.wasm");
    assert_eq!(hooks[1].input, "/x");
    pm.clear();
    assert_eq!(pm.count(), 0);
}

#[test]
fn plugin_files_and_descriptions() {
    assert_eq!(plugin_name_for("/p/tool.wasm"), Some("tool".to_string()));
    assert_eq!(plugin_name_for("/p/tool.WASM"), None);
    assert_eq!(plugin_name_for("/p/notes.txt"), None);
    assert_eq!(plugin_description("tool", None), "WASM plugin: tool");
    assert_eq!(plugin_description("tool", Some("does things".to_string())), "does things");
}

#[test]
fn hooks_stop_at_the_first_answer_or_an_unavailable_plugin() {
    assert_eq!(hook_step(&HookOutcome::Failed), None);
    assert_eq!(hook_step(&HookOutcome::Returned(String::new())), None);
    assert_eq!(hook_step(&HookOutcome::Returned("x".to_string())), Some(Some("x".to_string())));
    assert_eq!(hook_step(&HookOutcome::Unavailable), Some(None));
}
