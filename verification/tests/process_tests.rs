use edr_kill_switch::process::{find_by_pid, NetworkConnection, ProcessInfo, ProcessTree, SignatureInfo};

fn child(pid: u32, name: &str, parent: u32) -> ProcessInfo {
    let mut p = ProcessInfo::new(pid, name);
    p.parent_pid = Some(parent);
    p
}

fn snapshot() -> Vec<ProcessInfo> {
    vec![
        ProcessInfo::new(1, "init"),
        child(10, "shell", 1),
        child(11, "daemon", 1),
        child(100, "editor", 10),
        child(101, "compiler", 10),
        child(1000, "linker", 101),
        child(50, "orphan", 7),
    ]
}

#[test]
fn new_record_holds_pid_and_name_only() {
    let p = ProcessInfo::new(7, "tool");
    assert_eq!(p.pid, 7);
    assert_eq!(p.name, "tool");
    assert_eq!(p.path, None);
    assert!(p.command.is_empty());
    assert_eq!(p.hash, None);
    assert_eq!(p.parent_pid, None);
    assert_eq!(p.memory_usage, 0);
    assert_eq!(p.cpu_usage_milli, 0);
    assert_eq!(p.status, "Running");
    assert_eq!(p.digital_signature, None);
    assert!(p.network_connections.is_empty());
}

#[test]
fn records_are_copied_whole() {
    let mut p = child(7, "tool", 1);
    p.path = Some("/bin/tool".to_string());
    p.command = vec!["tool".to_string(), "-v".to_string()];
    p.hash = Some("ab".to_string());
    p.memory_usage = 4096;
    p.cpu_usage_milli = 250;
    p.status = "Sleeping".to_string();
    p.digital_signature = Some(SignatureInfo {
        is_signed: true,
        is_valid: false,
        issuer: Some("CA".to_string()),
        subject: None,
    });
    p.network_connections = vec![NetworkConnection {
        local_port: 443,
        remote_address: Some("10.0.0.1".to_string()),
        remote_port: Some(5000),
        protocol: "tcp".to_string(),
        state: "ESTABLISHED".to_string(),
    }];
    assert_eq!(p.clone(), p);
}

#[test]
fn find_by_pid_gives_the_first_record() {
    let mut s = snapshot();
    s.push(child(10, "again", 1));
    assert_eq!(find_by_pid(&s, 10), Some(1));
    assert_eq!(find_by_pid(&s, 1), Some(0));
    assert_eq!(find_by_pid(&s, 50), Some(6));
    assert_eq!(find_by_pid(&s, 2), None);
    assert_eq!(find_by_pid(&vec![], 2), None);
}

#[test]
fn tree_follows_parent_links() {
    let s = snapshot();
    let tree = ProcessTree::build_tree(&s, 1);
    assert_eq!(tree.root, s[0]);
    assert_eq!(tree.children.len(), 2);
    assert_eq!(tree.children[0].root, s[1]);
    assert_eq!(tree.children[1].root, s[2]);
    assert!(tree.children[1].children.is_empty());
    assert_eq!(tree.children[0].children.len(), 2);
    assert_eq!(tree.children[0].children[1].children[0].root, s[5]);
    assert_eq!(tree.get_all_pids(), vec![1, 10, 100, 101, 1000, 11]);
}

#[test]
fn tree_of_a_process_that_is_not_in_the_snapshot() {
    let s = snapshot();
    let tree = ProcessTree::build_tree(&s, 7);
    assert_eq!(tree.root.pid, 7);
    assert_eq!(tree.root.name, "Unknown");
    assert_eq!(tree.root.path, None);
    assert_eq!(tree.root.parent_pid, None);
    assert_eq!(tree.get_all_pids(), vec![7, 50]);
    let lone = ProcessTree::build_tree(&s, 9999);
    assert_eq!(lone.get_all_pids(), vec![9999]);
    assert!(lone.children.is_empty());
}

#[test]
fn tree_depth_is_bounded() {
    let s = snapshot();
    assert_eq!(ProcessTree::build_to_depth(&s, 1, 0).get_all_pids(), vec![1]);
    assert_eq!(ProcessTree::build_to_depth(&s, 1, 1).get_all_pids(), vec![1, 10, 11]);
    assert_eq!(ProcessTree::build_to_depth(&s, 1, 2).get_all_pids(), vec![1, 10, 100, 101, 11]);
    let own_parent = vec![child(0, "idle", 0), child(4, "system", 0)];
    let tree = ProcessTree::build_tree(&own_parent, 0);
    assert_eq!(tree.get_all_pids(), vec![0, 0, 0, 4, 4]);
}

#[test]
fn find_process_in_a_tree() {
    let s = snapshot();
    let tree = ProcessTree::build_tree(&s, 1);
    assert_eq!(tree.find_process(1), Some(&s[0]));
    assert_eq!(tree.find_process(1000), Some(&s[5]));
    assert_eq!(tree.find_process(11), Some(&s[2]));
    assert_eq!(tree.find_process(50), None);
    assert_eq!(tree.find_process(2), None);
}
