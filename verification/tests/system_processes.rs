use dev_dashboard::processes::{get_system_processes, matches_target, SystemProcess};

fn process(name: &str, pid: u32, cpu_rank: i64) -> SystemProcess {
    SystemProcess {
        name: name.to_string(),
        pid,
        cpu_rank,
        cpu_usage: format!("{}.0", cpu_rank),
        memory: 0,
    }
}

fn pids(all: Vec<SystemProcess>) -> Vec<u32> {
    get_system_processes(&all).iter().map(|p| p.pid).collect()
}

#[test]
fn names_hold_a_program_of_interest() {
    for name in ["node", "npm", "yarn", "pnpm", "python", "python3", "cargo", "go", "dotnet", "java",
        "docker", "node-server", "/usr/bin/python3.11", "mongod", "dockerd"]
    {
        assert!(matches_target(name), "{}", name);
    }
    for name in ["", "n", "nod", "bash", "Node", "ruby", "d o c k e r"] {
        assert!(!matches_target(name), "{}", name);
    }
}

#[test]
fn case_makes_no_difference() {
    assert_eq!(pids(vec![process("Docker Desktop", 1, 0), process("BASH", 2, 5)]), vec![1]);
    assert_eq!(pids(vec![process("PYTHON", 3, 0)]), vec![3]);
}

#[test]
fn highest_rank_comes_first_and_equals_keep_their_order() {
    let all = vec![
        process("node", 1, 5),
        process("bash", 2, 99),
        process("cargo", 3, 7),
        process("java", 4, 5),
        process("go", 5, 7),
        process("npm", 6, -1),
    ];
    assert_eq!(pids(all), vec![3, 5, 1, 4, 6]);
}

#[test]
fn ten_processes_are_listed_at_most() {
    let all = (0..25).map(|i| process("node", i, i64::from(i % 13))).collect();
    assert_eq!(pids(all), vec![12, 11, 24, 10, 23, 9, 22, 8, 21, 7]);
}

#[test]
fn listed_process_is_unchanged() {
    let listed = get_system_processes(&vec![process("Node", 7, 3)]);
    assert_eq!(listed[0].name, "Node");
    assert_eq!(listed[0].cpu_usage, "3.0");
}
