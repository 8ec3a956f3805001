use prism_agent::builtin_agents::{agents_to_seed, builtin_agents};

#[test]
fn ensure_builtin_seeds_eight_agents() {
    let seeds = agents_to_seed(&vec![], 1);
    assert_eq!(seeds.len(), 8);
    let names: Vec<&str> = seeds.iter().map(|s| s.agent.name).collect();
    assert!(names.contains(&"短视频脚本师"));
    assert!(names.contains(&"周报月报生成器"));
    let scriptwriter = seeds.iter().find(|s| s.agent.name == "短视频脚本师").unwrap();
    assert!(scriptwriter.agent.system_prompt.contains("短视频脚本专家"));
    let keys: Vec<i64> = seeds.iter().map(|s| s.order_key).collect();
    assert_eq!(keys, (1..=8).collect::<Vec<i64>>());
}

#[test]
fn ensure_builtin_is_idempotent() {
    let first = agents_to_seed(&vec![], 1);
    let existing: Vec<String> = first.iter().map(|s| s.agent.name.to_string()).collect();
    assert!(agents_to_seed(&existing, 9).is_empty());

    let user = vec!["文案优化师".to_string()];
    let seeds = agents_to_seed(&user, 2);
    assert_eq!(seeds.len(), 7);
    assert!(seeds.iter().all(|s| s.agent.name != "文案优化师"));
    assert_eq!(seeds[0].order_key, 2);
    assert_eq!(builtin_agents().len(), 8);
}

#[test]
fn seeding_completes_names_once() {
    let existing = vec!["文案优化师".to_string(), "我的助手".to_string()];
    let seeds = agents_to_seed(&existing, 5);
    assert_eq!(seeds.len(), 7);
    assert!(seeds.iter().all(|s| s.agent.name != "文案优化师"));
    let mut after = existing.clone();
    after.extend(seeds.iter().map(|s| s.agent.name.to_string()));
    assert_eq!(&after[..2], &existing[..]);
    let mut names: Vec<String> = after.clone();
    names.sort();
    names.dedup();
    assert_eq!(names.len(), after.len());
    assert!(builtin_agents().iter().all(|a| after.iter().any(|n| n == a.name)));
    assert!(agents_to_seed(&after, 12).is_empty());
}
