use prism_agent::paths::{
    app_data_dir, app_data_dir_from, log_dir, meetings_dir, memory_dir, skill_dir, wiki_dir,
};

#[test]
fn data_root_under_given_dir() {
    assert_eq!(app_data_dir_from(Some("/home/u/.local/share")), "/home/u/.local/share/prism-agent");
}

#[test]
fn data_root_falls_back_to_working_dir() {
    assert_eq!(app_data_dir_from(None), "./prism-agent");
}

#[test]
fn subdirectories_sit_under_data_root() {
    let root = app_data_dir();
    assert!(root.ends_with("prism-agent"));
    assert_eq!(wiki_dir(), format!("{}/wiki", root));
    assert_eq!(skill_dir(), format!("{}/skills", root));
    assert_eq!(memory_dir(), format!("{}/memory", root));
    assert_eq!(log_dir(), format!("{}/logs", root));
    assert_eq!(meetings_dir(), format!("{}/meetings", root));
}
