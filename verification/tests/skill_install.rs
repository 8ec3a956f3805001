use prism_agent::skill_install::{parse_install_source, InstallSourceError, InstallTarget};

#[test]
fn local_prefix_is_trimmed() {
    assert_eq!(parse_install_source("local:  /tmp/skill "), Ok(InstallTarget::Local("/tmp/skill".into())));
    assert_eq!(parse_install_source("LOCAL:/x"), Ok(InstallTarget::Local("/x".into())));
    assert_eq!(parse_install_source("local:   "), Err(InstallSourceError::MissingLocalPath));
}

#[test]
fn github_spec_is_split() {
    assert_eq!(
        parse_install_source("github:owner/repo"),
        Ok(InstallTarget::Github { owner: "owner".into(), repo: "repo".into(), sub_path: None })
    );
    assert_eq!(
        parse_install_source("GitHub: o//r/skills/pdf/"),
        Ok(InstallTarget::Github { owner: "o".into(), repo: "r".into(), sub_path: Some("skills/pdf".into()) })
    );
    assert_eq!(parse_install_source("github:"), Err(InstallSourceError::MissingRepoSpec));
    assert_eq!(parse_install_source("github:owner"), Err(InstallSourceError::MissingRepo));
    assert_eq!(parse_install_source("github:///"), Err(InstallSourceError::MissingOwner));
}

#[test]
fn online_sources_are_refused() {
    assert_eq!(parse_install_source("skills.sh:pdf"), Err(InstallSourceError::SkillsShUnsupported));
    assert_eq!(parse_install_source("zip:https://x/y.zip"), Err(InstallSourceError::ZipUnsupported));
    assert_eq!(
        InstallSourceError::ZipUnsupported.message(),
        "zip 在线安装暂不支持，请手动下载后使用 local: 本地路径安装"
    );
}

#[test]
fn bare_text_is_a_local_path() {
    assert_eq!(parse_install_source(" ./my skill"), Ok(InstallTarget::Local(" ./my skill".into())));
}
