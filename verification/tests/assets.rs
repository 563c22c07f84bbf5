use seekcli::assets::{asset_description, asset_entries, asset_section, skill_from_md, AssetFile, AssetKind};

fn file(name: &str, ext: Option<&str>, content: Option<&str>) -> AssetFile {
    AssetFile { name: name.into(), extension: ext.map(|e| e.into()), content: content.map(|c| c.into()) }
}

#[test]
fn the_description_is_the_first_meaningful_line() {
    assert_eq!(asset_description("#!/bin/sh\n\n# Deploy the site\necho hi\n"), "Deploy the site");
    assert_eq!(asset_description("// fetch prices\n"), "fetch prices");
    assert_eq!(asset_description("/* header */\n"), "header */");
    assert_eq!(asset_description("#\n;;; notes\n"), "notes");
    assert_eq!(asset_description(""), "");
}

#[test]
fn a_long_description_is_cut_with_an_ellipsis() {
    let long = format!("# {}", "x".repeat(130));
    let d = asset_description(&long);
    assert_eq!(d.chars().count(), 121);
    assert!(d.ends_with('\u{2026}'));
}

#[test]
fn only_the_first_twenty_lines_are_searched() {
    let text = format!("{}real description\n", "#\n".repeat(20));
    assert_eq!(asset_description(&text), "");
}

#[test]
fn assets_enumeration_lists_scripts_and_references() {
    let files = vec![
        file("run.sh", Some("sh"), Some("#!/bin/bash\n# Run it\n")),
        file("a.PY", Some("PY"), Some("")),
        file("notes.md", Some("md"), Some("# Notes\n")),
        file("README", None, Some("x")),
    ];
    let scripts = asset_entries(AssetKind::Scripts, &files);
    assert_eq!(scripts, vec![("a.PY".to_string(), String::new()), ("run.sh".to_string(), "Run it".to_string())]);
    let refs = asset_entries(AssetKind::References, &files);
    assert_eq!(refs, vec![("notes.md".to_string(), "Notes".to_string())]);
    let section = asset_section(AssetKind::Scripts, "/s/scripts", &scripts);
    assert_eq!(
        section,
        "## Skill Scripts\nLocated in `/s/scripts`. Invoke via `run_shell` with the absolute path.\n\n- `a.PY`\n- `run.sh` \u{2014} Run it\n\n"
    );
    let section = asset_section(AssetKind::References, "/s/references", &refs);
    assert!(section.ends_with("- `notes.md` \u{2014} Notes\n"));
}

#[test]
fn assets_enumeration_handles_missing_dirs() {
    assert_eq!(asset_section(AssetKind::Scripts, "/nowhere", &vec![]), "");
    assert!(asset_entries(AssetKind::References, &vec![]).is_empty());
}

#[test]
fn load_skill_md_with_assets() {
    let md = "---\nname: deploy\ndescription: ship it\n---\n\nDo the thing.\n\n";
    let skill = skill_from_md(md, "## Skill Scripts\n...").ok().expect("parses");
    assert_eq!(skill.name, "deploy");
    assert_eq!(skill.system_prompt, "Do the thing.\n\n## Skill Scripts\n...");
    let plain = skill_from_md(md, "").ok().expect("parses");
    assert_eq!(plain.system_prompt, "Do the thing.\n\n");
    assert!(plain.tools.is_none());
    assert!(skill_from_md("no frontmatter", "").is_err());
}
