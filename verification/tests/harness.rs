use markturbo::harness::{harness_text, path_affects_harness};

fn roots(names: &[&str]) -> Vec<String> {
    names.iter().map(|name| name.to_string()).collect()
}

fn skill_roots() -> Vec<String> {
    roots(&[".agents/skills", ".cursor/skills", "skills"])
}

fn project_roots() -> Vec<String> {
    roots(&["", ".windsurf", ".cursor", ".github", ".agents"])
}

/// Whether a name is that of an instruction file.
fn is_instruction(relative: &str) -> bool {
    let name = relative.rsplit('/').next().unwrap_or_default().to_ascii_lowercase();
    matches!(name.as_str(), "agents.md" | "gemini.md" | "qwen.md" | "agent.md")
        || name.ends_with(".instructions.md")
        || name.ends_with(".mdc")
}

fn has_extension(relative: &str) -> bool {
    let name = relative.rsplit('/').next().unwrap_or_default();
    name.rfind('.').is_some_and(|at| at > 0)
}

fn affects(relative: &str, is_dir: bool) -> bool {
    path_affects_harness(
        relative,
        is_dir,
        has_extension(relative),
        is_instruction(relative),
        &skill_roots(),
        &project_roots(),
    )
}

#[test]
fn only_harness_discovery_paths_trigger_a_rescan() {
    for unrelated in [
        "src/widget.rs",
        "src/rules_engine.rs",
        "docs/skill-design.md",
        ".github/workflows/build.yml",
        ".windsurf/settings.json",
        ".agents/skills/review/references/notes.md",
        ".agents/skills/review/scripts/run.py",
        "rules/engine.rs",
        "instructions/data.json",
        "memories/cache.txt",
        "rules/category/deep/ignored.mdc",
        "notes.tmp",
    ] {
        assert!(!affects(unrelated, false), "{unrelated}");
    }

    for relevant in [
        "AGENTS.md",
        "GEMINI.md",
        "QWEN.md",
        "AGENT.md",
        "rules/AGENT.md",
        "rules/category",
        "rules/category/agent.instructions.md",
        ".cursor/rules/project.mdc",
        ".cursor/rules/category",
        ".github/instructions/rust.instructions.md",
        ".windsurf/GEMINI.md",
        ".agents/skills/review/SKILL.md",
        ".agents/skills/review",
        ".agents/skills/review/references",
        "skills/new-skill",
    ] {
        assert!(affects(relevant, false), "{relevant}");
    }

    // A directory whose name looks like a file's.
    for relevant in ["skills/review.v2", ".cursor/rules/team.v2"] {
        assert!(affects(relevant, true), "{relevant}");
    }
}

#[test]
fn a_directory_that_holds_a_root_is_relevant() {
    assert!(affects(".agents", false));
    assert!(affects("skills", false));
    assert!(affects(".cursor", true));
    assert!(!affects("src", true));
}

#[test]
fn case_and_separators_do_not_matter() {
    assert!(affects(".AGENTS\\Skills\\Review\\skill.MD", false));
    assert_eq!(harness_text(".Agents\\Skills"), ".agents/skills");
}


#[test]
fn a_name_that_only_begins_like_a_root_is_unrelated() {
    assert!(!affects("skills-archive/a/b.md", false));
    assert!(!affects("skillset", true));
}
