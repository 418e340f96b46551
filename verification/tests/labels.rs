use markturbo::labels::{elide_tab_label, TAB_LABEL_MAX};

#[test]
fn short_names_are_left_alone() {
    for name in ["a.md", "README.md", "architecture.md"] {
        assert_eq!(elide_tab_label(name), name);
    }
}

#[test]
fn long_names_keep_their_extension() {
    // Eliding from the end would remove exactly the part worth keeping:
    // `notes.md` and `notes.mdx` are different documents.
    let long = "a-very-long-document-name-indeed.mdx";
    let out = elide_tab_label(long);
    assert!(out.ends_with(".mdx"), "got {out}");
    assert!(out.contains('…'), "got {out}");
    assert!(out.chars().count() <= TAB_LABEL_MAX, "got {out}");
}

#[test]
fn elision_counts_characters_not_bytes() {
    let name = "这是一个很长的中文文档名称.md";
    let out = elide_tab_label(name);
    assert!(out.chars().count() <= TAB_LABEL_MAX, "got {out}");
    // Long enough to survive intact at this limit.
    assert_eq!(out, name);

    let longer = "这是一个非常非常非常长的中文文档名称需要省略.md";
    let out = elide_tab_label(longer);
    assert!(out.chars().count() <= TAB_LABEL_MAX, "got {out}");
    assert!(out.ends_with(".md"), "got {out}");
}

#[test]
fn a_dotfile_is_not_all_extension() {
    // A leading dot is no extension: there would be nothing left to elide.
    let out = elide_tab_label(".a-really-long-dotfile-name-here");
    assert!(!out.starts_with('…'), "got {out}");
    assert!(out.chars().count() <= TAB_LABEL_MAX, "got {out}");
}

#[test]
fn a_name_with_no_extension_still_elides() {
    let out = elide_tab_label("LICENSE-WITH-A-VERY-LONG-SUFFIX");
    assert!(out.chars().count() <= TAB_LABEL_MAX, "got {out}");
    assert!(out.ends_with('…'), "got {out}");
}

#[test]
fn elided_labels_are_exact() {
    assert_eq!(elide_tab_label("a-very-long-document-name-indeed.mdx"), "a-very-long-docum….mdx");
    assert_eq!(elide_tab_label("LICENSE-WITH-A-VERY-LONG-SUFFIX"), "LICENSE-WITH-A-VERY-L…");
    assert_eq!(elide_tab_label(""), "");
}

#[test]
fn a_name_at_the_limit_is_left_alone() {
    let name = "abcdefghijklmnopqr.mdx";
    assert_eq!(name.chars().count(), TAB_LABEL_MAX);
    assert_eq!(elide_tab_label(name), name);
    assert_eq!(elide_tab_label("abcdefghijklmnopqrs.mdx"), "abcdefghijklmnopq….mdx");
}

#[test]
fn a_long_extension_leaves_three_characters_of_the_stem() {
    assert_eq!(
        elide_tab_label("document.an-extension-longer-than-the-label"),
        "doc….an-extension-longer-than-the-label"
    );
}
