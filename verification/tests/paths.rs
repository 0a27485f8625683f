use herdr_title_rename::{basename, parent, render_path, PathStyle};

const HOME: &str = "/Users/adam";

#[test]
fn path_styles() {
    assert_eq!(
        render_path("/Users/adam/dev/app", PathStyle::Tilde, Some(HOME)),
        "~/dev/app"
    );
    assert_eq!(render_path(HOME, PathStyle::Tilde, Some(HOME)), "~");
    // A sibling that merely shares the prefix must not be rewritten.
    assert_eq!(
        render_path("/Users/adamant/dev", PathStyle::Tilde, Some(HOME)),
        "/Users/adamant/dev"
    );
    assert_eq!(
        render_path("/opt/homebrew", PathStyle::Tilde, Some(HOME)),
        "/opt/homebrew"
    );
    assert_eq!(
        render_path("/Users/adam/dev/app", PathStyle::Full, Some(HOME)),
        "/Users/adam/dev/app"
    );
    assert_eq!(
        render_path("/Users/adam/dev/app", PathStyle::Basename, Some(HOME)),
        "app"
    );
    assert_eq!(render_path("/Users/adam", PathStyle::Omit, Some(HOME)), "");
}

#[test]
fn basenames() {
    assert_eq!(basename("/Users/adam/dev/app"), "app");
    assert_eq!(basename("/Users/adam/dev/app/"), "app");
    assert_eq!(basename("/"), "/");
    assert_eq!(basename("app"), "app");
}

#[test]
fn basenames_at_the_edges() {
    assert_eq!(basename(""), "");
    assert_eq!(basename("///"), "///");
    assert_eq!(basename("a//b//"), "b");
    assert_eq!(basename("/caf\u{e9}/na\u{ef}ve/"), "na\u{ef}ve");
    // A base name is its own base name.
    assert_eq!(basename(basename("/x/y.z/")), "y.z");
}

#[test]
fn parents() {
    assert_eq!(parent("/a/b"), Some("/a"));
    assert_eq!(parent("/a/b/"), Some("/a"));
    assert_eq!(parent("/a"), Some("/"));
    assert_eq!(parent("a"), None);
    assert_eq!(parent("/"), None);
    assert_eq!(parent(""), None);
    assert_eq!(parent("a//b"), Some("a/"));
}

#[test]
fn a_home_that_says_nothing_is_ignored() {
    assert_eq!(render_path("/a/b", PathStyle::Tilde, None), "/a/b");
    assert_eq!(render_path("/a/b", PathStyle::Tilde, Some("")), "/a/b");
    assert_eq!(render_path("/a/b", PathStyle::Tilde, Some("  \n")), "/a/b");
}

#[test]
fn slashes_after_the_home_directory_do_not_hide_it() {
    let home = Some("/Users/adam/");
    assert_eq!(render_path("/Users/adam/dev", PathStyle::Tilde, home), "~/dev");
    assert_eq!(render_path("/Users/adam", PathStyle::Tilde, home), "~");
    assert_eq!(render_path("/Users/adam/", PathStyle::Tilde, home), "~");
    assert_eq!(render_path("/Users/adamant", PathStyle::Tilde, home), "/Users/adamant");
    assert_eq!(render_path("/Users/adam/dev", PathStyle::Tilde, Some("/Users/adam//")), "~/dev");
    assert_eq!(render_path("/Users/adam/", PathStyle::Tilde, Some("/Users/adam")), "~/");
    // Where the directory goes on from home as it is written, that is cut off.
    assert_eq!(render_path("/Users/adam//dev", PathStyle::Tilde, home), "~/dev");
    assert_eq!(render_path("/Users/adam//", PathStyle::Tilde, home), "~/");
    assert_eq!(render_path("//opt", PathStyle::Tilde, Some("/")), "~/opt");
    assert_eq!(render_path("/", PathStyle::Tilde, Some("//")), "/");
    // Everything lies under the root directory.
    assert_eq!(render_path("/", PathStyle::Tilde, Some("/")), "~");
    assert_eq!(render_path("/opt", PathStyle::Tilde, Some("/")), "~/opt");
    assert_eq!(render_path("opt", PathStyle::Tilde, Some("/")), "opt");
    assert_eq!(render_path("", PathStyle::Tilde, Some("/")), "");
}

#[test]
fn the_full_style_leaves_the_directory_as_it_is() {
    assert_eq!(render_path(" /tmp/x ", PathStyle::Full, None), " /tmp/x ");
    assert_eq!(render_path("/Users/adam/", PathStyle::Full, Some("/Users/adam")), "/Users/adam/");
}

#[test]
fn directory_and_home_are_trimmed() {
    assert_eq!(
        render_path(" /Users/adam/dev\n", PathStyle::Tilde, Some(" /Users/adam ")),
        "~/dev"
    );
    assert_eq!(render_path("\u{3000}/a/b\u{a0}", PathStyle::Tilde, None), "/a/b");
    assert_eq!(render_path(" /a/b ", PathStyle::Basename, None), "b");
}
