use sitegen::config::Config;
use sitegen::render::{page_html, render, render_options, wrap_page, RenderOptions};
use sitegen::site::{file_stem, plan_entry, plan_pages, SourceEntry};
use sitegen::text::{chars_of, contains_chars};

fn config(options: &[&str]) -> Config {
    Config {
        source_dir: "pages".to_string(),
        output_dir: "_site".to_string(),
        port: 4000,
        markdown_options: options.iter().map(|s| s.to_string()).collect(),
    }
}

fn entry(name: &str, is_file: bool) -> SourceEntry {
    SourceEntry { name: name.to_string(), is_file }
}

#[test]
fn options_follow_configured_names() {
    let both = render_options(&vec!["tables".to_string(), "footnotes".to_string()]);
    assert!(both.tables && both.footnotes);
    let tables = render_options(&vec!["tables".to_string()]);
    assert!(tables.tables && !tables.footnotes);
    let none = render_options(&vec!["Tables".to_string(), "footnote".to_string()]);
    assert!(!none.tables && !none.footnotes);
    let empty = render_options(&Vec::new());
    assert_eq!(empty, RenderOptions { tables: false, footnotes: false });
}

#[test]
fn heading_page_is_wrapped() {
    let options = RenderOptions { tables: true, footnotes: true };
    let page = page_html("# Hi", true, options);
    assert!(page.contains("<h1>Hi</h1>"));
    assert!(page.starts_with("<!DOCTYPE html>\n<html>\n<body>\n"));
    assert!(page.ends_with("</body>\n</html>\n"));
    assert_eq!(page, wrap_page(&render("# Hi", options)));
}

#[test]
fn unwrapped_page_is_the_fragment() {
    let options = RenderOptions { tables: false, footnotes: false };
    let page = page_html("# Hi", false, options);
    assert_eq!(page, "<h1>Hi</h1>\n");
}

#[test]
fn render_converts_markdown() {
    let options = RenderOptions { tables: false, footnotes: false };
    let html = render("some *emphasis*", options);
    assert_eq!(html, "<p>some <em>emphasis</em></p>\n");
    assert_ne!(html, "some *emphasis*");
}

#[test]
fn table_syntax_follows_option() {
    let text = "| a | b |\n|---|---|\n| 1 | 2 |\n";
    let with = render(text, RenderOptions { tables: true, footnotes: false });
    let without = render(text, RenderOptions { tables: false, footnotes: false });
    assert!(with.contains("<table>"));
    assert!(!without.contains("<table>"));
}

#[test]
fn wrap_page_exact() {
    assert_eq!(wrap_page("<p>x</p>\n"), "<!DOCTYPE html>\n<html>\n<body>\n<p>x</p>\n</body>\n</html>\n");
    assert_eq!(wrap_page(""), "<!DOCTYPE html>\n<html>\n<body>\n</body>\n</html>\n");
}

#[test]
fn stems() {
    assert_eq!(file_stem("hello.md"), "hello");
    assert_eq!(file_stem("readme.mdx.bak"), "readme.mdx");
    assert_eq!(file_stem("plain"), "plain");
    assert_eq!(file_stem(".md"), ".md");
    assert_eq!(file_stem(".notes.md"), ".notes");
    assert_eq!(file_stem("trailing."), "trailing");
    assert_eq!(file_stem(""), "");
}

#[test]
fn substring_search() {
    let token = chars_of(".md");
    assert!(contains_chars(&chars_of("a.md"), &token));
    assert!(contains_chars(&chars_of("readme.mdx.bak"), &token));
    assert!(contains_chars(&chars_of(".md"), &token));
    assert!(!contains_chars(&chars_of("a.m"), &token));
    assert!(!contains_chars(&chars_of("md"), &token));
    assert!(contains_chars(&chars_of("abc"), &chars_of("")));
}

#[test]
fn document_entry_is_planned() {
    let options = RenderOptions { tables: true, footnotes: false };
    let page = plan_entry("pages", "_site", options, &entry("hello.md", true)).unwrap();
    assert_eq!(page.input_file, "pages/hello.md");
    assert_eq!(page.output_file, "_site/hello.html");
    assert!(page.wrap);
    assert_eq!(page.options, options);
}

#[test]
fn skipped_entries_are_not_planned() {
    let options = RenderOptions { tables: false, footnotes: false };
    assert!(plan_entry("pages", "_site", options, &entry("drafts.md", false)).is_none());
    assert!(plan_entry("pages", "_site", options, &entry("notes.txt", true)).is_none());
    assert!(plan_entry("pages", "_site", options, &entry("sub", false)).is_none());
}

#[test]
fn plan_over_listing() {
    let cfg = config(&["tables", "footnotes"]);
    let entries = vec![
        entry("hello.md", true),
        entry("notes.txt", true),
        entry("drafts", false),
        entry("folder.md", false),
        entry("readme.mdx.bak", true),
        entry("about.md", true),
    ];
    let pages = plan_pages(&cfg, &entries);
    let got: Vec<(String, String)> =
        pages.iter().map(|p| (p.input_file.clone(), p.output_file.clone())).collect();
    assert_eq!(
        got,
        vec![
            ("pages/hello.md".to_string(), "_site/hello.html".to_string()),
            ("pages/readme.mdx.bak".to_string(), "_site/readme.mdx.html".to_string()),
            ("pages/about.md".to_string(), "_site/about.html".to_string()),
        ]
    );
    for p in &pages {
        assert!(p.wrap);
        assert_eq!(p.options, RenderOptions { tables: true, footnotes: true });
    }
}

#[test]
fn empty_listing_plans_nothing() {
    let pages = plan_pages(&config(&[]), &Vec::new());
    assert!(pages.is_empty());
}

#[test]
fn planning_twice_gives_the_same_pages() {
    let cfg = config(&["tables"]);
    let entries = vec![entry("a.md", true), entry("b.md", true), entry("c.txt", true)];
    let first = plan_pages(&cfg, &entries);
    let second = plan_pages(&cfg, &entries);
    assert_eq!(first.len(), second.len());
    for (x, y) in first.iter().zip(second.iter()) {
        assert_eq!(x.input_file, y.input_file);
        assert_eq!(x.output_file, y.output_file);
        assert_eq!(x.page_for("# T\n\ntext"), y.page_for("# T\n\ntext"));
    }
}

#[test]
fn hello_example_page() {
    let cfg = config(&["tables", "footnotes"]);
    let pages = plan_pages(&cfg, &vec![entry("hello.md", true)]);
    assert_eq!(pages.len(), 1);
    assert_eq!(pages[0].output_file, "_site/hello.html");
    let html = pages[0].page_for("# Hi");
    assert!(html.contains("<h1>Hi</h1>"));
    assert!(html.starts_with("<!DOCTYPE html>\n<html>\n<body>\n"));
    assert!(html.ends_with("</body>\n</html>\n"));
}
