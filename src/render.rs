use vstd::prelude::*;
use vstd::string::*;

use crate::config::names_of;

verus! {

/// The markdown features that are switched on for a build.
#[derive(Clone, Copy, Debug, PartialEq, Eq, Structural)]
pub struct RenderOptions {
    /// Table syntax.
    pub tables: bool,
    /// Footnote syntax.
    pub footnotes: bool,
}

/// The HTML fragment that pulldown-cmark renders from `text` with the given
/// features; it depends on these arguments alone.
pub uninterp spec fn markdown_html(text: Seq<char>, tables: bool, footnotes: bool) -> Seq<char>;

/// The render options that a list of feature names switches on.
pub open spec fn options_from(names: Seq<Seq<char>>) -> RenderOptions {
    RenderOptions { tables: names.contains("tables"@), footnotes: names.contains("footnotes"@) }
}

/// The fragment rendered from `text` under `options`.
pub open spec fn fragment_of(text: Seq<char>, options: RenderOptions) -> Seq<char> {
    markdown_html(text, options.tables, options.footnotes)
}

/// A fragment embedded in the minimal document shell.
pub open spec fn page_shell(fragment: Seq<char>) -> Seq<char> {
    "<!DOCTYPE html>\n<html>\n<body>\n"@ + fragment + "</body>\n</html>\n"@
}

/// The page made from `text`: the rendered fragment, in the shell when `wrap` is set.
pub open spec fn page_text(text: Seq<char>, wrap: bool, options: RenderOptions) -> Seq<char> {
    if wrap {
        page_shell(fragment_of(text, options))
    } else {
        fragment_of(text, options)
    }
}

/// Relies on `pulldown_cmark::html::push_html` over `pulldown_cmark::Parser::new_ext`
/// (pulldown-cmark 0.1): the HTML of a markdown text under the given option flags,
/// appended to an empty buffer.
#[verifier::external_body]
fn markdown_to_html(text: &str, tables: bool, footnotes: bool) -> (r: String)
    ensures
        r@ == markdown_html(text@, tables, footnotes),
{
    let mut flags = pulldown_cmark::Options::empty();
    flags.set(pulldown_cmark::OPTION_ENABLE_TABLES, tables);
    flags.set(pulldown_cmark::OPTION_ENABLE_FOOTNOTES, footnotes);
    let mut html = String::new();
    pulldown_cmark::html::push_html(&mut html, pulldown_cmark::Parser::new_ext(text, flags));
    html
}

/// Whether `name` is one of `names`.
fn has_name(names: &Vec<String>, name: &str) -> (r: bool)
    ensures
        r == names_of(names@).contains(name@),
{
    let wanted = String::from_str(name);
    let mut i: usize = 0;
    while i < names.len()
        invariant
            wanted@ == name@,
            i <= names@.len(),
            forall|j: int| 0 <= j < i ==> names@[j]@ != name@,
        decreases names@.len() - i,
    {
        if names[i] == wanted {
            assert(names_of(names@)[i as int] == name@);
            return true;
        }
        i = i + 1;
    }
    assert(!names_of(names@).contains(name@)) by {
        if names_of(names@).contains(name@) {
            let k = choose|k: int| 0 <= k < names_of(names@).len() && names_of(names@)[k] == name@;
            assert(names@[k]@ == name@);
        }
    }
    false
}

/// Derives the render options from the configured feature names: tables when
/// `tables` is listed, footnotes when `footnotes` is listed.
pub fn render_options(markdown_options: &Vec<String>) -> (r: RenderOptions)
    ensures
        r == options_from(names_of(markdown_options@)),
{
    let tables = has_name(markdown_options, "tables");
    let footnotes = has_name(markdown_options, "footnotes");
    RenderOptions { tables, footnotes }
}

/// Converts one markdown text into an HTML fragment.
pub fn render(text: &str, options: RenderOptions) -> (r: String)
    ensures
        r@ == fragment_of(text@, options),
{
    markdown_to_html(text, options.tables, options.footnotes)
}

/// Embeds an HTML fragment in the minimal document shell.
pub fn wrap_page(fragment: &str) -> (r: String)
    ensures
        r@ == page_shell(fragment@),
{
    let mut page = String::from_str("<!DOCTYPE html>\n<html>\n<body>\n");
    page.append(fragment);
    page.append("</body>\n</html>\n");
    page
}

/// The page made from one document's text.
pub fn page_html(text: &str, wrap: bool, options: RenderOptions) -> (r: String)
    ensures
        r@ == page_text(text@, wrap, options),
{
    let fragment = render(text, options);
    if wrap {
        wrap_page(fragment.as_str())
    } else {
        fragment
    }
}

} // verus!
