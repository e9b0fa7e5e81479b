use vstd::prelude::*;
use vstd::string::*;

use crate::config::{names_of, Config};
use crate::render::{options_from, page_html, page_text, render_options, RenderOptions};
use crate::text::{chars_of, contains_chars, contains_seq};

verus! {

/// One entry of the source directory listing.
pub struct SourceEntry {
    /// The entry's file name.
    pub name: String,
    /// Whether the entry is a regular file.
    pub is_file: bool,
}

/// Whether an entry is a document: a regular file whose name contains `.md`.
pub open spec fn is_document(e: SourceEntry) -> bool {
    e.is_file && contains_seq(e.name@, ".md"@)
}

/// Index of the last `.` in `s`, or -1 when there is none.
pub open spec fn last_dot(s: Seq<char>) -> int
    decreases s.len(),
{
    if s.len() == 0 {
        -1
    } else if s.last() == '.' {
        s.len() - 1
    } else {
        last_dot(s.drop_last())
    }
}

/// The stem of a file name: the part before its last `.`, or the whole name
/// when it has no `.` or its only `.` is its first character.
pub open spec fn stem_of(name: Seq<char>) -> Seq<char> {
    if last_dot(name) <= 0 {
        name
    } else {
        name.subrange(0, last_dot(name))
    }
}

/// The path of a file named `name` in directory `dir`.
pub open spec fn source_path(dir: Seq<char>, name: Seq<char>) -> Seq<char> {
    dir + "/"@ + name
}

/// The path of the page with stem `stem` in directory `dir`.
pub open spec fn output_path(dir: Seq<char>, stem: Seq<char>) -> Seq<char> {
    dir + "/"@ + stem + ".html"@
}

/// The work of rendering one source file into one page file.
pub struct PageGenerator {
    /// The markdown file that is read.
    pub input_file: String,
    /// The HTML file that is written.
    pub output_file: String,
    /// Whether the fragment is embedded in the document shell.
    pub wrap: bool,
    /// The markdown features in use.
    pub options: RenderOptions,
}

/// The abstract content of a [`PageGenerator`].
pub struct PageSpec {
    pub input_file: Seq<char>,
    pub output_file: Seq<char>,
    pub wrap: bool,
    pub options: RenderOptions,
}

impl View for PageGenerator {
    type V = PageSpec;

    open spec fn view(&self) -> PageSpec {
        PageSpec {
            input_file: self.input_file@,
            output_file: self.output_file@,
            wrap: self.wrap,
            options: self.options,
        }
    }
}

/// The abstract contents of a list of page generators.
pub open spec fn pages_view(v: Seq<PageGenerator>) -> Seq<PageSpec> {
    v.map_values(|g: PageGenerator| g@)
}

/// The page that a document entry becomes.
pub open spec fn page_for_entry(
    source_dir: Seq<char>,
    output_dir: Seq<char>,
    options: RenderOptions,
    e: SourceEntry,
) -> PageSpec {
    PageSpec {
        input_file: source_path(source_dir, e.name@),
        output_file: output_path(output_dir, stem_of(e.name@)),
        wrap: true,
        options,
    }
}

/// The pages of a build over a directory listing: one for each document
/// entry, in listing order.
pub open spec fn planned(
    source_dir: Seq<char>,
    output_dir: Seq<char>,
    options: RenderOptions,
    entries: Seq<SourceEntry>,
) -> Seq<PageSpec>
    decreases entries.len(),
{
    if entries.len() == 0 {
        Seq::empty()
    } else {
        let rest = planned(source_dir, output_dir, options, entries.drop_last());
        if is_document(entries.last()) {
            rest.push(page_for_entry(source_dir, output_dir, options, entries.last()))
        } else {
            rest
        }
    }
}

/// The pages that a build under `config` plans for a directory listing.
pub open spec fn build_plan(config: Config, entries: Seq<SourceEntry>) -> Seq<PageSpec> {
    planned(
        config.source_dir@,
        config.output_dir@,
        options_from(names_of(config.markdown_options@)),
        entries,
    )
}

/// The output tree after the pages of `plan` are written in order over `out`,
/// each from the text that `sources` holds for its input file.
pub open spec fn written(
    plan: Seq<PageSpec>,
    sources: Map<Seq<char>, Seq<char>>,
    out: Map<Seq<char>, Seq<char>>,
) -> Map<Seq<char>, Seq<char>>
    decreases plan.len(),
{
    if plan.len() == 0 {
        out
    } else {
        let p = plan.last();
        written(plan.drop_last(), sources, out).insert(
            p.output_file,
            page_text(sources[p.input_file], p.wrap, p.options),
        )
    }
}

/// The stem of a file name.
pub fn file_stem(name: &str) -> (r: String)
    ensures
        r@ == stem_of(name@),
{
    let chars = chars_of(name);
    let mut i: usize = chars.len();
    assert(name@.subrange(0, i as int) =~= name@);
    while i > 0
        invariant
            chars@ == name@,
            i <= name@.len(),
            last_dot(name@) == last_dot(name@.subrange(0, i as int)),
        decreases i,
    {
        assert(name@.subrange(0, i as int).drop_last() =~= name@.subrange(0, i - 1));
        if chars[i - 1] == '.' {
            if i == 1 {
                return String::from_str(name);
            }
            return String::from_str(name.substring_char(0, i - 1));
        }
        i = i - 1;
    }
    String::from_str(name)
}

/// The page for one directory entry, or `None` when the entry is not a document.
pub fn plan_entry(source_dir: &str, output_dir: &str, options: RenderOptions, entry: &SourceEntry) -> (r:
    Option<PageGenerator>)
    ensures
        is_document(*entry) ==> r is Some && r->0@ == page_for_entry(
            source_dir@,
            output_dir@,
            options,
            *entry,
        ),
        !is_document(*entry) ==> r is None,
{
    let name = chars_of(entry.name.as_str());
    let token = chars_of(".md");
    if !entry.is_file || !contains_chars(&name, &token) {
        return None;
    }
    let mut input_file = String::from_str(source_dir);
    input_file.append("/");
    input_file.append(entry.name.as_str());
    let stem = file_stem(entry.name.as_str());
    let mut output_file = String::from_str(output_dir);
    output_file.append("/");
    output_file.append(stem.as_str());
    output_file.append(".html");
    Some(PageGenerator { input_file, output_file, wrap: true, options })
}

/// The pages of a build under `config` over a listing of the source
/// directory: one for each regular file whose name contains `.md`, in
/// listing order, each read from the source directory and written to
/// `<stem>.html` in the output directory, wrapped, with the configured
/// render options.
pub fn plan_pages(config: &Config, entries: &Vec<SourceEntry>) -> (r: Vec<PageGenerator>)
    ensures
        pages_view(r@) == build_plan(*config, entries@),
{
    let options = render_options(&config.markdown_options);
    let ghost o = options_from(names_of(config.markdown_options@));
    let mut pages: Vec<PageGenerator> = Vec::new();
    let mut i: usize = 0;
    while i < entries.len()
        invariant
            options == o,
            i <= entries@.len(),
            pages_view(pages@) == planned(
                config.source_dir@,
                config.output_dir@,
                o,
                entries@.subrange(0, i as int),
            ),
        decreases entries@.len() - i,
    {
        let ghost before = pages@;
        assert(entries@.subrange(0, i + 1).drop_last() =~= entries@.subrange(0, i as int));
        match plan_entry(config.source_dir.as_str(), config.output_dir.as_str(), options, &entries[i]) {
            Some(page) => {
                pages.push(page);
                assert(pages_view(pages@) =~= pages_view(before).push(pages@.last()@));
            },
            None => {},
        }
        i = i + 1;
    }
    assert(entries@.subrange(0, entries@.len() as int) =~= entries@);
    pages
}

/// Distinct stems give distinct page paths in one directory.
proof fn lemma_output_path_injective(dir: Seq<char>, a: Seq<char>, b: Seq<char>)
    requires
        output_path(dir, a) == output_path(dir, b),
    ensures
        a == b,
{
    reveal_strlit("/");
    reveal_strlit(".html");
    let x = output_path(dir, a);
    let y = output_path(dir, b);
    let k: int = dir.len() as int + 1;
    assert("/"@.len() == 1);
    assert(".html"@.len() == 5);
    assert(x.len() == dir.len() + 1 + a.len() + 5);
    assert(y.len() == dir.len() + 1 + b.len() + 5);
    assert(a.len() == b.len());
    assert(x.subrange(k, k + a.len() as int) =~= a);
    assert(y.subrange(k, k + b.len() as int) =~= b);
}

/// Distinct names give distinct file paths in one directory.
proof fn lemma_source_path_injective(dir: Seq<char>, a: Seq<char>, b: Seq<char>)
    requires
        source_path(dir, a) == source_path(dir, b),
    ensures
        a == b,
{
    reveal_strlit("/");
    let x = source_path(dir, a);
    let k: int = dir.len() as int + 1;
    assert(x.subrange(k, x.len() as int) =~= a);
    assert(source_path(dir, b).subrange(k, x.len() as int) =~= b);
}

/// Every planned page comes from a document entry of the listing.
proof fn lemma_planned_from_document(
    source_dir: Seq<char>,
    output_dir: Seq<char>,
    options: RenderOptions,
    entries: Seq<SourceEntry>,
    k: int,
)
    requires
        0 <= k < planned(source_dir, output_dir, options, entries).len(),
    ensures
        exists|i: int|
            0 <= i < entries.len() && is_document(entries[i]) && planned(
                source_dir,
                output_dir,
                options,
                entries,
            )[k] == page_for_entry(source_dir, output_dir, options, #[trigger] entries[i]),
    decreases entries.len(),
{
    let prefix = entries.drop_last();
    let rest = planned(source_dir, output_dir, options, prefix);
    if k < rest.len() {
        lemma_planned_from_document(source_dir, output_dir, options, prefix, k);
        let i = choose|i: int|
            0 <= i < prefix.len() && is_document(prefix[i]) && rest[k] == page_for_entry(
                source_dir,
                output_dir,
                options,
                #[trigger] prefix[i],
            );
        assert(entries[i] == prefix[i]);
    } else {
        assert(entries[entries.len() - 1] == entries.last());
    }
}

/// Every document entry of the listing has its page in the plan.
proof fn lemma_document_planned(
    source_dir: Seq<char>,
    output_dir: Seq<char>,
    options: RenderOptions,
    entries: Seq<SourceEntry>,
    i: int,
)
    requires
        0 <= i < entries.len(),
        is_document(entries[i]),
    ensures
        exists|k: int|
            0 <= k < planned(source_dir, output_dir, options, entries).len() && #[trigger] planned(
                source_dir,
                output_dir,
                options,
                entries,
            )[k] == page_for_entry(source_dir, output_dir, options, entries[i]),
    decreases entries.len(),
{
    let prefix = entries.drop_last();
    let rest = planned(source_dir, output_dir, options, prefix);
    let all = planned(source_dir, output_dir, options, entries);
    if i < entries.len() - 1 {
        assert(prefix[i] == entries[i]);
        lemma_document_planned(source_dir, output_dir, options, prefix, i);
        let k = choose|k: int|
            0 <= k < rest.len() && #[trigger] rest[k] == page_for_entry(
                source_dir,
                output_dir,
                options,
                entries[i],
            );
        assert(all[k] == rest[k]);
    } else {
        assert(all[rest.len() as int] == page_for_entry(source_dir, output_dir, options, entries[i]));
    }
}

/// Where at most one document entry has a given page path, at most one
/// planned page is written there.
proof fn lemma_single_writer(
    source_dir: Seq<char>,
    output_dir: Seq<char>,
    options: RenderOptions,
    entries: Seq<SourceEntry>,
    target: Seq<char>,
)
    requires
        forall|a: int, b: int|
            0 <= a < entries.len() && 0 <= b < entries.len() && is_document(entries[a])
                && is_document(entries[b]) && output_path(output_dir, stem_of(#[trigger] entries[a].name@))
                == target && output_path(output_dir, stem_of(#[trigger] entries[b].name@)) == target
                ==> a == b,
    ensures
        forall|k1: int, k2: int|
            0 <= k1 < planned(source_dir, output_dir, options, entries).len() && 0 <= k2 < planned(
                source_dir,
                output_dir,
                options,
                entries,
            ).len() && (#[trigger] planned(source_dir, output_dir, options, entries)[k1]).output_file
                == target && (#[trigger] planned(source_dir, output_dir, options, entries)[k2]).output_file
                == target ==> k1 == k2,
    decreases entries.len(),
{
    if entries.len() > 0 {
        let prefix = entries.drop_last();
        let rest = planned(source_dir, output_dir, options, prefix);
        let last = entries.len() - 1;
        assert forall|a: int, b: int|
            0 <= a < prefix.len() && 0 <= b < prefix.len() && is_document(prefix[a]) && is_document(
                prefix[b],
            ) && output_path(output_dir, stem_of(#[trigger] prefix[a].name@)) == target && output_path(
                output_dir,
                stem_of(#[trigger] prefix[b].name@),
            ) == target implies a == b by {
            assert(prefix[a] == entries[a] && prefix[b] == entries[b]);
        }
        lemma_single_writer(source_dir, output_dir, options, prefix, target);
        if is_document(entries.last()) && output_path(output_dir, stem_of(entries.last().name@))
            == target {
            assert forall|k: int| 0 <= k < rest.len() implies (#[trigger] rest[k]).output_file
                != target by {
                lemma_planned_from_document(source_dir, output_dir, options, prefix, k);
                let i = choose|i: int|
                    0 <= i < prefix.len() && is_document(prefix[i]) && rest[k] == page_for_entry(
                        source_dir,
                        output_dir,
                        options,
                        #[trigger] prefix[i],
                    );
                assert(prefix[i] == entries[i]);
                assert(entries[last] == entries.last());
            }
        }
    }
}

/// The page written last at a path is the one that the output tree holds there.
proof fn lemma_written_at(
    plan: Seq<PageSpec>,
    sources: Map<Seq<char>, Seq<char>>,
    out: Map<Seq<char>, Seq<char>>,
    k: int,
)
    requires
        0 <= k < plan.len(),
        forall|m: int| k < m < plan.len() ==> (#[trigger] plan[m]).output_file != plan[k].output_file,
    ensures
        written(plan, sources, out).contains_key(plan[k].output_file),
        written(plan, sources, out)[plan[k].output_file] == page_text(
            sources[plan[k].input_file],
            plan[k].wrap,
            plan[k].options,
        ),
    decreases plan.len(),
{
    if k < plan.len() - 1 {
        let prefix = plan.drop_last();
        assert(prefix[k] == plan[k]);
        assert forall|m: int| k < m < prefix.len() implies (#[trigger] prefix[m]).output_file
            != prefix[k].output_file by {
            assert(prefix[m] == plan[m]);
        }
        lemma_written_at(prefix, sources, out, k);
        assert(plan[plan.len() - 1] == plan.last());
    }
}

/// Writing a plan over a tree keeps what the plan does not write and holds
/// the plan's pages everywhere else.
proof fn lemma_written_over(
    plan: Seq<PageSpec>,
    sources: Map<Seq<char>, Seq<char>>,
    out: Map<Seq<char>, Seq<char>>,
)
    ensures
        written(plan, sources, out) == out.union_prefer_right(written(plan, sources, Map::empty())),
    decreases plan.len(),
{
    if plan.len() > 0 {
        lemma_written_over(plan.drop_last(), sources, out);
        lemma_written_over(plan.drop_last(), sources, Map::empty());
        assert(written(plan, sources, out) =~= out.union_prefer_right(
            written(plan, sources, Map::empty()),
        ));
    }
}

/// After a build, each document of the source directory whose stem no other
/// document shares is rendered by exactly one planned page, at
/// `<output_dir>/<stem>.html`, and the output tree holds there the wrapped
/// fragment of that document's text under the configured render options.
pub proof fn lemma_document_page(
    config: Config,
    entries: Seq<SourceEntry>,
    sources: Map<Seq<char>, Seq<char>>,
    out: Map<Seq<char>, Seq<char>>,
    i: int,
)
    requires
        0 <= i < entries.len(),
        is_document(entries[i]),
        forall|j: int|
            0 <= j < entries.len() && j != i && is_document(#[trigger] entries[j]) ==> stem_of(
                entries[j].name@,
            ) != stem_of(entries[i].name@),
    ensures
        ({
            let plan = build_plan(config, entries);
            let target = output_path(config.output_dir@, stem_of(entries[i].name@));
            let options = options_from(names_of(config.markdown_options@));
            &&& exists|k: int|
                0 <= k < plan.len() && #[trigger] plan[k] == page_for_entry(
                    config.source_dir@,
                    config.output_dir@,
                    options,
                    entries[i],
                )
            &&& forall|k1: int, k2: int|
                0 <= k1 < plan.len() && 0 <= k2 < plan.len() && (#[trigger] plan[k1]).output_file
                    == target && (#[trigger] plan[k2]).output_file == target ==> k1 == k2
            &&& written(plan, sources, out).contains_key(target)
            &&& written(plan, sources, out)[target] == crate::render::page_shell(
                crate::render::fragment_of(
                    sources[source_path(config.source_dir@, entries[i].name@)],
                    options,
                ),
            )
        }),
{
    let sd = config.source_dir@;
    let od = config.output_dir@;
    let options = options_from(names_of(config.markdown_options@));
    let plan = build_plan(config, entries);
    let target = output_path(od, stem_of(entries[i].name@));
    assert forall|a: int, b: int|
        0 <= a < entries.len() && 0 <= b < entries.len() && is_document(entries[a]) && is_document(
            entries[b],
        ) && output_path(od, stem_of(#[trigger] entries[a].name@)) == target && output_path(
            od,
            stem_of(#[trigger] entries[b].name@),
        ) == target implies a == b by {
        lemma_output_path_injective(od, stem_of(entries[a].name@), stem_of(entries[i].name@));
        lemma_output_path_injective(od, stem_of(entries[b].name@), stem_of(entries[i].name@));
    }
    lemma_single_writer(sd, od, options, entries, target);
    lemma_document_planned(sd, od, options, entries, i);
    let k = choose|k: int|
        0 <= k < plan.len() && #[trigger] plan[k] == page_for_entry(sd, od, options, entries[i]);
    lemma_written_at(plan, sources, out, k);
}

/// A directory, or a file whose name lacks `.md`, is read by no planned
/// page; and where no document shares its stem, no planned page is written
/// at `<output_dir>/<stem>.html` either. Names in one listing are distinct.
pub proof fn lemma_skipped_entry(config: Config, entries: Seq<SourceEntry>, i: int)
    requires
        0 <= i < entries.len(),
        !is_document(entries[i]),
        forall|a: int, b: int|
            0 <= a < entries.len() && 0 <= b < entries.len() && a != b ==> (#[trigger] entries[a]).name@
                != (#[trigger] entries[b]).name@,
    ensures
        ({
            let plan = build_plan(config, entries);
            &&& forall|k: int|
                0 <= k < plan.len() ==> (#[trigger] plan[k]).input_file != source_path(
                    config.source_dir@,
                    entries[i].name@,
                )
            &&& (forall|j: int|
                0 <= j < entries.len() && is_document(#[trigger] entries[j]) ==> stem_of(
                    entries[j].name@,
                ) != stem_of(entries[i].name@)) ==> forall|k: int|
                0 <= k < plan.len() ==> (#[trigger] plan[k]).output_file != output_path(
                    config.output_dir@,
                    stem_of(entries[i].name@),
                )
        }),
{
    let sd = config.source_dir@;
    let od = config.output_dir@;
    let options = options_from(names_of(config.markdown_options@));
    let plan = build_plan(config, entries);
    assert forall|k: int| 0 <= k < plan.len() implies {
        &&& (#[trigger] plan[k]).input_file != source_path(sd, entries[i].name@)
        &&& (forall|j: int|
            0 <= j < entries.len() && is_document(#[trigger] entries[j]) ==> stem_of(entries[j].name@)
                != stem_of(entries[i].name@)) ==> plan[k].output_file != output_path(
            od,
            stem_of(entries[i].name@),
        )
    } by {
        lemma_planned_from_document(sd, od, options, entries, k);
        let j = choose|j: int|
            0 <= j < entries.len() && is_document(entries[j]) && plan[k] == page_for_entry(
                sd,
                od,
                options,
                #[trigger] entries[j],
            );
        if plan[k].input_file == source_path(sd, entries[i].name@) {
            lemma_source_path_injective(sd, entries[j].name@, entries[i].name@);
        }
        if plan[k].output_file == output_path(od, stem_of(entries[i].name@)) {
            lemma_output_path_injective(od, stem_of(entries[j].name@), stem_of(entries[i].name@));
        }
    }
}

/// A second build with the same sources and configuration leaves the output
/// tree as the first one left it.
pub proof fn lemma_build_idempotent(
    config: Config,
    entries: Seq<SourceEntry>,
    sources: Map<Seq<char>, Seq<char>>,
    out: Map<Seq<char>, Seq<char>>,
)
    ensures
        ({
            let plan = build_plan(config, entries);
            written(plan, sources, written(plan, sources, out)) == written(plan, sources, out)
        }),
{
    let plan = build_plan(config, entries);
    let pages = written(plan, sources, Map::empty());
    lemma_written_over(plan, sources, out);
    lemma_written_over(plan, sources, written(plan, sources, out));
    assert(out.union_prefer_right(pages).union_prefer_right(pages) =~= out.union_prefer_right(pages));
}

impl PageGenerator {
    /// The page text made from the input file's contents.
    pub fn page_for(&self, text: &str) -> (r: String)
        ensures
            r@ == page_text(text@, self.wrap, self.options),
    {
        page_html(text, self.wrap, self.options)
    }
}

} // verus!
