use vstd::prelude::*;

verus! {

/// The settings of one build or serve invocation.
pub struct Config {
    /// Directory that holds the source documents.
    pub source_dir: String,
    /// Directory that receives the generated pages.
    pub output_dir: String,
    /// Port that the preview server listens on.
    pub port: u16,
    /// Names of the enabled markdown features, such as `tables` and `footnotes`.
    pub markdown_options: Vec<String>,
}

/// The names in a list of strings, as character sequences.
pub open spec fn names_of(v: Seq<String>) -> Seq<Seq<char>> {
    v.map_values(|s: String| s@)
}

} // verus!
