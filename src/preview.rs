use vstd::prelude::*;
use vstd::string::*;

verus! {

/// What the preview server reads of an HTTP request.
pub struct PreviewRequest {
    /// Whether the method is GET.
    pub is_get: bool,
    /// The request target when it is in absolute-path form, such as `/index.html`.
    pub absolute_path: Option<String>,
}

/// A response: a status code and a body.
pub struct Reply {
    pub status: u16,
    pub body: Vec<u8>,
}

/// The abstract content of a [`Reply`].
pub struct ReplySpec {
    pub status: u16,
    pub body: Seq<u8>,
}

impl View for Reply {
    type V = ReplySpec;

    open spec fn view(&self) -> ReplySpec {
        ReplySpec { status: self.status, body: self.body@ }
    }
}

/// What the server does with a request: answer at once, or look up a file
/// under the output directory.
pub enum Decision {
    Respond(Reply),
    ServeFile(String),
}

/// The abstract content of a [`Decision`].
pub enum DecisionSpec {
    Respond(ReplySpec),
    ServeFile(Seq<char>),
}

impl View for Decision {
    type V = DecisionSpec;

    open spec fn view(&self) -> DecisionSpec {
        match self {
            Decision::Respond(r) => DecisionSpec::Respond(r@),
            Decision::ServeFile(p) => DecisionSpec::ServeFile(p@),
        }
    }
}

/// What a lookup of the resolved path found.
pub enum FileProbe {
    /// A regular file, with its contents.
    Contents(Vec<u8>),
    /// Nothing, or something that is not a regular file.
    Missing,
    /// A regular file that could not be read.
    Unreadable,
}

/// The abstract content of a [`FileProbe`].
pub enum ProbeSpec {
    Contents(Seq<u8>),
    Missing,
    Unreadable,
}

impl View for FileProbe {
    type V = ProbeSpec;

    open spec fn view(&self) -> ProbeSpec {
        match self {
            FileProbe::Contents(c) => ProbeSpec::Contents(c@),
            FileProbe::Missing => ProbeSpec::Missing,
            FileProbe::Unreadable => ProbeSpec::Unreadable,
        }
    }
}

/// The body of a 400 response.
pub open spec fn bad_request_body() -> Seq<u8> {
    "<h1>400 Bad Request</h1>\n".spec_bytes()
}

/// The body of a 404 response.
pub open spec fn not_found_body() -> Seq<u8> {
    "<h1>404 Not Found</h1>\n".spec_bytes()
}

/// The body of a 500 response.
pub open spec fn server_error_body() -> Seq<u8> {
    "<h1>500 Internal Server Error</h1>\n".spec_bytes()
}

/// Whether a request target is in absolute-path form.
pub open spec fn is_absolute(path: Seq<char>) -> bool {
    path.len() > 0 && path[0] == '/'
}

/// `rest` joined onto `base` as a Unix path: an absolute `rest` replaces
/// `base`, and a separator is put between the two where `base` is not empty
/// and does not already end in one.
pub open spec fn join_path(base: Seq<char>, rest: Seq<char>) -> Seq<char> {
    if is_absolute(rest) || base.len() == 0 {
        rest
    } else if base.last() == '/' {
        base + rest
    } else {
        base + "/"@ + rest
    }
}

/// The decision for a request to a server that serves `page_dir`: a GET for
/// an absolute path is served from `page_dir` joined with the path less its
/// leading `/`; any other request is answered with 400.
pub open spec fn decision_of(page_dir: Seq<char>, is_get: bool, path: Option<Seq<char>>) -> DecisionSpec {
    if is_get && path is Some && is_absolute(path->0) {
        DecisionSpec::ServeFile(join_path(page_dir, path->0.drop_first()))
    } else {
        DecisionSpec::Respond(ReplySpec { status: 400, body: bad_request_body() })
    }
}

/// The response once the resolved path has been looked up.
pub open spec fn reply_of(probe: ProbeSpec) -> ReplySpec {
    match probe {
        ProbeSpec::Contents(c) => ReplySpec { status: 200, body: c },
        ProbeSpec::Missing => ReplySpec { status: 404, body: not_found_body() },
        ProbeSpec::Unreadable => ReplySpec { status: 500, body: server_error_body() },
    }
}

/// The request's target path, as the decision reads it.
pub open spec fn target_of(request: PreviewRequest) -> Option<Seq<char>> {
    match request.absolute_path {
        Some(p) => Some(p@),
        None => None,
    }
}

/// A GET for an absolute path that names a regular file under the served
/// directory is answered with 200 and the file's contents.
pub proof fn lemma_existing_file_served(page_dir: Seq<char>, path: Seq<char>, contents: Seq<u8>)
    requires
        is_absolute(path),
    ensures
        decision_of(page_dir, true, Some(path)) == DecisionSpec::ServeFile(
            join_path(page_dir, path.drop_first()),
        ),
        reply_of(ProbeSpec::Contents(contents)) == (ReplySpec { status: 200, body: contents }),
{
}

/// A GET for an absolute path with no regular file under the served
/// directory is answered with 404 and the fixed not-found page.
pub proof fn lemma_missing_file_not_found(page_dir: Seq<char>, path: Seq<char>)
    requires
        is_absolute(path),
    ensures
        decision_of(page_dir, true, Some(path)) is ServeFile,
        reply_of(ProbeSpec::Missing) == (ReplySpec { status: 404, body: not_found_body() }),
{
}

/// A request that is not a GET, or whose target is not an absolute path, is
/// answered with 400 and the fixed bad-request page, whatever the directory.
pub proof fn lemma_bad_request(page_dir: Seq<char>, is_get: bool, path: Option<Seq<char>>)
    requires
        !is_get || path is None || !is_absolute(path->0),
    ensures
        decision_of(page_dir, is_get, path) == DecisionSpec::Respond(
            ReplySpec { status: 400, body: bad_request_body() },
        ),
{
}

/// Joins `rest` onto `base` as a Unix path.
pub fn join_path_str(base: &str, rest: &str) -> (r: String)
    ensures
        r@ == join_path(base@, rest@),
{
    let rest_len = rest.unicode_len();
    let base_len = base.unicode_len();
    if (rest_len > 0 && rest.get_char(0) == '/') || base_len == 0 {
        return String::from_str(rest);
    }
    let mut joined = String::from_str(base);
    if base.get_char(base_len - 1) != '/' {
        joined.append("/");
    }
    joined.append(rest);
    joined
}

/// Decides how to answer a request to a server that serves `page_dir`.
pub fn decide(page_dir: &str, request: &PreviewRequest) -> (r: Decision)
    ensures
        r@ == decision_of(page_dir@, request.is_get, target_of(*request)),
{
    match &request.absolute_path {
        Some(path) => {
            let s = path.as_str();
            let n = s.unicode_len();
            if request.is_get && n > 0 && s.get_char(0) == '/' {
                let rest = s.substring_char(1, n);
                assert(rest@ =~= s@.drop_first());
                return Decision::ServeFile(join_path_str(page_dir, rest));
            }
        },
        None => {},
    }
    Decision::Respond(Reply { status: 400, body: "<h1>400 Bad Request</h1>\n".as_bytes_vec() })
}

/// The response once the resolved path has been looked up: the contents of a
/// regular file with 200, 404 when there is none, 500 when it could not be read.
pub fn reply_for(probe: FileProbe) -> (r: Reply)
    ensures
        r@ == reply_of(probe@),
{
    match probe {
        FileProbe::Contents(c) => Reply { status: 200, body: c },
        FileProbe::Missing => Reply { status: 404, body: "<h1>404 Not Found</h1>\n".as_bytes_vec() },
        FileProbe::Unreadable => Reply {
            status: 500,
            body: "<h1>500 Internal Server Error</h1>\n".as_bytes_vec(),
        },
    }
}

} // verus!
