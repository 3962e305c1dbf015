//! Finding the files of the latest version of the game on the page that embeds it.
//!
//! The page is fetched elsewhere; here its text is searched for the line that holds the loader's
//! options, those options are read as JSON, and the four files that make up the game are listed
//! with the names under which they are stored.
use vstd::prelude::*;
use crate::text::{after_last, after_last_char};

verus! {

/// The page that embeds the game.
pub const FRAME_URL: &'static str = "https://games.crazygames.com/en_US/bullet-force-multiplayer/index.html";

/// The line of the page that holds the loader's options as JSON, in its first group.
pub const OPTIONS_PATTERN: &'static str = "(?m)^var options = (.+);$";

/// Describes the role of a downloading file.
#[derive(Debug, Clone, Copy, PartialEq, Eq, Structural)]
pub enum FileType {
    UnityLoader,
    Framework,
    Code,
    Data,
}

/// Indicates progress on a downloading file
#[derive(Debug)]
pub enum ProgressReport {
    /// Indicates that a file is being downloaded and lists the download progress.
    Progress { file_type: FileType, name: String, downloaded: u64, total: Option<u64> },
    /// Indicates that a file has finished downloading.
    FileDownloaded { file_type: FileType, name: String, data: Vec<u8> },
    /// Indicates that all files have been downloaded and the download process has finished.
    AllFilesDownloaded,
    /// Indicates that something went wrong with the download and the download process has been aborted.
    Crashed(String),
}

/// What a group of a regular expression captured in a text.
#[derive(Debug)]
pub enum Capture {
    InvalidPattern,
    NoMatch,
    NoGroup,
    Group(String),
}

/// The model of a [`Capture`].
pub enum CaptureView {
    InvalidPattern,
    NoMatch,
    NoGroup,
    Group(Seq<char>),
}

impl View for Capture {
    type V = CaptureView;

    open spec fn view(&self) -> CaptureView {
        match self {
            Capture::InvalidPattern => CaptureView::InvalidPattern,
            Capture::NoMatch => CaptureView::NoMatch,
            Capture::NoGroup => CaptureView::NoGroup,
            Capture::Group(s) => CaptureView::Group(s@),
        }
    }
}

/// What the `regex` crate finds for a pattern, a text and the number of a group: whether the
/// pattern compiles, whether it matches the text, and the text of the group in the first match.
pub uninterp spec fn regex_capture(pattern: Seq<char>, haystack: Seq<char>, group: nat) -> CaptureView;

/// Compiles `pattern` with `regex::Regex::new`, finds its first match in `haystack` with
/// `Regex::captures`, and takes group `group` of it with `Captures::get`. The contract claims
/// only that the outcome is determined by the three arguments; what the regular expression
/// matches is left to the crate.
#[verifier::external_body]
fn capture_group(pattern: &str, haystack: &str, group: usize) -> (r: Capture)
    ensures
        r@ == regex_capture(pattern@, haystack@, group as nat),
{
    match regex::Regex::new(pattern) {
        Err(_) => Capture::InvalidPattern,
        Ok(re) => match re.captures(haystack) {
            None => Capture::NoMatch,
            Some(c) => match c.get(group) {
                None => Capture::NoGroup,
                Some(m) => Capture::Group(m.as_str().to_string()),
            },
        },
    }
}

/// The kind of value found at a place in a JSON document.
#[derive(Debug)]
pub enum JsonNode {
    Missing,
    Object,
    Str(String),
    Other,
}

/// The model of a [`JsonNode`].
pub enum JsonNodeView {
    Missing,
    Object,
    Str(Seq<char>),
    Other,
}

impl View for JsonNode {
    type V = JsonNodeView;

    open spec fn view(&self) -> JsonNodeView {
        match self {
            JsonNode::Missing => JsonNodeView::Missing,
            JsonNode::Object => JsonNodeView::Object,
            JsonNode::Str(s) => JsonNodeView::Str(s@),
            JsonNode::Other => JsonNodeView::Other,
        }
    }
}

/// Whether `serde_json::from_str` reads the text as a JSON value.
pub uninterp spec fn json_parses(json: Seq<char>) -> bool;

/// What `serde_json::Value::pointer` finds at a JSON pointer in the value that a text holds.
pub uninterp spec fn json_node_at(json: Seq<char>, pointer: Seq<char>) -> JsonNodeView;

/// Reads `json` with `serde_json::from_str` and looks `pointer` up with `Value::pointer`, telling
/// an object, a string and any other value apart. The contract claims that the result is `None`
/// exactly when the text is not read as JSON, whatever the pointer, and that otherwise the node
/// is determined by the text and the pointer.
#[verifier::external_body]
fn json_lookup(json: &str, pointer: &str) -> (r: Option<JsonNode>)
    ensures
        r is None <==> !json_parses(json@),
        r matches Some(n) ==> n@ == json_node_at(json@, pointer@),
{
    match serde_json::from_str::<serde_json::Value>(json) {
        Err(_) => None,
        Ok(v) => Some(
            match v.pointer(pointer) {
                None => JsonNode::Missing,
                Some(serde_json::Value::Object(_)) => JsonNode::Object,
                Some(serde_json::Value::String(s)) => JsonNode::Str(s.clone()),
                Some(_) => JsonNode::Other,
            },
        ),
    }
}

/// The fields of the loader's options that are read.
#[derive(Debug, Clone, Copy, PartialEq, Eq, Structural)]
pub enum OptionsField {
    LoaderOptions,
    UnityConfigOptions,
    UnityLoaderUrl,
    CodeUrl,
    DataUrl,
    FrameworkUrl,
}

/// The JSON pointer of a field.
pub open spec fn field_pointer(f: OptionsField) -> Seq<char> {
    match f {
        OptionsField::LoaderOptions => "/loaderOptions"@,
        OptionsField::UnityConfigOptions => "/loaderOptions/unityConfigOptions"@,
        OptionsField::UnityLoaderUrl => "/loaderOptions/unityLoaderUrl"@,
        OptionsField::CodeUrl => "/loaderOptions/unityConfigOptions/codeUrl"@,
        OptionsField::DataUrl => "/loaderOptions/unityConfigOptions/dataUrl"@,
        OptionsField::FrameworkUrl => "/loaderOptions/unityConfigOptions/frameworkUrl"@,
    }
}

impl OptionsField {
    /// The JSON pointer of the field.
    pub fn pointer(&self) -> (r: &'static str)
        ensures
            r@ == field_pointer(*self),
    {
        match self {
            OptionsField::LoaderOptions => "/loaderOptions",
            OptionsField::UnityConfigOptions => "/loaderOptions/unityConfigOptions",
            OptionsField::UnityLoaderUrl => "/loaderOptions/unityLoaderUrl",
            OptionsField::CodeUrl => "/loaderOptions/unityConfigOptions/codeUrl",
            OptionsField::DataUrl => "/loaderOptions/unityConfigOptions/dataUrl",
            OptionsField::FrameworkUrl => "/loaderOptions/unityConfigOptions/frameworkUrl",
        }
    }
}

/// Why the files could not be found.
#[derive(Debug, Clone, Copy, PartialEq, Eq, Structural)]
pub enum ScrapeError {
    /// The pattern of the options line does not compile.
    InvalidPattern,
    /// No line of the page holds the options.
    NoOptionsLine,
    /// The options line has no group.
    NoOptionsGroup,
    /// The options are not JSON.
    InvalidJson,
    /// The field is not an object.
    NotAnObject(OptionsField),
    /// The field is not a string.
    NotAString(OptionsField),
}

/// A file of the game: where it is downloaded from, the name under which it is stored, and its role.
#[derive(Debug)]
pub struct GameFile {
    pub url: String,
    pub name: String,
    pub file_type: FileType,
}

/// The model of a [`GameFile`].
pub struct GameFileView {
    pub url: Seq<char>,
    pub name: Seq<char>,
    pub file_type: FileType,
}

impl View for GameFile {
    type V = GameFileView;

    open spec fn view(&self) -> GameFileView {
        GameFileView { url: self.url@, name: self.name@, file_type: self.file_type }
    }
}

/// The part of a URL after its last `/`, or the whole URL where it has none.
pub open spec fn file_name_of(url: Seq<char>) -> Seq<char> {
    after_last(url, '/')
}

/// The name under which the file at `url` is stored: the part of the URL after its last `/`.
pub fn file_name_of_url(url: &str) -> (r: String)
    ensures
        r@ == file_name_of(url@),
{
    after_last_char(url, '/')
}

/// A file with its name taken from its URL.
pub open spec fn game_file(url: Seq<char>, file_type: FileType) -> GameFileView {
    GameFileView { url, name: file_name_of(url), file_type }
}

/// What reading a URL field gives: `None` where the field is absent, which reading by direct
/// indexing does not survive; the URL; or the error for a value that is no string.
pub open spec fn url_field(json: Seq<char>, f: OptionsField) -> Option<Result<Seq<char>, ScrapeError>> {
    match json_node_at(json, field_pointer(f)) {
        JsonNodeView::Missing => None,
        JsonNodeView::Str(s) => Some(Ok(s)),
        _ => Some(Err(ScrapeError::NotAString(f))),
    }
}

/// What reading the loader's options gives.
pub enum ScrapeOutcome {
    /// The four files, in the order loader, code, data, framework.
    Found(Seq<GameFileView>),
    Failed(ScrapeError),
    /// A field that is indexed directly is absent.
    Panics,
}

/// The outcome of the URL fields, from `f` on, given the URLs read before it.
pub open spec fn urls_outcome(json: Seq<char>, urls: Seq<Seq<char>>) -> ScrapeOutcome
    decreases 4 - urls.len(),
{
    if urls.len() >= 4 {
        ScrapeOutcome::Found(
            seq![
                game_file(urls[0], FileType::UnityLoader),
                game_file(urls[1], FileType::Code),
                game_file(urls[2], FileType::Data),
                game_file(urls[3], FileType::Framework),
            ],
        )
    } else {
        match url_field(json, url_field_at(urls.len())) {
            None => ScrapeOutcome::Panics,
            Some(Err(e)) => ScrapeOutcome::Failed(e),
            Some(Ok(u)) => urls_outcome(json, urls.push(u)),
        }
    }
}

/// The URL fields in the order in which they are read.
pub open spec fn url_field_at(i: nat) -> OptionsField {
    if i == 0 {
        OptionsField::UnityLoaderUrl
    } else if i == 1 {
        OptionsField::CodeUrl
    } else if i == 2 {
        OptionsField::DataUrl
    } else {
        OptionsField::FrameworkUrl
    }
}

/// What reading the loader's options from the JSON text `json` gives.
pub open spec fn options_outcome(json: Seq<char>) -> ScrapeOutcome {
    if !json_parses(json) {
        ScrapeOutcome::Failed(ScrapeError::InvalidJson)
    } else if !(json_node_at(json, field_pointer(OptionsField::LoaderOptions)) is Object) {
        ScrapeOutcome::Failed(ScrapeError::NotAnObject(OptionsField::LoaderOptions))
    } else if json_node_at(json, field_pointer(OptionsField::UnityConfigOptions)) is Missing {
        ScrapeOutcome::Panics
    } else if !(json_node_at(json, field_pointer(OptionsField::UnityConfigOptions)) is Object) {
        ScrapeOutcome::Failed(ScrapeError::NotAnObject(OptionsField::UnityConfigOptions))
    } else {
        urls_outcome(json, seq![])
    }
}

/// What searching the page `source` for the game's files gives.
pub open spec fn scrape_outcome(source: Seq<char>) -> ScrapeOutcome {
    match regex_capture(OPTIONS_PATTERN@, source, 1) {
        CaptureView::InvalidPattern => ScrapeOutcome::Failed(ScrapeError::InvalidPattern),
        CaptureView::NoMatch => ScrapeOutcome::Failed(ScrapeError::NoOptionsLine),
        CaptureView::NoGroup => ScrapeOutcome::Failed(ScrapeError::NoOptionsGroup),
        CaptureView::Group(json) => options_outcome(json),
    }
}

/// The models of a list of files.
pub open spec fn game_files_view(v: Seq<GameFile>) -> Seq<GameFileView> {
    v.map_values(|f: GameFile| f@)
}

/// Whether `r` is what the outcome `o` says, where the outcome is no panic.
pub open spec fn scrape_result(o: ScrapeOutcome, r: Result<Vec<GameFile>, ScrapeError>) -> bool {
    match o {
        ScrapeOutcome::Found(files) => r matches Ok(v) && game_files_view(v@) == files,
        ScrapeOutcome::Failed(e) => r == Err::<Vec<GameFile>, ScrapeError>(e),
        ScrapeOutcome::Panics => false,
    }
}

/// Whether reading the options in `json` runs into an absent field that is indexed directly.
pub fn options_would_panic(json: &str) -> (r: bool)
    ensures
        r == (options_outcome(json@) is Panics),
{
    match json_lookup(json, OptionsField::LoaderOptions.pointer()) {
        Some(JsonNode::Object) => {},
        _ => return false,
    }
    match json_lookup(json, OptionsField::UnityConfigOptions.pointer()) {
        Some(JsonNode::Missing) => return true,
        Some(JsonNode::Object) => {},
        _ => return false,
    }
    let fields = [OptionsField::UnityLoaderUrl, OptionsField::CodeUrl, OptionsField::DataUrl, OptionsField::FrameworkUrl];
    let ghost mut urls: Seq<Seq<char>> = seq![];
    let mut i: usize = 0;
    while i < 4
        invariant
            i <= 4,
            urls.len() == i,
            fields@ == seq![OptionsField::UnityLoaderUrl, OptionsField::CodeUrl, OptionsField::DataUrl, OptionsField::FrameworkUrl],
            json_parses(json@),
            options_outcome(json@) == urls_outcome(json@, urls),
        decreases 4 - i,
    {
        assert(fields@[i as int] == url_field_at(i as nat));
        match json_lookup(json, fields[i].pointer()) {
            Some(JsonNode::Missing) => return true,
            Some(JsonNode::Str(s)) => {
                proof {
                    urls = urls.push(s@);
                }
            },
            _ => return false,
        }
        i = i + 1;
    }
    false
}

/// Reads the four files from the loader's options in the JSON text `json`.
pub fn game_files_from_options(json: &str) -> (r: Result<Vec<GameFile>, ScrapeError>)
    requires
        !(options_outcome(json@) is Panics),
    ensures
        scrape_result(options_outcome(json@), r),
{
    match json_lookup(json, OptionsField::LoaderOptions.pointer()) {
        None => return Err(ScrapeError::InvalidJson),
        Some(JsonNode::Object) => {},
        Some(_) => return Err(ScrapeError::NotAnObject(OptionsField::LoaderOptions)),
    }
    match json_lookup(json, OptionsField::UnityConfigOptions.pointer()) {
        Some(JsonNode::Object) => {},
        _ => return Err(ScrapeError::NotAnObject(OptionsField::UnityConfigOptions)),
    }
    let fields = [OptionsField::UnityLoaderUrl, OptionsField::CodeUrl, OptionsField::DataUrl, OptionsField::FrameworkUrl];
    let types = [FileType::UnityLoader, FileType::Code, FileType::Data, FileType::Framework];
    let mut files: Vec<GameFile> = Vec::new();
    let ghost mut urls: Seq<Seq<char>> = seq![];
    let mut i: usize = 0;
    while i < 4
        invariant
            i <= 4,
            urls.len() == i,
            files.len() == i,
            fields@ == seq![OptionsField::UnityLoaderUrl, OptionsField::CodeUrl, OptionsField::DataUrl, OptionsField::FrameworkUrl],
            types@ == seq![FileType::UnityLoader, FileType::Code, FileType::Data, FileType::Framework],
            json_parses(json@),
            options_outcome(json@) == urls_outcome(json@, urls),
            !(urls_outcome(json@, urls) is Panics),
            forall|j: int| 0 <= j < i ==> #[trigger] files@[j]@ == game_file(urls[j], types@[j]),
        decreases 4 - i,
    {
        assert(fields@[i as int] == url_field_at(i as nat));
        match json_lookup(json, fields[i].pointer()) {
            Some(JsonNode::Str(s)) => {
                let name = file_name_of_url(s.as_str());
                files.push(GameFile { url: s, name, file_type: types[i] });
                proof {
                    urls = urls.push(files@[i as int].url@);
                }
            },
            _ => return Err(ScrapeError::NotAString(fields[i])),
        }
        i = i + 1;
    }
    assert(game_files_view(files@) =~= seq![
        game_file(urls[0], FileType::UnityLoader),
        game_file(urls[1], FileType::Code),
        game_file(urls[2], FileType::Data),
        game_file(urls[3], FileType::Framework),
    ]);
    Ok(files)
}

/// Searches the page `source` for the game's files: `None` where a field that is read by direct
/// indexing is absent, which stops the search, else what [`scrape_outcome`] says.
pub fn find_game_files(source: &str) -> (r: Option<Result<Vec<GameFile>, ScrapeError>>)
    ensures
        r is None <==> scrape_outcome(source@) is Panics,
        r matches Some(res) ==> scrape_result(scrape_outcome(source@), res),
{
    let json = match capture_group(OPTIONS_PATTERN, source, 1) {
        Capture::InvalidPattern => return Some(Err(ScrapeError::InvalidPattern)),
        Capture::NoMatch => return Some(Err(ScrapeError::NoOptionsLine)),
        Capture::NoGroup => return Some(Err(ScrapeError::NoOptionsGroup)),
        Capture::Group(json) => json,
    };
    if options_would_panic(json.as_str()) {
        return None;
    }
    Some(game_files_from_options(json.as_str()))
}

} // verus!
