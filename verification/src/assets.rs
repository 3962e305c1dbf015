//! What the web server answers for the files it serves.
use vstd::prelude::*;
use crate::text::{after_last, after_last_char, has_prefix, starts_with, str_eq};
use crate::version_scraper::FileType;

verus! {

/// The game file that a request for the asset `file` is served from, with its content type.
pub open spec fn game_asset_spec(file: Seq<char>) -> Option<(FileType, Seq<char>)> {
    if file == "loader.js"@ {
        Some((FileType::UnityLoader, "application/javascript"@))
    } else if file == "framework.js"@ {
        Some((FileType::Framework, "application/javascript"@))
    } else if file == "code.wasm"@ {
        Some((FileType::Code, "application/wasm"@))
    } else if file == "data.data"@ {
        Some((FileType::Data, "application/octet-stream"@))
    } else {
        None
    }
}

/// The game file that a request for the asset `file` is served from, with its content type;
/// `None` for an unknown asset.
pub fn game_asset(file: &str) -> (r: Option<(FileType, &'static str)>)
    ensures
        match game_asset_spec(file@) {
            Some((t, c)) => r matches Some((t2, c2)) && t2 == t && c2@ == c,
            None => r is None,
        },
{
    if str_eq(file, "loader.js") {
        Some((FileType::UnityLoader, "application/javascript"))
    } else if str_eq(file, "framework.js") {
        Some((FileType::Framework, "application/javascript"))
    } else if str_eq(file, "code.wasm") {
        Some((FileType::Code, "application/wasm"))
    } else if str_eq(file, "data.data") {
        Some((FileType::Data, "application/octet-stream"))
    } else {
        None
    }
}

/// The content type of a file of the web interface, by the part of its path after the last `.`.
pub open spec fn web_content_type_spec(path: Seq<char>) -> Seq<char> {
    let ext = after_last(path, '.');
    if ext == "wasm"@ {
        "application/wasm"@
    } else if ext == "html"@ {
        "text/html"@
    } else if ext == "js"@ {
        "application/javascript"@
    } else if ext == "css"@ {
        "text/css"@
    } else {
        "text/plain"@
    }
}

/// The content type of a file of the web interface, by the part of its path after the last `.`.
pub fn web_content_type(path: &str) -> (r: &'static str)
    ensures
        r@ == web_content_type_spec(path@),
{
    let ext = after_last_char(path, '.');
    if str_eq(ext.as_str(), "wasm") {
        "application/wasm"
    } else if str_eq(ext.as_str(), "html") {
        "text/html"
    } else if str_eq(ext.as_str(), "js") {
        "application/javascript"
    } else if str_eq(ext.as_str(), "css") {
        "text/css"
    } else {
        "text/plain"
    }
}

/// `s` without its leading characters `c`.
pub open spec fn trim_leading(s: Seq<char>, c: char) -> Seq<char>
    decreases s.len(),
{
    if s.len() > 0 && s[0] == c {
        trim_leading(s.drop_first(), c)
    } else {
        s
    }
}

/// What a request of the desktop app's asset server asks for.
#[derive(Debug, PartialEq, Eq)]
pub enum AssetRoute {
    /// The page that hosts the game.
    Index,
    /// The configuration.
    Config,
    /// The description of the game build.
    GameJson,
    /// The loader of the game.
    Loader,
    /// A file of the game version, by its path inside the version's directory.
    File(String),
}

/// The model of an [`AssetRoute`].
pub enum AssetRouteView {
    Index,
    Config,
    GameJson,
    Loader,
    File(Seq<char>),
}

impl View for AssetRoute {
    type V = AssetRouteView;

    open spec fn view(&self) -> AssetRouteView {
        match self {
            AssetRoute::Index => AssetRouteView::Index,
            AssetRoute::Config => AssetRouteView::Config,
            AssetRoute::GameJson => AssetRouteView::GameJson,
            AssetRoute::Loader => AssetRouteView::Loader,
            AssetRoute::File(p) => AssetRouteView::File(p@),
        }
    }
}

/// What the request path `path` asks for; other paths name a file by what is left after
/// removing a leading `/Build` and then all leading `/`.
pub open spec fn asset_route_spec(path: Seq<char>) -> AssetRouteView {
    if path == "/"@ {
        AssetRouteView::Index
    } else if path == "/config.json"@ {
        AssetRouteView::Config
    } else if path == "/Build/$$game$$.json"@ {
        AssetRouteView::GameJson
    } else if path == "/$$loader$$.js"@ {
        AssetRouteView::Loader
    } else {
        let rest = if has_prefix(path, "/Build"@) {
            path.subrange("/Build"@.len() as int, path.len() as int)
        } else {
            path
        };
        AssetRouteView::File(trim_leading(rest, '/'))
    }
}

/// Drops the leading characters `c` of `s`.
fn trim_leading_char(s: &str, c: char) -> (r: String)
    ensures
        r@ == trim_leading(s@, c),
{
    let n = s.unicode_len();
    let mut i: usize = 0;
    assert(s@.subrange(0, n as int) =~= s@);
    while i < n && s.get_char(i) == c
        invariant
            i <= n,
            n == s@.len(),
            trim_leading(s@.subrange(i as int, n as int), c) == trim_leading(s@, c),
        decreases n - i,
    {
        assert(s@.subrange(i as int, n as int).drop_first() =~= s@.subrange(i + 1, n as int));
        i = i + 1;
    }
    String::from_str(s.substring_char(i, n))
}

/// What a request of the desktop app's asset server for `path` asks for.
pub fn asset_route(path: &str) -> (r: AssetRoute)
    ensures
        r@ == asset_route_spec(path@),
{
    if str_eq(path, "/") {
        AssetRoute::Index
    } else if str_eq(path, "/config.json") {
        AssetRoute::Config
    } else if str_eq(path, "/Build/$$game$$.json") {
        AssetRoute::GameJson
    } else if str_eq(path, "/$$loader$$.js") {
        AssetRoute::Loader
    } else if starts_with(path, "/Build") {
        proof {
            reveal_strlit("/Build");
        }
        let rest = path.substring_char(6, path.unicode_len());
        AssetRoute::File(trim_leading_char(rest, '/'))
    } else {
        AssetRoute::File(trim_leading_char(path, '/'))
    }
}

/// The first service whose prefix starts `path`, from position `i` on; the fallback, after the
/// last prefix, where none does.
pub open spec fn first_prefix(path: Seq<char>, prefixes: Seq<Seq<char>>, i: int) -> int
    decreases prefixes.len() - i,
{
    if i < 0 || i >= prefixes.len() {
        prefixes.len() as int
    } else if has_prefix(path, prefixes[i]) {
        i
    } else {
        first_prefix(path, prefixes, i + 1)
    }
}

/// The service that serves a request for `path`: the first whose prefix starts the path, or the
/// fallback, numbered after the others.
pub fn select_service(path: &str, prefixes: &Vec<&str>) -> (r: usize)
    ensures
        r == first_prefix(path@, prefixes@.map_values(|p: &str| p@), 0),
{
    let ghost ps = prefixes@.map_values(|p: &str| p@);
    let mut i: usize = 0;
    while i < prefixes.len()
        invariant
            i <= prefixes.len(),
            ps == prefixes@.map_values(|p: &str| p@),
            first_prefix(path@, ps, 0) == first_prefix(path@, ps, i as int),
        decreases prefixes.len() - i,
    {
        if starts_with(path, prefixes[i]) {
            return i;
        }
        i = i + 1;
    }
    i
}

} // verus!
