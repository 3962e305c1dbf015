use bulletforcehax::assets::{asset_route, game_asset, select_service, web_content_type, AssetRoute};
use bulletforcehax::version_scraper::FileType;

#[test]
fn game_assets() {
    assert_eq!(game_asset("loader.js"), Some((FileType::UnityLoader, "application/javascript")));
    assert_eq!(game_asset("framework.js"), Some((FileType::Framework, "application/javascript")));
    assert_eq!(game_asset("code.wasm"), Some((FileType::Code, "application/wasm")));
    assert_eq!(game_asset("data.data"), Some((FileType::Data, "application/octet-stream")));
    assert_eq!(game_asset("other.js"), None);
}

#[test]
fn web_content_types() {
    assert_eq!(web_content_type("pkg/app_bg.wasm"), "application/wasm");
    assert_eq!(web_content_type("index.html"), "text/html");
    assert_eq!(web_content_type("a.b.js"), "application/javascript");
    assert_eq!(web_content_type("style.css"), "text/css");
    assert_eq!(web_content_type("README"), "text/plain");
    assert_eq!(web_content_type("favicon.ico"), "text/plain");
}

#[test]
fn asset_routes() {
    assert_eq!(asset_route("/"), AssetRoute::Index);
    assert_eq!(asset_route("/config.json"), AssetRoute::Config);
    assert_eq!(asset_route("/Build/$$game$$.json"), AssetRoute::GameJson);
    assert_eq!(asset_route("/$$loader$$.js"), AssetRoute::Loader);
    assert_eq!(asset_route("/Build/code.wasm"), AssetRoute::File("code.wasm".to_string()));
    assert_eq!(asset_route("//dir/file.js"), AssetRoute::File("dir/file.js".to_string()));
    assert_eq!(asset_route("/Buildings.js"), AssetRoute::File("ings.js".to_string()));
}

#[test]
fn services_by_prefix() {
    let prefixes = vec!["/game", "/hax", "/ha"];
    assert_eq!(select_service("/game/index.html", &prefixes), 0);
    assert_eq!(select_service("/hax/ws", &prefixes), 1);
    assert_eq!(select_service("/hat", &prefixes), 2);
    assert_eq!(select_service("/other", &prefixes), 3);
    assert_eq!(select_service("/other", &vec![]), 0);
}
