use tuono_routes::codegen::{bundle_source, create_modules_declaration, create_routes_declaration};
use tuono_routes::route::Route;
use tuono_routes::table::{Mode, RouteTable, SourceBuilder};
use tuono_routes::text::replace_first;

fn sample_table() -> RouteTable {
    let mut table = RouteTable::new();
    table.insert(String::from("/index.rs"), Route::new("/index.rs"));
    table.insert(String::from("/posts/[post].rs"), Route::new("/posts/[post].rs"));
    table
}

#[test]
fn routes_block_has_one_pair_per_entry() {
    let block = create_routes_declaration(&sample_table());
    assert_eq!(
        block,
        "// ROUTE_BUILDER\n\
         .route(\"/\", get(index::route))\
         .route(\"/__tuono/data/\", get(index::api))\
         .route(\"/posts/:post\", get(posts_dyn_post::route))\
         .route(\"/__tuono/data/posts/:post\", get(posts_dyn_post::api))"
    );
    assert_eq!(block.matches("::route))").count(), 2);
    assert_eq!(block.matches("::api))").count(), 2);
}

#[test]
fn empty_table_gives_marker_only() {
    let table = RouteTable::new();
    assert_eq!(create_routes_declaration(&table), "// ROUTE_BUILDER\n");
    assert_eq!(create_modules_declaration(&table), "// MODULE_IMPORTS\n");
}

#[test]
fn module_block_points_back_at_sources() {
    let block = create_modules_declaration(&sample_table());
    assert_eq!(
        block,
        "// MODULE_IMPORTS\n\
         #[path=\"../src/routes/index.rs\"]\nmod index;\n\
         #[path=\"../src/routes/posts/[post].rs\"]\nmod posts_dyn_post;\n"
    );
}

#[test]
fn bundle_splices_both_blocks() {
    let template = "use a;\n// MODULE_IMPORTS\nfn main() {\n// ROUTE_BUILDER\n}\n";
    let out = bundle_source(&sample_table(), template);
    assert_eq!(
        out,
        "use a;\n// MODULE_IMPORTS\n\
         #[path=\"../src/routes/index.rs\"]\nmod index;\n\
         #[path=\"../src/routes/posts/[post].rs\"]\nmod posts_dyn_post;\n\
         fn main() {\n// ROUTE_BUILDER\n\
         .route(\"/\", get(index::route))\
         .route(\"/__tuono/data/\", get(index::api))\
         .route(\"/posts/:post\", get(posts_dyn_post::route))\
         .route(\"/__tuono/data/posts/:post\", get(posts_dyn_post::api))}\n"
    );
}

#[test]
fn bundle_without_markers_is_unchanged() {
    let template = "fn main() {}\n";
    assert_eq!(bundle_source(&sample_table(), template), template);
}

#[test]
fn only_first_marker_is_replaced() {
    assert_eq!(replace_first("a-X-b-X", "X", "YY"), "a-YY-b-X");
    assert_eq!(replace_first("abc", "", "_"), "_abc");
    assert_eq!(replace_first("abc", "d", "_"), "abc");
}

#[test]
fn reinserting_a_key_replaces_its_route() {
    let mut builder = SourceBuilder::new(Mode::Prod, String::from("/p"));
    builder.collect_route("/p/src/routes/about.rs");
    builder.collect_route("/p/src/routes/about.rs");
    builder.collect_route("/p/src/routes/index.rs");
    assert_eq!(builder.route_map.len(), 2);
    assert_eq!(builder.route_map.key_at(0), "/about.rs");
    assert_eq!(builder.route_map.key_at(1), "/index.rs");
    assert_eq!(builder.route_map.route_at(1).axum_route, "/");
    assert!(builder.route_map.get("/missing.rs").is_none());
}

#[test]
fn path_outside_routes_folder_is_kept_whole() {
    let mut builder = SourceBuilder::new(Mode::Dev, String::from("/p"));
    builder.collect_route("/q/about.rs");
    assert_eq!(builder.route_map.key_at(0), "/q/about.rs");
    assert_eq!(builder.route_map.route_at(0).module_import, "q_about");
}
