use tuono_routes::route::has_dynamic_path;
use tuono_routes::table::{Mode, SourceBuilder};

#[test]
fn find_dynamic_paths() {
    let routes = [
        ("/home/user/Documents/tuono/src/routes/about.rs", false),
        ("/home/user/Documents/tuono/src/routes/index.rs", false),
        ("/home/user/Documents/tuono/src/routes/posts/index.rs", false),
        ("/home/user/Documents/tuono/src/routes/posts/[post].rs", true),
    ];

    routes
        .into_iter()
        .for_each(|route| assert_eq!(has_dynamic_path(route.0), route.1));
}

#[test]
fn collect_routes() {
    let mut source_builder =
        SourceBuilder::new(Mode::Dev, String::from("/home/user/Documents/tuono"));

    let routes = [
        "/home/user/Documents/tuono/src/routes/about.rs",
        "/home/user/Documents/tuono/src/routes/index.rs",
        "/home/user/Documents/tuono/src/routes/posts/index.rs",
        "/home/user/Documents/tuono/src/routes/posts/[post].rs",
    ];

    routes
        .into_iter()
        .for_each(|route| source_builder.collect_route(route));

    let results = [
        ("/index.rs", "index"),
        ("/about.rs", "about"),
        ("/posts/index.rs", "posts_index"),
        ("/posts/[post].rs", "posts_dyn_post"),
    ];

    results.into_iter().for_each(|(path, module_import)| {
        assert_eq!(
            source_builder.route_map.get(path).unwrap().module_import,
            String::from(module_import)
        )
    })
}

#[test]
fn create_multi_level_axum_paths() {
    let mut source_builder =
        SourceBuilder::new(Mode::Dev, String::from("/home/user/Documents/tuono"));

    let routes = [
        "/home/user/Documents/tuono/src/routes/about.rs",
        "/home/user/Documents/tuono/src/routes/index.rs",
        "/home/user/Documents/tuono/src/routes/posts/index.rs",
        "/home/user/Documents/tuono/src/routes/posts/any-post.rs",
        "/home/user/Documents/tuono/src/routes/posts/[post].rs",
    ];

    routes
        .into_iter()
        .for_each(|route| source_builder.collect_route(route));

    let results = [
        ("/index.rs", "/"),
        ("/about.rs", "/about"),
        ("/posts/index.rs", "/posts"),
        ("/posts/any-post.rs", "/posts/any-post"),
        ("/posts/[post].rs", "/posts/:post"),
    ];

    results.into_iter().for_each(|(path, expected_path)| {
        assert_eq!(
            source_builder.route_map.get(path).unwrap().axum_route,
            String::from(expected_path)
        )
    })
}
