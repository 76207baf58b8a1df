use tuono_routes::route::{has_dynamic_path, Route};

#[test]
fn root_index_collapses_to_slash() {
    let route = Route::new("/index.rs");
    assert_eq!(route.axum_route, "/");
    assert_eq!(route.module_import, "index");
}

#[test]
fn static_paths_keep_their_url() {
    assert_eq!(Route::new("/about.rs").axum_route, "/about");
    assert_eq!(Route::new("/posts/index.rs").axum_route, "/posts");
    assert_eq!(Route::new("/posts/any-post.rs").axum_route, "/posts/any-post");
}

#[test]
fn static_module_import_replaces_separators() {
    let route = Route::new("/blog/2024/posts/any-post.rs");
    assert_eq!(route.module_import, "blog_2024_posts_any-post");
    assert_eq!(route.axum_route, "/blog/2024/posts/any-post");
}

#[test]
fn dynamic_segment_becomes_parameter() {
    let route = Route::new("/posts/[post].rs");
    assert_eq!(route.axum_route, "/posts/:post");
    assert_eq!(route.module_import, "posts_dyn_post");
}

#[test]
fn every_dynamic_segment_is_rewritten() {
    let route = Route::new("/[user]/posts/[post].rs");
    assert_eq!(route.axum_route, "/:user/posts/:post");
    assert_eq!(route.module_import, "dyn_user_posts_dyn_post");
}

#[test]
fn dynamic_index_route_drops_index() {
    let route = Route::new("/posts/[post]/index.rs");
    assert_eq!(route.axum_route, "/posts/:post");
    assert_eq!(route.module_import, "posts_dyn_post_index");
}

#[test]
fn empty_and_filled_brackets_are_dynamic() {
    assert!(has_dynamic_path("/posts/[]"));
    assert!(has_dynamic_path("/posts/[post]"));
    assert!(has_dynamic_path("/a[b/c]d"));
}

#[test]
fn unpaired_brackets_are_static() {
    assert!(!has_dynamic_path("/posts/post"));
    assert!(!has_dynamic_path("/posts/]post["));
    assert!(!has_dynamic_path("/posts/[post"));
    assert!(!has_dynamic_path(""));
}

#[test]
fn line_break_between_brackets_is_not_a_pair() {
    assert!(!has_dynamic_path("/a[b\nc]"));
}

#[test]
fn nested_index_directory_is_kept() {
    let route = Route::new("/index/about.rs");
    assert_eq!(route.axum_route, "/index/about");
    assert_eq!(route.module_import, "index_about");
}
