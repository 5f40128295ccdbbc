use rsx_ui::router::{get_current_route, Route};

#[test]
fn test_route_matching_accuracy() {
    let test_cases = vec![
        ("", Route::Home),
        ("/", Route::Home),
        ("/articles", Route::Articles),
        ("/about", Route::About),
        ("/invalid", Route::NotFound),
        ("/random", Route::NotFound),
    ];

    for (path, expected_route) in test_cases {
        let route = Route::from_path(path);
        assert_eq!(route, expected_route);

        // Every route but NotFound is found again from its own path.
        if route != Route::NotFound {
            assert_eq!(Route::from_path(route.to_path()), route);
        }
    }
}

#[test]
fn test_route_paths() {
    assert_eq!(Route::Home.to_path(), "/");
    assert_eq!(Route::Articles.to_path(), "/articles");
    assert_eq!(Route::About.to_path(), "/about");
    assert_eq!(Route::NotFound.to_path(), "/404");
    assert_eq!(Route::from_path("/404"), Route::NotFound);
}

#[test]
fn test_current_route_from_location() {
    assert_eq!(get_current_route(Some("/about")), Route::About);
    assert_eq!(get_current_route(Some("")), Route::Home);
    assert_eq!(get_current_route(None), Route::NotFound);
}
