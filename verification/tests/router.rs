use flopcards::data::{Query, ResourceError};
use flopcards::router::{
    check_assets, created, dispatch, dispatch_form, edit_location, extension_of, find_route,
    mime_type, routes, study_location, Delegation, Handler, Matching, Method, MimeType, Route,
    SEE_OTHER,
};

fn form(pairs: &[(&str, &str)]) -> Query {
    Query(pairs.iter().map(|(k, v)| (k.to_string(), v.to_string())).collect())
}

#[test]
fn svg_asset_goes_to_the_asset_handler() {
    let outcome = dispatch(Method::Get, "/assets/logo.svg", None);
    assert_eq!(
        outcome,
        Ok(Delegation::Asset { name: "logo.svg".to_string(), mime: MimeType::Svg })
    );
    assert_eq!(MimeType::Svg.as_str(), "image/svg+xml; charset=utf-8");
}

#[test]
fn mp3_asset_is_served_as_audio() {
    let outcome = dispatch(Method::Get, "/assets/track.mp3", None);
    assert_eq!(
        outcome,
        Ok(Delegation::Asset { name: "track.mp3".to_string(), mime: MimeType::Mp3 })
    );
    assert_eq!(MimeType::Mp3.as_str(), "audio/mpeg");
}

#[test]
fn unknown_path_is_not_found() {
    assert_eq!(
        dispatch(Method::Get, "/unknown", None),
        Err(ResourceError::NotFound("/unknown".to_string()))
    );
}

#[test]
fn empty_create_form_lacks_the_title() {
    assert_eq!(
        dispatch(Method::Post, "/create-set", Some("")),
        Err(ResourceError::MissingParameter("title".to_string()))
    );
    assert_eq!(
        dispatch(Method::Post, "/create-set", None),
        Err(ResourceError::MissingParameter("title".to_string()))
    );
}

#[test]
fn create_form_without_subject_lacks_the_subject() {
    assert_eq!(
        dispatch(Method::Post, "/create-set", Some("title=Vocab+1")),
        Err(ResourceError::MissingParameter("subject".to_string()))
    );
}

#[test]
fn create_form_is_read_and_decoded() {
    assert_eq!(
        dispatch(
            Method::Post,
            "/create-set",
            Some("title=Vocab+1&subject=spanish&description=Los%20verbos")
        ),
        Ok(Delegation::CreateSet {
            title: "Vocab 1".to_string(),
            subject: "spanish".to_string(),
            description: Some("Los verbos".to_string()),
        })
    );
}

#[test]
fn create_form_may_leave_the_description_out() {
    assert_eq!(
        dispatch(Method::Post, "/create-set", Some("subject=math&title=Primes")),
        Ok(Delegation::CreateSet {
            title: "Primes".to_string(),
            subject: "math".to_string(),
            description: None,
        })
    );
}

#[test]
fn exact_paths_are_served() {
    assert_eq!(dispatch(Method::Get, "/", None), Ok(Delegation::Index));
    assert_eq!(dispatch(Method::Get, "/favicon.ico", None), Ok(Delegation::Favicon));
    assert_eq!(MimeType::Icon.as_str(), "image/x-icon");
}

#[test]
fn prefixes_are_stripped() {
    assert_eq!(
        dispatch(Method::Get, "/sets/vocab-1", None),
        Ok(Delegation::StudySet { id: "vocab-1".to_string() })
    );
    assert_eq!(
        dispatch(Method::Get, "/edit-set/vocab-1", None),
        Ok(Delegation::EditSet { id: "vocab-1".to_string() })
    );
    assert_eq!(dispatch(Method::Get, "/view/sets", None), Ok(Delegation::SetsView));
    assert_eq!(
        dispatch(Method::Get, "/sets/", None),
        Ok(Delegation::StudySet { id: String::new() })
    );
    assert_eq!(
        dispatch(Method::Get, "/sets/a/b", None),
        Ok(Delegation::StudySet { id: "a/b".to_string() })
    );
}

#[test]
fn unknown_view_is_not_found_for_every_method() {
    assert_eq!(
        dispatch(Method::Get, "/view/cards", None),
        Err(ResourceError::NotFound("/view/cards".to_string()))
    );
    assert_eq!(
        dispatch(Method::Post, "/view/cards", None),
        Err(ResourceError::NotFound("/view/cards".to_string()))
    );
    assert_eq!(
        dispatch(Method::Get, "/view/", None),
        Err(ResourceError::NotFound("/view/".to_string()))
    );
}

#[test]
fn paths_that_only_resemble_a_route_are_not_found() {
    for path in ["", "/sets", "/assets", "/edit-set", "/view", "/create-set/", "/favicon.icon", "sets/x", "//"] {
        assert_eq!(
            dispatch(Method::Get, path, None),
            Err(ResourceError::NotFound(path.to_string())),
            "{path}"
        );
        assert_eq!(
            dispatch(Method::Post, path, None),
            Err(ResourceError::NotFound(path.to_string())),
            "{path}"
        );
    }
}

#[test]
fn wrong_method_is_refused() {
    for path in ["/", "/favicon.ico", "/assets/logo.svg", "/view/sets", "/sets/x", "/edit-set/x"] {
        assert_eq!(dispatch(Method::Post, path, None), Err(ResourceError::MethodNotAllowed));
        assert_eq!(dispatch(Method::Other, path, None), Err(ResourceError::MethodNotAllowed));
    }
    assert_eq!(
        dispatch(Method::Get, "/create-set", Some("title=a&subject=b")),
        Err(ResourceError::MethodNotAllowed)
    );
    assert_eq!(
        dispatch(Method::Other, "/create-set", None),
        Err(ResourceError::MethodNotAllowed)
    );
}

#[test]
fn method_is_checked_before_the_content_type() {
    assert_eq!(
        dispatch(Method::Post, "/assets/archive.zip", None),
        Err(ResourceError::MethodNotAllowed)
    );
}

#[test]
fn asset_without_known_extension_has_no_content_type() {
    assert_eq!(
        dispatch(Method::Get, "/assets/archive.zip", None),
        Err(ResourceError::MissingMimeType("archive.zip".to_string()))
    );
    assert_eq!(
        dispatch(Method::Get, "/assets/README", None),
        Err(ResourceError::MissingMimeType("README".to_string()))
    );
    assert_eq!(
        dispatch(Method::Get, "/assets/", None),
        Err(ResourceError::MissingMimeType(String::new()))
    );
}

#[test]
fn content_types_follow_the_table() {
    assert_eq!(mime_type("a.svg"), Some(MimeType::Svg));
    assert_eq!(mime_type("a.jpg"), Some(MimeType::Jpeg));
    assert_eq!(mime_type("a.jpeg"), Some(MimeType::Jpeg));
    assert_eq!(mime_type("a.js"), Some(MimeType::JavaScript));
    assert_eq!(mime_type("a.mp3"), Some(MimeType::Mp3));
    assert_eq!(mime_type("a.webp"), Some(MimeType::Webp));
    assert_eq!(mime_type("a.ico"), None);
    assert_eq!(mime_type("a.SVG"), None);
    assert_eq!(mime_type("svg"), None);
    assert_eq!(mime_type("a.svg."), None);
    assert_eq!(mime_type(""), None);
    assert_eq!(MimeType::Jpeg.as_str(), "image/jpeg");
    assert_eq!(MimeType::JavaScript.as_str(), "text/javascript");
    assert_eq!(MimeType::Webp.as_str(), "image/webp");
}

#[test]
fn extension_is_what_follows_the_last_dot() {
    assert_eq!(extension_of("htmx.min.js"), Some("js".to_string()));
    assert_eq!(mime_type("htmx.min.js"), Some(MimeType::JavaScript));
    assert_eq!(extension_of("logo.svg"), Some("svg".to_string()));
    assert_eq!(extension_of("logo."), Some(String::new()));
    assert_eq!(extension_of(".hidden"), Some("hidden".to_string()));
    assert_eq!(extension_of("logo"), None);
    assert_eq!(extension_of(""), None);
    assert_eq!(extension_of("dir.d/logo"), Some("d/logo".to_string()));
}

#[test]
fn routing_table_lists_exact_paths_first() {
    let table = routes();
    assert_eq!(table.len(), 7);
    assert_eq!(
        table[0],
        Route { method: Method::Get, matching: Matching::Exact, path: "/", handler: Handler::Index }
    );
    assert_eq!(table[1].path, "/favicon.ico");
    assert_eq!(
        table[2],
        Route {
            method: Method::Post,
            matching: Matching::Exact,
            path: "/create-set",
            handler: Handler::CreateSet
        }
    );
    let prefixes: Vec<&str> = table[3..].iter().map(|route| route.path).collect();
    assert_eq!(prefixes, vec!["/assets/", "/view/", "/sets/", "/edit-set/"]);
    assert!(table[..3].iter().all(|route| route.matching == Matching::Exact));
    assert!(table[3..].iter().all(|route| route.matching == Matching::Prefix));
    assert!(table[3..].iter().all(|route| route.method == Method::Get));
}

#[test]
fn find_route_gives_the_route_and_the_rest() {
    let (route, rest) = find_route("/assets/img/logo.webp").unwrap();
    assert_eq!(route.handler, Handler::Asset);
    assert_eq!(rest, "img/logo.webp");
    let (route, rest) = find_route("/create-set").unwrap();
    assert_eq!(route.handler, Handler::CreateSet);
    assert_eq!(route.method, Method::Post);
    assert_eq!(rest, "");
    let (route, rest) = find_route("/view/anything").unwrap();
    assert_eq!(route.handler, Handler::View);
    assert_eq!(rest, "anything");
    assert_eq!(find_route("/nothing"), None);
}

#[test]
fn dispatch_form_takes_the_last_value_of_a_field() {
    let fields = form(&[("title", "first"), ("subject", "math"), ("title", "second")]);
    assert_eq!(
        dispatch_form(Method::Post, "/create-set", &fields),
        Ok(Delegation::CreateSet {
            title: "second".to_string(),
            subject: "math".to_string(),
            description: None,
        })
    );
}

#[test]
fn dispatch_form_ignores_the_form_of_other_routes() {
    let fields = form(&[("title", "t")]);
    assert_eq!(dispatch_form(Method::Get, "/", &fields), Ok(Delegation::Index));
}

#[test]
fn empty_title_is_a_title() {
    assert_eq!(
        dispatch(Method::Post, "/create-set", Some("title=&subject=math")),
        Ok(Delegation::CreateSet {
            title: String::new(),
            subject: "math".to_string(),
            description: None,
        })
    );
}

#[test]
fn assets_are_checked_in_order() {
    let good = vec!["logo.svg".to_string(), "track.mp3".to_string(), "htmx.min.js".to_string()];
    assert_eq!(check_assets(&good), Ok(()));
    assert_eq!(check_assets(&Vec::new()), Ok(()));
    let bad = vec![
        "logo.svg".to_string(),
        "notes.txt".to_string(),
        "track.mp3".to_string(),
        "font.woff".to_string(),
    ];
    assert_eq!(check_assets(&bad), Err(ResourceError::MissingMimeType("notes.txt".to_string())));
}

#[test]
fn created_set_is_answered_with_see_other() {
    let redirect = created("vocab-1");
    assert_eq!(redirect.status, 303);
    assert_eq!(SEE_OTHER, 303);
    assert_eq!(redirect.location, "/sets/vocab-1");
}

#[test]
fn locations_lead_back_to_their_handlers() {
    for id in ["vocab-1", "", "a/b", "ünïcode", "sets"] {
        assert_eq!(study_location(id), format!("/sets/{id}"));
        assert_eq!(edit_location(id), format!("/edit-set/{id}"));
        assert_eq!(
            dispatch(Method::Get, &study_location(id), None),
            Ok(Delegation::StudySet { id: id.to_string() })
        );
        assert_eq!(
            dispatch(Method::Get, &edit_location(id), None),
            Ok(Delegation::EditSet { id: id.to_string() })
        );
    }
}
