//! The router: from a request's method, path and form to the handler that
//! serves it.

use crate::data::{form_pairs, pairs_map, Query, ResourceError, ResourceErrorView};
use crate::text::{chars_of, matches_at, same_chars, same_text, string_of, stripped};
use vstd::prelude::*;

verus! {

/// The request methods that the router tells apart.
#[derive(Clone, Copy, Debug, PartialEq, Eq, Structural)]
pub enum Method {
    Get,
    Post,
    /// Any method but `GET` and `POST`.
    Other,
}

/// What the site reads of an inbound request.
#[derive(Clone, Debug, PartialEq, Eq)]
pub struct Request {
    pub method: Method,
    /// The path of the request target, without the query.
    pub path: String,
    /// The query of the request target, without the leading `?`.
    pub query: Option<String>,
    /// The request body as text.
    pub body: Option<String>,
}

/// A request without its machine representation.
pub struct RequestView {
    pub method: Method,
    pub path: Seq<char>,
    pub query: Option<Seq<char>>,
    pub body: Option<Seq<char>>,
}

/// The characters of an optional string.
pub open spec fn text_of(s: Option<String>) -> Option<Seq<char>> {
    match s {
        Some(t) => Some(t@),
        None => None,
    }
}

impl View for Request {
    type V = RequestView;

    open spec fn view(&self) -> RequestView {
        RequestView {
            method: self.method,
            path: self.path@,
            query: text_of(self.query),
            body: text_of(self.body),
        }
    }
}

/// The handlers that a request can be handed to.
#[derive(Clone, Copy, Debug, PartialEq, Eq, Structural)]
pub enum Handler {
    /// The home page.
    Index,
    /// The site's icon.
    Favicon,
    /// A file of the asset directory.
    Asset,
    /// A fragment of a page, named by what follows `/view/`.
    View,
    /// The study page of one set.
    StudySet,
    /// The edit page of one set.
    EditSet,
    /// The creation of a set from a form.
    CreateSet,
}

/// How a route's path is held against the path of a request.
#[derive(Clone, Copy, Debug, PartialEq, Eq, Structural)]
pub enum Matching {
    /// The request's path is the route's path.
    Exact,
    /// The request's path begins with the route's path.
    Prefix,
}

/// One line of the routing table: the handler that serves a method and a
/// path pattern.
#[derive(Clone, Copy, Debug, PartialEq, Eq)]
pub struct Route {
    pub method: Method,
    pub matching: Matching,
    pub path: &'static str,
    pub handler: Handler,
}

/// A route with its path as plain text.
pub struct RouteView {
    pub method: Method,
    pub matching: Matching,
    pub path: Seq<char>,
    pub handler: Handler,
}

impl View for Route {
    type V = RouteView;

    open spec fn view(&self) -> RouteView {
        RouteView {
            method: self.method,
            matching: self.matching,
            path: self.path@,
            handler: self.handler,
        }
    }
}

/// The routing table. Its order is the order of precedence: the exact paths
/// stand before the prefixes.
pub open spec fn route_table() -> Seq<RouteView> {
    seq![
        RouteView {
            method: Method::Get,
            matching: Matching::Exact,
            path: "/"@,
            handler: Handler::Index,
        },
        RouteView {
            method: Method::Get,
            matching: Matching::Exact,
            path: "/favicon.ico"@,
            handler: Handler::Favicon,
        },
        RouteView {
            method: Method::Post,
            matching: Matching::Exact,
            path: "/create-set"@,
            handler: Handler::CreateSet,
        },
        RouteView {
            method: Method::Get,
            matching: Matching::Prefix,
            path: "/assets/"@,
            handler: Handler::Asset,
        },
        RouteView {
            method: Method::Get,
            matching: Matching::Prefix,
            path: "/view/"@,
            handler: Handler::View,
        },
        RouteView {
            method: Method::Get,
            matching: Matching::Prefix,
            path: "/sets/"@,
            handler: Handler::StudySet,
        },
        RouteView {
            method: Method::Get,
            matching: Matching::Prefix,
            path: "/edit-set/"@,
            handler: Handler::EditSet,
        },
    ]
}

/// The routing table.
pub fn routes() -> (table: [Route; 7])
    ensures
        table@.len() == route_table().len(),
        forall|i: int| 0 <= i < 7 ==> (#[trigger] table@[i])@ == route_table()[i],
{
    [
        Route {
            method: Method::Get,
            matching: Matching::Exact,
            path: "/",
            handler: Handler::Index,
        },
        Route {
            method: Method::Get,
            matching: Matching::Exact,
            path: "/favicon.ico",
            handler: Handler::Favicon,
        },
        Route {
            method: Method::Post,
            matching: Matching::Exact,
            path: "/create-set",
            handler: Handler::CreateSet,
        },
        Route {
            method: Method::Get,
            matching: Matching::Prefix,
            path: "/assets/",
            handler: Handler::Asset,
        },
        Route {
            method: Method::Get,
            matching: Matching::Prefix,
            path: "/view/",
            handler: Handler::View,
        },
        Route {
            method: Method::Get,
            matching: Matching::Prefix,
            path: "/sets/",
            handler: Handler::StudySet,
        },
        Route {
            method: Method::Get,
            matching: Matching::Prefix,
            path: "/edit-set/",
            handler: Handler::EditSet,
        },
    ]
}

/// What a route leaves of `path` when it matches: nothing for an exact
/// route, what follows the prefix for a prefix route. `None` when the route
/// does not match.
pub open spec fn route_rest(route: RouteView, path: Seq<char>) -> Option<Seq<char>> {
    match route.matching {
        Matching::Exact => if path == route.path {
            Some(Seq::empty())
        } else {
            None
        },
        Matching::Prefix => stripped(path, route.path),
    }
}

/// The index of the first route of `table[from..]` that matches `path`.
pub open spec fn first_match(table: Seq<RouteView>, path: Seq<char>, from: int) -> Option<int>
    decreases table.len() - from,
{
    if from < 0 || from >= table.len() {
        None
    } else if route_rest(table[from], path) is Some {
        Some(from)
    } else {
        first_match(table, path, from + 1)
    }
}

/// What [`first_match`] finds is a route of `table[from..]` that matches,
/// and no route before it does; it finds none only where none matches.
pub proof fn lemma_first_match(table: Seq<RouteView>, path: Seq<char>, from: int)
    requires
        0 <= from,
    ensures
        match first_match(table, path, from) {
            Some(i) => from <= i < table.len() && route_rest(table[i], path) is Some
                && forall|j: int| from <= j < i ==> route_rest(#[trigger] table[j], path) is None,
            None => forall|j: int|
                from <= j < table.len() ==> route_rest(#[trigger] table[j], path) is None,
        },
    decreases table.len() - from,
{
    if from < table.len() && route_rest(table[from], path) is None {
        lemma_first_match(table, path, from + 1);
    }
}

/// The first route of the table that matches `path`, with what it leaves of
/// the path; `None` when no route matches.
pub fn find_route(path: &str) -> (found: Option<(Route, String)>)
    ensures
        match found {
            Some((route, rest)) => first_match(route_table(), path@, 0) matches Some(i)
                && route@ == route_table()[i] && route_rest(route@, path@) == Some(rest@),
            None => first_match(route_table(), path@, 0) is None,
        },
{
    let table = routes();
    let wanted = chars_of(path);
    let mut i: usize = 0;
    while i < 7
        invariant
            i <= 7,
            wanted@ == path@,
            route_table().len() == 7,
            forall|j: int| 0 <= j < 7 ==> (#[trigger] table@[j])@ == route_table()[j],
            first_match(route_table(), path@, 0) == first_match(route_table(), path@, i as int),
        decreases 7 - i,
    {
        let route = table[i];
        let pattern = chars_of(route.path);
        match route.matching {
            Matching::Exact => {
                if same_chars(&wanted, &pattern) {
                    return Some((route, String::new()));
                }
            },
            Matching::Prefix => {
                if matches_at(&wanted, 0, &pattern) {
                    let rest = string_of(&wanted, pattern.len(), wanted.len());
                    return Some((route, rest));
                }
            },
        }
        i += 1;
    }
    None
}

/// The content types that the site serves.
#[derive(Clone, Copy, Debug, PartialEq, Eq, Structural)]
pub enum MimeType {
    Svg,
    Jpeg,
    JavaScript,
    Mp3,
    Webp,
    Icon,
}

/// The value of the `Content-Type` header for a content type.
pub open spec fn mime_text(mime: MimeType) -> Seq<char> {
    match mime {
        MimeType::Svg => "image/svg+xml; charset=utf-8"@,
        MimeType::Jpeg => "image/jpeg"@,
        MimeType::JavaScript => "text/javascript"@,
        MimeType::Mp3 => "audio/mpeg"@,
        MimeType::Webp => "image/webp"@,
        MimeType::Icon => "image/x-icon"@,
    }
}

impl MimeType {
    /// The value of the `Content-Type` header for this content type.
    pub fn as_str(&self) -> (text: &'static str)
        ensures
            text@ == mime_text(*self),
    {
        match self {
            MimeType::Svg => "image/svg+xml; charset=utf-8",
            MimeType::Jpeg => "image/jpeg",
            MimeType::JavaScript => "text/javascript",
            MimeType::Mp3 => "audio/mpeg",
            MimeType::Webp => "image/webp",
            MimeType::Icon => "image/x-icon",
        }
    }
}

/// The index of the last `.` of `name`.
pub open spec fn last_dot(name: Seq<char>) -> Option<int>
    decreases name.len(),
{
    if name.len() == 0 {
        None
    } else if name.last() == '.' {
        Some(name.len() - 1)
    } else {
        last_dot(name.drop_last())
    }
}

/// The extension of a file name: what follows its last `.`. A name without
/// a `.` has none.
pub open spec fn extension(name: Seq<char>) -> Option<Seq<char>> {
    match last_dot(name) {
        Some(dot) => Some(name.skip(dot + 1)),
        None => None,
    }
}

/// The content type that the site serves files of an extension with.
pub open spec fn extension_mime(ext: Seq<char>) -> Option<MimeType> {
    if ext == "svg"@ {
        Some(MimeType::Svg)
    } else if ext == "jpg"@ || ext == "jpeg"@ {
        Some(MimeType::Jpeg)
    } else if ext == "js"@ {
        Some(MimeType::JavaScript)
    } else if ext == "mp3"@ {
        Some(MimeType::Mp3)
    } else if ext == "webp"@ {
        Some(MimeType::Webp)
    } else {
        None
    }
}

/// The content type of the asset `name`, by its extension.
pub open spec fn asset_mime(name: Seq<char>) -> Option<MimeType> {
    match extension(name) {
        Some(ext) => extension_mime(ext),
        None => None,
    }
}

/// The extension of the file name `name`.
pub fn extension_of(name: &str) -> (ext: Option<String>)
    ensures
        text_of(ext) == extension(name@),
{
    let v = chars_of(name);
    let mut i: usize = v.len();
    assert(v@.take(i as int) =~= v@);
    while i > 0
        invariant
            i <= v.len(),
            v@ == name@,
            last_dot(v@) == last_dot(v@.take(i as int)),
        decreases i,
    {
        i -= 1;
        assert(v@.take(i + 1).drop_last() =~= v@.take(i as int));
        if v[i] == '.' {
            let ext = string_of(&v, i + 1, v.len());
            return Some(ext);
        }
    }
    None
}

/// The content type that the asset `name` is served with, if its extension
/// is one that the site knows.
pub fn mime_type(name: &str) -> (mime: Option<MimeType>)
    ensures
        mime == asset_mime(name@),
{
    match extension_of(name) {
        None => None,
        Some(ext) => {
            let ext = ext.as_str();
            if same_text(ext, "svg") {
                Some(MimeType::Svg)
            } else if same_text(ext, "jpg") || same_text(ext, "jpeg") {
                Some(MimeType::Jpeg)
            } else if same_text(ext, "js") {
                Some(MimeType::JavaScript)
            } else if same_text(ext, "mp3") {
                Some(MimeType::Mp3)
            } else if same_text(ext, "webp") {
                Some(MimeType::Webp)
            } else {
                None
            }
        },
    }
}

/// The work that the router hands to a collaborator.
#[derive(Clone, Debug, PartialEq, Eq)]
pub enum Delegation {
    /// Render the home page.
    Index,
    /// Send the site's icon.
    Favicon,
    /// Send the asset `name` with the content type `mime`.
    Asset { name: String, mime: MimeType },
    /// Render the list of sets.
    SetsView,
    /// Render the study page of the set `id`.
    StudySet { id: String },
    /// Render the edit page of the set `id`.
    EditSet { id: String },
    /// Create a set from the fields of the form.
    CreateSet { title: String, subject: String, description: Option<String> },
}

/// A delegation as plain text.
pub enum DelegationView {
    Index,
    Favicon,
    Asset { name: Seq<char>, mime: MimeType },
    SetsView,
    StudySet { id: Seq<char> },
    EditSet { id: Seq<char> },
    CreateSet { title: Seq<char>, subject: Seq<char>, description: Option<Seq<char>> },
}

impl View for Delegation {
    type V = DelegationView;

    open spec fn view(&self) -> DelegationView {
        match self {
            Delegation::Index => DelegationView::Index,
            Delegation::Favicon => DelegationView::Favicon,
            Delegation::Asset { name, mime } => DelegationView::Asset { name: name@, mime: *mime },
            Delegation::SetsView => DelegationView::SetsView,
            Delegation::StudySet { id } => DelegationView::StudySet { id: id@ },
            Delegation::EditSet { id } => DelegationView::EditSet { id: id@ },
            Delegation::CreateSet { title, subject, description } => DelegationView::CreateSet {
                title: title@,
                subject: subject@,
                description: text_of(*description),
            },
        }
    }
}

/// What the router answers: the work to hand on, or the reason why there is
/// none.
pub type HandlerOutcome = Result<Delegation, ResourceError>;

/// An outcome as plain text.
pub open spec fn outcome_view(outcome: HandlerOutcome) -> Result<
    DelegationView,
    ResourceErrorView,
> {
    match outcome {
        Ok(delegation) => Ok(delegation@),
        Err(error) => Err(error@),
    }
}

/// The value of the field `key` of a form, if it was sent.
pub open spec fn field(form: Map<Seq<char>, Seq<char>>, key: Seq<char>) -> Option<Seq<char>> {
    if form.contains_key(key) {
        Some(form[key])
    } else {
        None
    }
}

/// What a handler is asked to do with what its route left of the path and
/// with the form of the request.
pub open spec fn delegation(
    handler: Handler,
    rest: Seq<char>,
    form: Map<Seq<char>, Seq<char>>,
) -> Result<DelegationView, ResourceErrorView> {
    match handler {
        Handler::Index => Ok(DelegationView::Index),
        Handler::Favicon => Ok(DelegationView::Favicon),
        Handler::Asset => match asset_mime(rest) {
            Some(mime) => Ok(DelegationView::Asset { name: rest, mime }),
            None => Err(ResourceErrorView::MissingMimeType(rest)),
        },
        Handler::View => Ok(DelegationView::SetsView),
        Handler::StudySet => Ok(DelegationView::StudySet { id: rest }),
        Handler::EditSet => Ok(DelegationView::EditSet { id: rest }),
        Handler::CreateSet => if !form.contains_key("title"@) {
            Err(ResourceErrorView::MissingParameter("title"@))
        } else if !form.contains_key("subject"@) {
            Err(ResourceErrorView::MissingParameter("subject"@))
        } else {
            Ok(
                DelegationView::CreateSet {
                    title: form["title"@],
                    subject: form["subject"@],
                    description: field(form, "description"@),
                },
            )
        },
    }
}

/// The outcome of a request, by the routing table:
/// a path that no route matches, or that names a view other than `sets`, is
/// not found; a path whose route serves another method is refused for its
/// method; any other request goes to the handler of its route.
pub open spec fn route(method: Method, path: Seq<char>, form: Map<Seq<char>, Seq<char>>) -> Result<
    DelegationView,
    ResourceErrorView,
> {
    match first_match(route_table(), path, 0) {
        None => Err(ResourceErrorView::NotFound(path)),
        Some(i) => {
            let entry = route_table()[i];
            let rest = route_rest(entry, path).unwrap();
            if entry.handler == Handler::View && rest != "sets"@ {
                Err(ResourceErrorView::NotFound(path))
            } else if entry.method != method {
                Err(ResourceErrorView::MethodNotAllowed)
            } else {
                delegation(entry.handler, rest, form)
            }
        },
    }
}

/// No handler serves a method other than `GET` and `POST`: such a request
/// is refused for its method where its path is served, and not found where
/// it is not.
pub proof fn lemma_other_methods_are_refused(path: Seq<char>, form: Map<Seq<char>, Seq<char>>)
    ensures
        route(Method::Other, path, form) == Err::<DelegationView, ResourceErrorView>(
            ResourceErrorView::MethodNotAllowed,
        ) || route(Method::Other, path, form) == Err::<DelegationView, ResourceErrorView>(
            ResourceErrorView::NotFound(path),
        ),
{
    lemma_first_match(route_table(), path, 0);
}

/// Hands what `rest` and `form` hold to the handler.
fn delegate(handler: Handler, rest: String, form: &Query) -> (outcome: HandlerOutcome)
    ensures
        outcome_view(outcome) == delegation(handler, rest@, form@),
{
    match handler {
        Handler::Index => Ok(Delegation::Index),
        Handler::Favicon => Ok(Delegation::Favicon),
        Handler::Asset => match mime_type(rest.as_str()) {
            Some(mime) => Ok(Delegation::Asset { name: rest, mime }),
            None => Err(ResourceError::MissingMimeType(rest)),
        },
        Handler::View => Ok(Delegation::SetsView),
        Handler::StudySet => Ok(Delegation::StudySet { id: rest }),
        Handler::EditSet => Ok(Delegation::EditSet { id: rest }),
        Handler::CreateSet => {
            let title = match form.get("title") {
                Ok(title) => title,
                Err(_) => {
                    return Err(ResourceError::MissingParameter(String::from_str("title")));
                },
            };
            let subject = match form.get("subject") {
                Ok(subject) => subject,
                Err(_) => {
                    return Err(ResourceError::MissingParameter(String::from_str("subject")));
                },
            };
            let description = match form.get("description") {
                Ok(description) => Some(description),
                Err(_) => None,
            };
            Ok(Delegation::CreateSet { title, subject, description })
        },
    }
}

/// Routes a request whose form has been read already.
pub fn dispatch_form(method: Method, path: &str, form: &Query) -> (outcome: HandlerOutcome)
    ensures
        outcome_view(outcome) == route(method, path@, form@),
{
    match find_route(path) {
        None => Err(ResourceError::NotFound(String::from_str(path))),
        Some((route, rest)) => {
            let unknown_view = match route.handler {
                Handler::View => !same_text(rest.as_str(), "sets"),
                _ => false,
            };
            if unknown_view {
                Err(ResourceError::NotFound(String::from_str(path)))
            } else if route.method != method {
                Err(ResourceError::MethodNotAllowed)
            } else {
                delegate(route.handler, rest, form)
            }
        },
    }
}

/// The fields of an optional form body. A request without a body, or with
/// an empty one, has none.
pub open spec fn body_form(body: Option<Seq<char>>) -> Map<Seq<char>, Seq<char>> {
    match body {
        Some(text) => if text.len() == 0 {
            Map::empty()
        } else {
            pairs_map(form_pairs(text))
        },
        None => Map::empty(),
    }
}

/// Routes a request: reads the body as a form and answers as the routing
/// table says. `path` is the path of the request target, without its query.
pub fn dispatch(method: Method, path: &str, body: Option<&str>) -> (outcome: HandlerOutcome)
    ensures
        outcome_view(outcome) == route(
            method,
            path@,
            body_form(
                match body {
                    Some(text) => Some(text@),
                    None => None,
                },
            ),
        ),
{
    let form = match body {
        Some(text) => Query::from_str(text),
        None => Query::default(),
    };
    dispatch_form(method, path, &form)
}

/// Holds the names of the assets against the table of content types, as a
/// site does once before it serves: the first name without a content type
/// is reported.
pub fn check_assets(names: &Vec<String>) -> (checked: Result<(), ResourceError>)
    ensures
        match checked {
            Ok(_) => forall|i: int| 0 <= i < names.len() ==> asset_mime(names[i]@) is Some,
            Err(error) => exists|i: int|
                0 <= i < names.len() && asset_mime(names[i]@) is None && error@
                    == ResourceErrorView::MissingMimeType(names[i]@) && forall|j: int|
                    0 <= j < i ==> asset_mime(names[j]@) is Some,
        },
{
    let mut i: usize = 0;
    while i < names.len()
        invariant
            i <= names.len(),
            forall|j: int| 0 <= j < i ==> asset_mime(names[j]@) is Some,
        decreases names.len() - i,
    {
        if mime_type(names[i].as_str()).is_none() {
            return Err(ResourceError::MissingMimeType(names[i].clone()));
        }
        i += 1;
    }
    Ok(())
}

/// The status of the answer to a set that was created.
pub const SEE_OTHER: u16 = 303;

/// An answer that sends the client on to another path.
#[derive(Clone, Debug, PartialEq, Eq)]
pub struct Redirect {
    pub status: u16,
    pub location: String,
}

/// The path under which the set `id` is studied.
pub open spec fn study_path(id: Seq<char>) -> Seq<char> {
    "/sets/"@ + id
}

/// The path under which the set `id` is edited.
pub open spec fn edit_path(id: Seq<char>) -> Seq<char> {
    "/edit-set/"@ + id
}

/// The request target under which the sets of `subject` are listed.
pub open spec fn sets_view_target(subject: Seq<char>) -> Seq<char> {
    "/view/sets?subject="@ + subject
}

/// The request target under which the sets of `subject` are listed: the
/// path of the list, and the subject as its query.
pub fn sets_view_location(subject: &str) -> (target: String)
    ensures
        target@ == sets_view_target(subject@),
{
    let mut target = String::from_str("/view/sets?subject=");
    target.append(subject);
    target
}

/// The path under which the set `id` is studied.
pub fn study_location(id: &str) -> (path: String)
    ensures
        path@ == study_path(id@),
{
    let mut path = String::from_str("/sets/");
    path.append(id);
    path
}

/// The path under which the set `id` is edited.
pub fn edit_location(id: &str) -> (path: String)
    ensures
        path@ == edit_path(id@),
{
    let mut path = String::from_str("/edit-set/");
    path.append(id);
    path
}

/// The answer to a set that was created under `slug`: status 303, and the
/// path of the set as the location.
pub fn created(slug: &str) -> (redirect: Redirect)
    ensures
        redirect.status == 303,
        redirect.location@ == study_path(slug@),
{
    Redirect { status: SEE_OTHER, location: study_location(slug) }
}

/// The location that [`created`] sends a client to is served: a `GET` of it
/// goes to the study page of the set. So does every path that
/// [`study_location`] makes.
pub proof fn lemma_study_path_is_served(id: Seq<char>, form: Map<Seq<char>, Seq<char>>)
    ensures
        route(Method::Get, study_path(id), form) == Ok::<DelegationView, ResourceErrorView>(
            DelegationView::StudySet { id },
        ),
{
    reveal_strlit("/");
    reveal_strlit("/favicon.ico");
    reveal_strlit("/create-set");
    reveal_strlit("/assets/");
    reveal_strlit("/view/");
    reveal_strlit("/sets/");
    reveal_with_fuel(first_match, 8);
    let path = study_path(id);
    let table = route_table();
    assert(path[1] == 's');
    assert(route_rest(table[5], path) == Some(id));
}

/// A `GET` of a path that [`edit_location`] makes goes to the edit page of
/// the set.
pub proof fn lemma_edit_path_is_served(id: Seq<char>, form: Map<Seq<char>, Seq<char>>)
    ensures
        route(Method::Get, edit_path(id), form) == Ok::<DelegationView, ResourceErrorView>(
            DelegationView::EditSet { id },
        ),
{
    reveal_strlit("/");
    reveal_strlit("/favicon.ico");
    reveal_strlit("/create-set");
    reveal_strlit("/assets/");
    reveal_strlit("/view/");
    reveal_strlit("/sets/");
    reveal_strlit("/edit-set/");
    reveal_with_fuel(first_match, 8);
    let path = edit_path(id);
    let table = route_table();
    assert(path[1] == 'e');
    assert(route_rest(table[6], path) == Some(id));
}

} // verus!
