//! Which request asks for what.

use vstd::prelude::*;
use vstd::string::*;

use crate::text;

verus! {

/// The method of a request.
#[derive(Debug)]
pub enum Method {
    Get,
    Head,
    Post,
    Put,
    Delete,
    Connect,
    Options,
    Trace,
    Patch,
    Other(String),
}

/// What a request asks for. The text is the id of a device, or the path that is not served.
#[derive(Debug)]
pub enum Route {
    /// `GET /health`: component health check.
    Health,
    /// `GET /api/devices`: list all monitored devices.
    ListDevices,
    /// `POST /api/devices`: register a new device.
    CreateDevice,
    /// `DELETE /api/devices/{id}`: remove a device.
    DeleteDevice(String),
    /// `GET /api/metrics`: metrics for every device.
    AllMetrics,
    /// `GET /api/metrics/{id}`: metrics for a single device.
    Metrics(String),
    /// `GET /api/history/{id}`: raw check history (JSON).
    History(String),
    /// `POST /api/poll`: trigger an immediate poll of all.
    PollAll,
    /// `POST /api/poll/{id}`: trigger a poll of one device.
    Poll(String),
    /// `GET /api/dashboard-data`: the main dashboard's figures (JSON).
    DashboardData,
    /// `GET /api/dashboard-data/{id}`: the figures of a single device (JSON).
    DetailData(String),
    /// `GET /api/dashboard`: main HTML dashboard.
    DashboardPage,
    /// `GET /api/dashboard/{id}`: detailed page for a single device.
    DetailPage(String),
    /// Nothing that is served.
    NotFound(String),
}

/// What a [`Route`] is, in terms of its text.
pub enum RouteView {
    Health,
    ListDevices,
    CreateDevice,
    DeleteDevice(Seq<char>),
    AllMetrics,
    Metrics(Seq<char>),
    History(Seq<char>),
    PollAll,
    Poll(Seq<char>),
    DashboardData,
    DetailData(Seq<char>),
    DashboardPage,
    DetailPage(Seq<char>),
    NotFound(Seq<char>),
}

impl View for Route {
    type V = RouteView;

    open spec fn view(&self) -> RouteView {
        match *self {
            Route::Health => RouteView::Health,
            Route::ListDevices => RouteView::ListDevices,
            Route::CreateDevice => RouteView::CreateDevice,
            Route::DeleteDevice(id) => RouteView::DeleteDevice(id@),
            Route::AllMetrics => RouteView::AllMetrics,
            Route::Metrics(id) => RouteView::Metrics(id@),
            Route::History(id) => RouteView::History(id@),
            Route::PollAll => RouteView::PollAll,
            Route::Poll(id) => RouteView::Poll(id@),
            Route::DashboardData => RouteView::DashboardData,
            Route::DetailData(id) => RouteView::DetailData(id@),
            Route::DashboardPage => RouteView::DashboardPage,
            Route::DetailPage(id) => RouteView::DetailPage(id@),
            Route::NotFound(path) => RouteView::NotFound(path@),
        }
    }
}

/// `s` without the slashes at its end.
pub open spec fn without_slashes(s: Seq<char>) -> Seq<char>
    decreases s.len(),
{
    if s.len() > 0 && s.last() == '/' {
        without_slashes(s.drop_last())
    } else {
        s
    }
}

/// The path that decides what is served: all before the query, without the slashes at its end.
pub open spec fn clean_path(path_with_query: Seq<char>) -> Seq<char> {
    without_slashes(path_with_query.take(text::first_index(path_with_query, '?')))
}

/// What a GET request for a clean path asks for.
pub open spec fn get_route(path: Seq<char>) -> RouteView {
    if path == "/health"@ || path.len() == 0 {
        RouteView::Health
    } else if path == "/api/devices"@ {
        RouteView::ListDevices
    } else if path == "/api/metrics"@ {
        RouteView::AllMetrics
    } else if text::begins_with(path, "/api/metrics/"@) {
        RouteView::Metrics(path.skip(13))
    } else if text::begins_with(path, "/api/history/"@) {
        RouteView::History(path.skip(13))
    } else if path == "/api/dashboard-data"@ {
        RouteView::DashboardData
    } else if text::begins_with(path, "/api/dashboard-data/"@) {
        RouteView::DetailData(path.skip(20))
    } else if path == "/api/dashboard"@ {
        RouteView::DashboardPage
    } else if text::begins_with(path, "/api/dashboard/"@) {
        RouteView::DetailPage(path.skip(15))
    } else {
        RouteView::NotFound(path)
    }
}

/// What a POST request for a clean path asks for.
pub open spec fn post_route(path: Seq<char>) -> RouteView {
    if path == "/api/devices"@ {
        RouteView::CreateDevice
    } else if path == "/api/poll"@ {
        RouteView::PollAll
    } else if text::begins_with(path, "/api/poll/"@) {
        RouteView::Poll(path.skip(10))
    } else {
        RouteView::NotFound(path)
    }
}

/// What a DELETE request for a clean path asks for.
pub open spec fn delete_route(path: Seq<char>) -> RouteView {
    if text::begins_with(path, "/api/devices/"@) {
        RouteView::DeleteDevice(path.skip(13))
    } else {
        RouteView::NotFound(path)
    }
}

/// What a request asks for.
pub open spec fn route_of(method: Method, path_with_query: Seq<char>) -> RouteView {
    let path = clean_path(path_with_query);
    match method {
        Method::Get => get_route(path),
        Method::Post => post_route(path),
        Method::Delete => delete_route(path),
        _ => RouteView::NotFound(path),
    }
}

/// `s` without the slashes at its end.
fn trim_slashes(s: &str) -> (r: String)
    ensures
        r@ == without_slashes(s@),
{
    let chars = text::chars_of(s);
    let mut n: usize = chars.len();
    assert(s@.take(n as int) == s@);
    while n > 0 && chars[n - 1] == '/'
        invariant
            n <= chars@.len(),
            chars@ == s@,
            without_slashes(s@.take(n as int)) == without_slashes(s@),
        decreases n,
    {
        assert(s@.take(n as int).drop_last() == s@.take(n - 1));
        n = n - 1;
    }
    s.substring_char(0, n).to_owned()
}

fn route_get(path: String) -> (r: Route)
    ensures
        r@ == get_route(path@),
{
    proof {
        reveal_strlit("/api/metrics/");
        reveal_strlit("/api/history/");
        reveal_strlit("/api/dashboard-data/");
        reveal_strlit("/api/dashboard/");
    }
    let p = path.as_str();
    if text::same_text(p, "/health") || p.is_empty() {
        Route::Health
    } else if text::same_text(p, "/api/devices") {
        Route::ListDevices
    } else if text::same_text(p, "/api/metrics") {
        Route::AllMetrics
    } else if let Some(id) = text::strip_prefix(p, "/api/metrics/") {
        Route::Metrics(id)
    } else if let Some(id) = text::strip_prefix(p, "/api/history/") {
        Route::History(id)
    } else if text::same_text(p, "/api/dashboard-data") {
        Route::DashboardData
    } else if let Some(id) = text::strip_prefix(p, "/api/dashboard-data/") {
        Route::DetailData(id)
    } else if text::same_text(p, "/api/dashboard") {
        Route::DashboardPage
    } else if let Some(id) = text::strip_prefix(p, "/api/dashboard/") {
        Route::DetailPage(id)
    } else {
        Route::NotFound(path)
    }
}

fn route_post(path: String) -> (r: Route)
    ensures
        r@ == post_route(path@),
{
    proof {
        reveal_strlit("/api/poll/");
    }
    let p = path.as_str();
    if text::same_text(p, "/api/devices") {
        Route::CreateDevice
    } else if text::same_text(p, "/api/poll") {
        Route::PollAll
    } else if let Some(id) = text::strip_prefix(p, "/api/poll/") {
        Route::Poll(id)
    } else {
        Route::NotFound(path)
    }
}

fn route_delete(path: String) -> (r: Route)
    ensures
        r@ == delete_route(path@),
{
    proof {
        reveal_strlit("/api/devices/");
    }
    match text::strip_prefix(path.as_str(), "/api/devices/") {
        Some(id) => Route::DeleteDevice(id),
        None => Route::NotFound(path),
    }
}

/// What a request asks for; a request without a path counts as one for the empty path.
pub fn route(method: &Method, path_with_query: Option<&str>) -> (r: Route)
    ensures
        r@ == route_of(
            *method,
            match path_with_query {
                Some(path) => path@,
                None => Seq::<char>::empty(),
            },
        ),
{
    let whole = match path_with_query {
        Some(path) => path.to_owned(),
        None => String::new(),
    };
    let whole = whole.as_str();
    let path = trim_slashes(whole.substring_char(0, text::find_char(whole, '?')));
    match method {
        Method::Get => route_get(path),
        Method::Post => route_post(path),
        Method::Delete => route_delete(path),
        _ => Route::NotFound(path),
    }
}

/// `id` can be written in the path of a request: it is not empty, holds no question mark and
/// does not end with a slash.
pub open spec fn addressable(id: Seq<char>) -> bool {
    id.len() > 0 && !id.contains('?') && id.last() != '/'
}

/// A path that holds no question mark and does not end with a slash is clean.
proof fn clean_path_is_itself(path: Seq<char>)
    requires
        !path.contains('?'),
        path.len() > 0 ==> path.last() != '/',
    ensures
        clean_path(path) == path,
{
    text::first_index_at(path, '?', path.len() as int);
    assert(path.take(path.len() as int) == path);
}

proof fn path_to(prefix: Seq<char>, id: Seq<char>)
    requires
        addressable(id),
        !prefix.contains('?'),
    ensures
        clean_path(prefix + id) == prefix + id,
        text::begins_with(prefix + id, prefix),
        (prefix + id).skip(prefix.len() as int) == id,
{
    let path = prefix + id;
    if path.contains('?') {
        let i = choose|i: int| 0 <= i < path.len() && path[i] == '?';
        if i < prefix.len() {
            assert(prefix[i] == '?');
        } else {
            assert(id[i - prefix.len()] == '?');
        }
    }
    assert(path.last() == id.last());
    clean_path_is_itself(path);
    assert(path.take(prefix.len() as int) == prefix);
    assert(path.skip(prefix.len() as int) == id);
}

proof fn told_apart(path: Seq<char>, other: Seq<char>, i: int)
    requires
        0 <= i < path.len(),
        i < other.len(),
        path[i] != other[i],
    ensures
        path != other,
        !text::begins_with(path, other),
{
    if text::begins_with(path, other) {
        assert(path.take(other.len() as int)[i] == path[i]);
    }
}

/// `s` is a clean path of `len` characters.
spec fn is_path(s: Seq<char>, len: int) -> bool {
    s.len() == len && !s.contains('?') && s.last() != '/'
}

/// `s` is what the paths of devices begin with, `len` characters up to a slash.
spec fn is_prefix(s: Seq<char>, len: int) -> bool {
    s.len() == len && !s.contains('?') && s.last() == '/'
}

/// The paths that are served, and the characters that tell them apart.
proof fn served_paths()
    ensures
        is_path("/health"@, 7),
        is_path("/api/devices"@, 12),
        is_path("/api/metrics"@, 12),
        is_path("/api/poll"@, 9),
        is_path("/api/dashboard-data"@, 19),
        is_path("/api/dashboard"@, 14),
        is_prefix("/api/devices/"@, 13),
        is_prefix("/api/metrics/"@, 13),
        is_prefix("/api/history/"@, 13),
        is_prefix("/api/poll/"@, 10),
        is_prefix("/api/dashboard-data/"@, 20),
        is_prefix("/api/dashboard/"@, 15),
        "/health"@[1] == 'h',
        "/api/devices"@[1] == 'a',
        "/api/metrics"@[1] == 'a',
        "/api/poll"@[1] == 'a',
        "/api/dashboard-data"@[1] == 'a',
        "/api/dashboard"@[1] == 'a',
        "/api/devices/"@[1] == 'a',
        "/api/metrics/"@[1] == 'a',
        "/api/history/"@[1] == 'a',
        "/api/poll/"@[1] == 'a',
        "/api/dashboard-data/"@[1] == 'a',
        "/api/dashboard/"@[1] == 'a',
        "/api/devices"@[5] == 'd',
        "/api/metrics"@[5] == 'm',
        "/api/poll"@[5] == 'p',
        "/api/dashboard-data"@[5] == 'd',
        "/api/dashboard"@[5] == 'd',
        "/api/devices/"@[5] == 'd',
        "/api/metrics/"@[5] == 'm',
        "/api/history/"@[5] == 'h',
        "/api/poll/"@[5] == 'p',
        "/api/dashboard-data/"@[5] == 'd',
        "/api/dashboard/"@[5] == 'd',
        "/api/devices"@[6] == 'e',
        "/api/dashboard-data"@[6] == 'a',
        "/api/dashboard"@[6] == 'a',
        "/api/dashboard-data/"@[6] == 'a',
        "/api/dashboard/"@[6] == 'a',
        "/api/dashboard-data"@[14] == '-',
        "/api/dashboard-data/"@[14] == '-',
        "/api/dashboard/"@[14] == '/',
{
    reveal_strlit("/health");
    reveal_strlit("/api/devices");
    reveal_strlit("/api/devices/");
    reveal_strlit("/api/metrics");
    reveal_strlit("/api/metrics/");
    reveal_strlit("/api/history/");
    reveal_strlit("/api/poll");
    reveal_strlit("/api/poll/");
    reveal_strlit("/api/dashboard-data");
    reveal_strlit("/api/dashboard-data/");
    reveal_strlit("/api/dashboard");
    reveal_strlit("/api/dashboard/");
}

/// Every device with an addressable id can be reached by the documented paths.
pub proof fn devices_are_reachable(id: Seq<char>)
    requires
        addressable(id),
    ensures
        route_of(Method::Delete, "/api/devices/"@ + id) == RouteView::DeleteDevice(id),
        route_of(Method::Get, "/api/metrics/"@ + id) == RouteView::Metrics(id),
        route_of(Method::Get, "/api/history/"@ + id) == RouteView::History(id),
        route_of(Method::Post, "/api/poll/"@ + id) == RouteView::Poll(id),
        route_of(Method::Get, "/api/dashboard-data/"@ + id) == RouteView::DetailData(id),
        route_of(Method::Get, "/api/dashboard/"@ + id) == RouteView::DetailPage(id),
{
    served_paths();
    path_to("/api/devices/"@, id);
    path_to("/api/metrics/"@, id);
    path_to("/api/history/"@, id);
    path_to("/api/poll/"@, id);
    path_to("/api/dashboard-data/"@, id);
    path_to("/api/dashboard/"@, id);
    let metrics = "/api/metrics/"@ + id;
    told_apart(metrics, "/health"@, 1);
    told_apart(metrics, "/api/devices"@, 5);
    let history = "/api/history/"@ + id;
    told_apart(history, "/health"@, 1);
    told_apart(history, "/api/devices"@, 5);
    told_apart(history, "/api/metrics"@, 5);
    told_apart(history, "/api/metrics/"@, 5);
    let poll = "/api/poll/"@ + id;
    told_apart(poll, "/api/devices"@, 5);
    let data = "/api/dashboard-data/"@ + id;
    told_apart(data, "/health"@, 1);
    told_apart(data, "/api/devices"@, 6);
    told_apart(data, "/api/metrics"@, 5);
    told_apart(data, "/api/metrics/"@, 5);
    told_apart(data, "/api/history/"@, 5);
    let page = "/api/dashboard/"@ + id;
    told_apart(page, "/health"@, 1);
    told_apart(page, "/api/devices"@, 6);
    told_apart(page, "/api/metrics"@, 5);
    told_apart(page, "/api/metrics/"@, 5);
    told_apart(page, "/api/history/"@, 5);
    told_apart(page, "/api/dashboard-data"@, 14);
    told_apart(page, "/api/dashboard-data/"@, 14);
}

/// The documented paths without an id are served.
pub proof fn documented_paths_are_served()
    ensures
        route_of(Method::Get, "/health"@) == RouteView::Health,
        route_of(Method::Get, Seq::<char>::empty()) == RouteView::Health,
        route_of(Method::Get, "/api/devices"@) == RouteView::ListDevices,
        route_of(Method::Post, "/api/devices"@) == RouteView::CreateDevice,
        route_of(Method::Get, "/api/metrics"@) == RouteView::AllMetrics,
        route_of(Method::Post, "/api/poll"@) == RouteView::PollAll,
        route_of(Method::Get, "/api/dashboard-data"@) == RouteView::DashboardData,
        route_of(Method::Get, "/api/dashboard"@) == RouteView::DashboardPage,
{
    served_paths();
    clean_path_is_itself("/health"@);
    clean_path_is_itself(Seq::<char>::empty());
    clean_path_is_itself("/api/devices"@);
    clean_path_is_itself("/api/metrics"@);
    clean_path_is_itself("/api/poll"@);
    clean_path_is_itself("/api/dashboard-data"@);
    clean_path_is_itself("/api/dashboard"@);
    told_apart("/api/devices"@, "/health"@, 1);
    told_apart("/api/metrics"@, "/health"@, 1);
    told_apart("/api/metrics"@, "/api/devices"@, 5);
    told_apart("/api/poll"@, "/api/devices"@, 5);
    told_apart("/api/dashboard-data"@, "/health"@, 1);
    told_apart("/api/dashboard-data"@, "/api/devices"@, 6);
    told_apart("/api/dashboard-data"@, "/api/metrics"@, 5);
    told_apart("/api/dashboard-data"@, "/api/metrics/"@, 5);
    told_apart("/api/dashboard-data"@, "/api/history/"@, 5);
    told_apart("/api/dashboard"@, "/health"@, 1);
    told_apart("/api/dashboard"@, "/api/devices"@, 6);
    told_apart("/api/dashboard"@, "/api/metrics"@, 5);
    told_apart("/api/dashboard"@, "/api/metrics/"@, 5);
    told_apart("/api/dashboard"@, "/api/history/"@, 5);
}

/// The device that a route names.
pub open spec fn named_device(r: RouteView) -> Option<Seq<char>> {
    match r {
        RouteView::DeleteDevice(id) => Some(id),
        RouteView::Metrics(id) => Some(id),
        RouteView::History(id) => Some(id),
        RouteView::Poll(id) => Some(id),
        RouteView::DetailData(id) => Some(id),
        RouteView::DetailPage(id) => Some(id),
        _ => None,
    }
}

proof fn clean_path_shape(path_with_query: Seq<char>)
    ensures
        !clean_path(path_with_query).contains('?'),
        clean_path(path_with_query).len() > 0 ==> clean_path(path_with_query).last() != '/',
{
    let k = text::first_index(path_with_query, '?');
    text::first_index_is_first(path_with_query, '?');
    let whole = path_with_query.take(k);
    without_slashes_shape(whole);
    let path = clean_path(path_with_query);
    if path.contains('?') {
        let i = choose|i: int| 0 <= i < path.len() && path[i] == '?';
        assert(path[i] == path_with_query[i]);
    }
}

proof fn without_slashes_shape(s: Seq<char>)
    ensures
        without_slashes(s).len() <= s.len(),
        without_slashes(s) == s.take(without_slashes(s).len() as int),
        without_slashes(s).len() > 0 ==> without_slashes(s).last() != '/',
    decreases s.len(),
{
    if s.len() > 0 && s.last() == '/' {
        without_slashes_shape(s.drop_last());
    } else {
        assert(s.take(s.len() as int) == s);
    }
}

/// A request can name no device but an addressable one.
pub proof fn named_devices_are_addressable(method: Method, path_with_query: Seq<char>)
    ensures
        named_device(route_of(method, path_with_query)) matches Some(id) ==> addressable(id),
{
    served_paths();
    let path = clean_path(path_with_query);
    clean_path_shape(path_with_query);
    if let Some(id) = named_device(route_of(method, path_with_query)) {
        let n = path.len() - id.len();
        assert(id == path.skip(n));
        if id.len() == 0 {
            assert(path.take(n) == path);
            assert(path.last() == '/');
        }
        assert(id.last() == path.last());
        if id.contains('?') {
            let i = choose|i: int| 0 <= i < id.len() && id[i] == '?';
            assert(path[n + i] == '?');
        }
    }
}

/// Neither a query nor slashes at the end of the path change what a request asks for.
pub proof fn query_and_slashes_do_not_matter(method: Method, path: Seq<char>, query: Seq<char>)
    requires
        !path.contains('?'),
    ensures
        route_of(method, path + "?"@ + query) == route_of(method, path),
        route_of(method, path + "/"@) == route_of(method, path),
{
    reveal_strlit("?");
    reveal_strlit("/");
    let asked = path + "?"@ + query;
    assert forall|i: int| 0 <= i < path.len() implies #[trigger] asked[i] != '?' by {
        assert(asked[i] == path[i]);
    }
    assert(asked[path.len() as int] == '?');
    text::first_index_at(asked, '?', path.len() as int);
    assert(asked.take(path.len() as int) == path);
    text::first_index_at(path, '?', path.len() as int);
    assert(path.take(path.len() as int) == path);
    let slashed = path + "/"@;
    assert forall|i: int| 0 <= i < slashed.len() implies #[trigger] slashed[i] != '?' by {
        if i < path.len() {
            assert(slashed[i] == path[i]);
        }
    }
    text::first_index_at(slashed, '?', slashed.len() as int);
    assert(slashed.take(slashed.len() as int) == slashed);
    assert(slashed.drop_last() == path);
}

/// Only GET, POST and DELETE requests are served.
pub proof fn other_methods_are_not_served(method: Method, path_with_query: Seq<char>)
    requires
        method !is Get,
        method !is Post,
        method !is Delete,
    ensures
        route_of(method, path_with_query) == RouteView::NotFound(clean_path(path_with_query)),
{
}

/// In contracts a route has the text that it has in code.
pub proof fn routes_stand_for_their_text(r: Route)
    ensures
        r is Health <==> r@ is Health,
        r is ListDevices <==> r@ is ListDevices,
        r is CreateDevice <==> r@ is CreateDevice,
        r is AllMetrics <==> r@ is AllMetrics,
        r is PollAll <==> r@ is PollAll,
        r is DashboardData <==> r@ is DashboardData,
        r is DashboardPage <==> r@ is DashboardPage,
        r matches Route::DeleteDevice(id) ==> r@ == RouteView::DeleteDevice(id@),
        r matches Route::Metrics(id) ==> r@ == RouteView::Metrics(id@),
        r matches Route::History(id) ==> r@ == RouteView::History(id@),
        r matches Route::Poll(id) ==> r@ == RouteView::Poll(id@),
        r matches Route::DetailData(id) ==> r@ == RouteView::DetailData(id@),
        r matches Route::DetailPage(id) ==> r@ == RouteView::DetailPage(id@),
        r matches Route::NotFound(path) ==> r@ == RouteView::NotFound(path@),
{
}

/// A clean path holds no question mark and does not end with a slash. Up to a question mark, and
/// but for slashes at its end, a path is left as it is.
pub proof fn paths_are_cleaned(path: Seq<char>, query: Seq<char>)
    ensures
        !clean_path(path).contains('?'),
        clean_path(path).len() > 0 ==> clean_path(path).last() != '/',
        !path.contains('?') && (path.len() > 0 ==> path.last() != '/') ==> clean_path(path) == path,
        !path.contains('?') ==> clean_path(path + "?"@ + query) == clean_path(path),
        !path.contains('?') ==> clean_path(path + "/"@) == clean_path(path),
        clean_path(path).len() <= path.len(),
        clean_path(path) == path.take(clean_path(path).len() as int),
{
    clean_path_shape(path);
    text::first_index_is_first(path, '?');
    let k = text::first_index(path, '?');
    without_slashes_shape(path.take(k));
    assert(path.take(k).take(clean_path(path).len() as int) =~= path.take(
        clean_path(path).len() as int,
    ));
    if !path.contains('?') {
        if path.len() > 0 ==> path.last() != '/' {
            clean_path_is_itself(path);
        }
        query_and_slashes_do_not_matter(Method::Head, path, query);
        other_methods_are_not_served(Method::Head, path);
        other_methods_are_not_served(Method::Head, path + "?"@ + query);
        other_methods_are_not_served(Method::Head, path + "/"@);
    }
}

/// Each thing that is served is served for one method and its own paths and for no other: the
/// clean path is the documented one, for a device with its id at the end. All else is not found,
/// and the answer names the clean path.
pub proof fn each_route_has_its_own_paths(method: Method, path: Seq<char>, id: Seq<char>)
    ensures
        ({
            let r = route_of(method, path);
            let c = clean_path(path);
            &&& r is Health <==> method is Get && (c == "/health"@ || c.len() == 0)
            &&& r is ListDevices <==> method is Get && c == "/api/devices"@
            &&& r is CreateDevice <==> method is Post && c == "/api/devices"@
            &&& r is AllMetrics <==> method is Get && c == "/api/metrics"@
            &&& r is PollAll <==> method is Post && c == "/api/poll"@
            &&& r is DashboardData <==> method is Get && c == "/api/dashboard-data"@
            &&& r is DashboardPage <==> method is Get && c == "/api/dashboard"@
            &&& r == RouteView::DeleteDevice(id) <==> method is Delete && c == "/api/devices/"@ + id
            &&& r == RouteView::Metrics(id) <==> method is Get && c == "/api/metrics/"@ + id
            &&& r == RouteView::History(id) <==> method is Get && c == "/api/history/"@ + id
            &&& r == RouteView::Poll(id) <==> method is Post && c == "/api/poll/"@ + id
            &&& r == RouteView::DetailData(id) <==> method is Get && c == "/api/dashboard-data/"@
                + id
            &&& r == RouteView::DetailPage(id) <==> method is Get && c == "/api/dashboard/"@ + id
            &&& r matches RouteView::NotFound(p) ==> p == c
        }),
{
    let c = clean_path(path);
    served_paths();
    documented_paths_are_served();
    clean_path_shape(path);
    clean_path_is_itself(c);
    assert(route_of(method, path) == route_of(method, c));
    ends_in_its_id(c, "/api/devices/"@, id);
    ends_in_its_id(c, "/api/metrics/"@, id);
    ends_in_its_id(c, "/api/history/"@, id);
    ends_in_its_id(c, "/api/poll/"@, id);
    ends_in_its_id(c, "/api/dashboard-data/"@, id);
    ends_in_its_id(c, "/api/dashboard/"@, id);
    if addressable(id) {
        devices_are_reachable(id);
    }
    assert(c.len() == 0 ==> c =~= Seq::<char>::empty());
}

proof fn ends_in_its_id(c: Seq<char>, prefix: Seq<char>, id: Seq<char>)
    requires
        !c.contains('?'),
        c.len() > 0 ==> c.last() != '/',
        prefix.len() > 0 && prefix.last() == '/',
    ensures
        c == prefix + id ==> addressable(id),
        text::begins_with(c, prefix) && c.skip(prefix.len() as int) == id ==> c == prefix + id,
{
    text::prefixes_are_completed(c, prefix, id);
    if c == prefix + id {
        if id.len() == 0 {
            assert(c =~= prefix);
        }
        assert(id.len() > 0 ==> c.last() == id.last());
        if id.contains('?') {
            let i = choose|i: int| 0 <= i < id.len() && id[i] == '?';
            assert(c[prefix.len() + i] == '?');
        }
    }
}

} // verus!
