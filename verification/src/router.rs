//! Which handler a request goes to, by its path and method.

use crate::http::{method_not_allowed, method_not_allowed_error, Failure, HttpError, Request, Status};
use crate::text::str_eq;
use vstd::prelude::*;
use vstd::string::*;

verus! {

/// The methods that the store takes.
#[derive(Clone, Copy, Debug, PartialEq, Eq, Structural)]
pub enum StoreMethod {
    Get,
    Put,
    Post,
    Delete,
    Head,
}

/// The handlers.
#[derive(Clone, Copy, Debug, PartialEq, Eq, Structural)]
pub enum Route {
    /// The landing page.
    Landing,
    /// Evaluation of a query.
    Query,
    /// Evaluation of an update.
    Update,
    /// Reading and writing of graphs.
    Store(StoreMethod),
    /// Federated search.
    Search,
}

/// The store method that a method name stands for.
pub open spec fn store_method(method: Seq<char>) -> Option<StoreMethod> {
    if method == "GET"@ {
        Some(StoreMethod::Get)
    } else if method == "PUT"@ {
        Some(StoreMethod::Put)
    } else if method == "POST"@ {
        Some(StoreMethod::Post)
    } else if method == "DELETE"@ {
        Some(StoreMethod::Delete)
    } else if method == "HEAD"@ {
        Some(StoreMethod::Head)
    } else {
        None
    }
}

/// The handler for a method and a path other than `/`.
pub open spec fn route_of(method: Seq<char>, path: Seq<char>) -> Option<Route> {
    if path == "/query"@ {
        if method == "GET"@ || method == "POST"@ {
            Some(Route::Query)
        } else {
            None
        }
    } else if path == "/update"@ {
        if method == "POST"@ {
            Some(Route::Update)
        } else {
            None
        }
    } else if path == "/store"@ {
        match store_method(method) {
            Some(m) => Some(Route::Store(m)),
            None => None,
        }
    } else if path == "/search"@ {
        if method == "GET"@ {
            Some(Route::Search)
        } else {
            None
        }
    } else {
        None
    }
}

/// A route that changes what the graph store holds.
pub open spec fn is_mutating(route: Route) -> bool {
    match route {
        Route::Update => true,
        Route::Store(m) => m == StoreMethod::Put || m == StoreMethod::Post || m
            == StoreMethod::Delete,
        _ => false,
    }
}

/// The failure for a path and method that no handler takes.
pub open spec fn not_found(method: Seq<char>, path: Seq<char>) -> Failure {
    Failure {
        status: Status::NotFound,
        message: method + " "@ + path + " is not supported by this server"@,
    }
}

/// The failure for a change that is asked of a server in read-only mode.
pub open spec fn forbidden() -> Failure {
    Failure { status: Status::Forbidden, message: "The server is in read-only mode"@ }
}

/// Where a request goes. The landing page takes `GET` alone; a path and method that no
/// handler takes are not found; in read-only mode a route that changes the store is
/// forbidden.
pub open spec fn routed(method: Seq<char>, path: Seq<char>, read_only: bool) -> Result<
    Route,
    Failure,
> {
    if path == "/"@ {
        if method == "GET"@ {
            Ok(Route::Landing)
        } else {
            Err(method_not_allowed(method))
        }
    } else {
        match route_of(method, path) {
            None => Err(not_found(method, path)),
            Some(route) => if read_only && is_mutating(route) {
                Err(forbidden())
            } else {
                Ok(route)
            },
        }
    }
}

fn read_store_method(method: &str) -> (m: Option<StoreMethod>)
    ensures
        m == store_method(method@),
{
    if str_eq(method, "GET") {
        Some(StoreMethod::Get)
    } else if str_eq(method, "PUT") {
        Some(StoreMethod::Put)
    } else if str_eq(method, "POST") {
        Some(StoreMethod::Post)
    } else if str_eq(method, "DELETE") {
        Some(StoreMethod::Delete)
    } else if str_eq(method, "HEAD") {
        Some(StoreMethod::Head)
    } else {
        None
    }
}

fn find_route(method: &str, path: &str) -> (route: Option<Route>)
    ensures
        route == route_of(method@, path@),
{
    if str_eq(path, "/query") {
        if str_eq(method, "GET") || str_eq(method, "POST") {
            Some(Route::Query)
        } else {
            None
        }
    } else if str_eq(path, "/update") {
        if str_eq(method, "POST") {
            Some(Route::Update)
        } else {
            None
        }
    } else if str_eq(path, "/store") {
        match read_store_method(method) {
            Some(m) => Some(Route::Store(m)),
            None => None,
        }
    } else if str_eq(path, "/search") {
        if str_eq(method, "GET") {
            Some(Route::Search)
        } else {
            None
        }
    } else {
        None
    }
}

fn changes_store(route: Route) -> (b: bool)
    ensures
        b == is_mutating(route),
{
    match route {
        Route::Update => true,
        Route::Store(m) => match m {
            StoreMethod::Put => true,
            StoreMethod::Post => true,
            StoreMethod::Delete => true,
            _ => false,
        },
        _ => false,
    }
}

/// Finds the handler for a request, by its path and method.
pub fn handle_request(request: &Request, read_only: bool) -> (r: Result<Route, HttpError>)
    ensures
        match r {
            Ok(route) => routed(request.method@, request.path@, read_only) == Ok::<Route, Failure>(
                route,
            ),
            Err(e) => routed(request.method@, request.path@, read_only) == Err::<Route, Failure>(
                e@,
            ),
        },
{
    let method = request.method.as_str();
    let path = request.path.as_str();
    if str_eq(path, "/") {
        if str_eq(method, "GET") {
            Ok(Route::Landing)
        } else {
            Err(method_not_allowed_error(method))
        }
    } else {
        match find_route(method, path) {
            None => {
                let mut message = String::from_str(method);
                message.append(" ");
                message.append(path);
                message.append(" is not supported by this server");
                Err(HttpError { status: Status::NotFound, message })
            },
            Some(route) => {
                if read_only && changes_store(route) {
                    Err(
                        HttpError {
                            status: Status::Forbidden,
                            message: String::from_str("The server is in read-only mode"),
                        },
                    )
                } else {
                    Ok(route)
                }
            },
        }
    }
}

/// In read-only mode nothing reaches a handler that changes the store: a request for
/// such a route is forbidden, whatever else it holds.
pub proof fn lemma_read_only_forbids_changes(method: Seq<char>, path: Seq<char>)
    requires
        route_of(method, path) matches Some(route) && is_mutating(route),
    ensures
        routed(method, path, true) == Err::<Route, Failure>(forbidden()),
{
    reveal_strlit("/");
    reveal_strlit("/query");
    reveal_strlit("/update");
    reveal_strlit("/store");
    reveal_strlit("/search");
}

/// In read-only mode an update and every change to the store are forbidden.
pub proof fn lemma_read_only_forbids_update_and_store_changes()
    ensures
        routed("POST"@, "/update"@, true) == Err::<Route, Failure>(forbidden()),
        routed("PUT"@, "/store"@, true) == Err::<Route, Failure>(forbidden()),
        routed("POST"@, "/store"@, true) == Err::<Route, Failure>(forbidden()),
        routed("DELETE"@, "/store"@, true) == Err::<Route, Failure>(forbidden()),
{
    reveal_strlit("/");
    reveal_strlit("/query");
    reveal_strlit("/update");
    reveal_strlit("/store");
    reveal_strlit("GET");
    reveal_strlit("PUT");
    reveal_strlit("POST");
    reveal_strlit("DELETE");
    assert("/"@.len() == 1 && "/query"@.len() == 6 && "/update"@.len() == 7 && "/store"@.len()
        == 6);
    assert("/store"@[1] == 's' && "/query"@[1] == 'q');
    assert("GET"@[0] == 'G' && "PUT"@[0] == 'P' && "PUT"@[1] == 'U' && "POST"@[1] == 'O'
        && "DELETE"@[0] == 'D' && "POST"@[0] == 'P');
}

/// In read-only mode every route that is granted leaves the store as it is, whatever
/// the request.
pub proof fn lemma_read_only_routes_do_not_change(method: Seq<char>, path: Seq<char>)
    ensures
        routed(method, path, true) matches Ok(route) ==> !is_mutating(route),
{
}

} // verus!
