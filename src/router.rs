use vstd::prelude::*;
use vstd::string::StringExecFns;
use crate::input::RouterInput;
use crate::value::Value;

verus! {

/// The text that precedes the route key in a not-found message.
pub open spec fn not_found_prefix() -> Seq<char> {
    seq!['R', 'o', 'u', 't', 'e', ' ', 'n', 'o', 't', ' ', 'f', 'o', 'u', 'n', 'd', ':', ' ']
}

/// `r` is the response to a route key `path` that no route answers: an
/// object holding exactly an error message that names the key, and a
/// success flag that is false.
pub open spec fn is_not_found_response(r: Value, path: Seq<char>) -> bool {
    match r {
        Value::Object(fields) => {
            &&& fields@.len() == 2
            &&& fields@[0].0@ == seq!['e', 'r', 'r', 'o', 'r']
            &&& match fields@[0].1 {
                Value::String(msg) => msg@ == not_found_prefix() + path,
                _ => false,
            }
            &&& fields@[1].0@ == seq!['s', 'u', 'c', 'c', 'e', 's', 's']
            &&& fields@[1].1 == Value::Bool(false)
        },
        _ => false,
    }
}

/// The position of the first route whose key is `path`.
pub open spec fn route_position<H>(routes: Seq<(String, H)>, path: Seq<char>) -> Option<int>
    decreases routes.len(),
{
    if routes.len() == 0 {
        None
    } else if routes.last().0@ == path && route_position(routes.drop_last(), path).is_none() {
        Some(routes.len() - 1)
    } else {
        route_position(routes.drop_last(), path)
    }
}

/// No route key occurs twice.
pub open spec fn route_keys_unique<H>(routes: Seq<(String, H)>) -> bool {
    forall|i: int, j: int|
        0 <= i < j < routes.len() ==> #[trigger] routes[i].0@ != #[trigger] routes[j].0@
}

/// A fixed table of handlers, each under its own route key.
pub struct Router<H> {
    routes: Vec<(String, H)>,
}

impl<H> View for Router<H> {
    type V = Seq<(String, H)>;

    closed spec fn view(&self) -> Seq<(String, H)> {
        self.routes@
    }
}

impl<H: Fn(RouterInput) -> Value> Router<H> {
    /// Every handler of the table accepts every input.
    pub open spec fn handlers_total(&self) -> bool {
        forall|i: int, input: RouterInput|
            0 <= i < self@.len() ==> #[trigger] self@[i].1.requires((input,))
    }

    /// `r` is what dispatching `path` with `input` may return: the output of
    /// the handler under `path`, or the not-found response.
    pub open spec fn dispatches_to(&self, path: Seq<char>, input: RouterInput, r: Value) -> bool {
        match route_position(self@, path) {
            Some(i) => self@[i].1.ensures((input,), r),
            None => is_not_found_response(r, path),
        }
    }

    pub fn new(routes: Vec<(String, H)>) -> (r: Self)
        requires
            route_keys_unique(routes@),
        ensures
            r@ == routes@,
    {
        Router { routes }
    }

    /// The position of the route under `path`, if any.
    pub fn find(&self, path: &str) -> (r: Option<usize>)
        ensures
            match r {
                Some(i) => route_position(self@, path@) == Some(i as int),
                None => route_position(self@, path@).is_none(),
            },
    {
        let wanted: String = path.to_owned();
        let mut i: usize = 0;
        while i < self.routes.len()
            invariant
                i <= self.routes.len(),
                wanted@ == path@,
                route_position(self@.take(i as int), path@).is_none(),
            decreases self.routes.len() - i,
        {
            assert(self@.take(i + 1).drop_last() =~= self@.take(i as int));
            if self.routes[i].0 == wanted {
                proof {
                    lemma_position_extends(self@, path@, i as int);
                }
                return Some(i);
            }
            i += 1;
        }
        assert(self@.take(i as int) =~= self@);
        None
    }

    /// Runs the handler registered under `path` on `input` and returns its
    /// output unchanged; where no route has that key, returns the not-found
    /// response.
    pub fn dispatch(&self, path: &str, input: RouterInput) -> (r: Value)
        requires
            self.handlers_total(),
        ensures
            self.dispatches_to(path@, input, r),
    {
        proof {
            lemma_position_valid(self@, path@);
        }
        match self.find(path) {
            Some(i) => {
                let handler = &self.routes[i].1;
                handler(input)
            },
            None => not_found(path),
        }
    }
}

/// A position that `route_position` gives holds a route with that key.
proof fn lemma_position_valid<H>(routes: Seq<(String, H)>, path: Seq<char>)
    ensures
        match route_position(routes, path) {
            Some(i) => 0 <= i < routes.len() && routes[i].0@ == path,
            None => true,
        },
    decreases routes.len(),
{
    if routes.len() > 0 {
        lemma_position_valid(routes.drop_last(), path);
    }
}

/// Where some route has key `path`, `route_position` finds one.
proof fn lemma_position_found<H>(routes: Seq<(String, H)>, path: Seq<char>, i: int)
    requires
        0 <= i < routes.len(),
        routes[i].0@ == path,
    ensures
        route_position(routes, path).is_some(),
    decreases routes.len(),
{
    if i < routes.len() - 1 {
        lemma_position_found(routes.drop_last(), path, i);
    }
}

/// Dispatching a registered route key returns exactly what that key's
/// handler returns for the input.
pub proof fn lemma_registered_route_dispatches<H: Fn(RouterInput) -> Value>(
    router: Router<H>,
    i: int,
    input: RouterInput,
    r: Value,
)
    requires
        route_keys_unique(router@),
        0 <= i < router@.len(),
        router.dispatches_to(router@[i].0@, input, r),
    ensures
        router@[i].1.ensures((input,), r),
{
    let path = router@[i].0@;
    lemma_position_found(router@, path, i);
    lemma_position_valid(router@, path);
}

/// Dispatching a key that no route has returns the not-found response,
/// which names the key and reports failure.
pub proof fn lemma_unregistered_route_not_found<H: Fn(RouterInput) -> Value>(
    router: Router<H>,
    path: Seq<char>,
    input: RouterInput,
    r: Value,
)
    requires
        forall|i: int| 0 <= i < router@.len() ==> #[trigger] router@[i].0@ != path,
        router.dispatches_to(path, input, r),
    ensures
        is_not_found_response(r, path),
{
    lemma_position_valid(router@, path);
}

/// Where every handler is pure (equal inputs give equal outputs), two
/// dispatches of one key on equal inputs give equal outputs; where the key
/// has no route, both give the not-found response for that key.
pub proof fn lemma_dispatch_repeatable<H: Fn(RouterInput) -> Value>(
    router: Router<H>,
    path: Seq<char>,
    input1: RouterInput,
    input2: RouterInput,
    r1: Value,
    r2: Value,
)
    requires
        forall|i: int, a: RouterInput, b: RouterInput, x: Value, y: Value|
            0 <= i < router@.len() && a@ == b@ && #[trigger] router@[i].1.ensures((a,), x)
                && #[trigger] router@[i].1.ensures((b,), y) ==> x == y,
        input1@ == input2@,
        router.dispatches_to(path, input1, r1),
        router.dispatches_to(path, input2, r2),
    ensures
        route_position(router@, path).is_some() ==> r1 == r2,
        route_position(router@, path).is_none() ==> is_not_found_response(r1, path)
            && is_not_found_response(r2, path),
{
    lemma_position_valid(router@, path);
}

/// Once no route among the first `i` has key `path` and route `i` has it,
/// route `i` is the first with that key in the whole table.
proof fn lemma_position_extends<H>(routes: Seq<(String, H)>, path: Seq<char>, i: int)
    requires
        0 <= i < routes.len(),
        routes[i].0@ == path,
        route_position(routes.take(i), path).is_none(),
    ensures
        route_position(routes, path) == Some(i),
    decreases routes.len(),
{
    assert(routes.take(i + 1).drop_last() =~= routes.take(i));
    if routes.len() > i + 1 {
        assert(routes.drop_last().take(i) =~= routes.take(i));
        lemma_position_extends(routes.drop_last(), path, i);
    } else {
        assert(routes.take(i + 1) =~= routes);
    }
}

/// The response to a route key that no route answers.
pub fn not_found(path: &str) -> (r: Value)
    ensures
        is_not_found_response(r, path@),
{
    let msg: String = "Route not found: ".to_owned().concat(path);
    let error_key: String = "error".to_owned();
    let success_key: String = "success".to_owned();
    proof {
        reveal_strlit("Route not found: ");
        reveal_strlit("error");
        reveal_strlit("success");
    }
    assert(msg@ =~= not_found_prefix() + path@);
    assert(error_key@ =~= seq!['e', 'r', 'r', 'o', 'r']);
    assert(success_key@ =~= seq!['s', 'u', 'c', 'c', 'e', 's', 's']);
    let mut fields: Vec<(String, Value)> = Vec::new();
    fields.push((error_key, Value::String(msg)));
    fields.push((success_key, Value::Bool(false)));
    Value::Object(fields)
}

} // verus!
