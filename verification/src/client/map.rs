//! Asking the server for maps and routes.
use vstd::prelude::*;
use vstd::string::StringExecFns;

verus! {

/// A floor as the map service reports it.
#[derive(Debug, Clone)]
pub struct Floor {
    pub floor_type: String,
    pub name: i32,
}

/// A route request between two merchants or areas; `disallow` lists the connection kinds to
/// avoid ("e" elevator, "s" stairs, "c" escalator).
#[derive(Debug, Clone)]
pub struct RouteRequest {
    pub from: String,
    pub to: String,
    pub disallow: Option<String>,
}

/// Which kinds of connection the user accepts on a route.
#[derive(Debug, Clone, Copy, PartialEq, Eq, Structural)]
pub struct ConnectivityLimits {
    pub elevator: bool,
    pub stairs: bool,
    pub escalator: bool,
}

impl Default for ConnectivityLimits {
    /// Every kind accepted.
    fn default() -> (l: Self)
        ensures
            l.elevator && l.stairs && l.escalator,
    {
        ConnectivityLimits { elevator: true, stairs: true, escalator: true }
    }
}

/// The letters of the refused kinds, in the order elevator, stairs, escalator.
pub open spec fn disallow_letters(l: ConnectivityLimits) -> Seq<char> {
    (if l.elevator { Seq::empty() } else { seq!['e'] }) + (if l.stairs {
        Seq::empty()
    } else {
        seq!['s']
    }) + (if l.escalator { Seq::empty() } else { seq!['c'] })
}

/// The query string of a route request: the endpoints, then, when some kind is refused, the
/// refused kinds.
pub open spec fn route_query(
    entity: Seq<char>,
    from: Seq<char>,
    to: Seq<char>,
    limits: Option<ConnectivityLimits>,
) -> Seq<char> {
    let head = "api/entities/"@ + entity + "/route?from="@ + from + "&to="@ + to;
    match limits {
        Some(l) => if disallow_letters(l).len() == 0 {
            head
        } else {
            head + "&disallow="@ + disallow_letters(l)
        },
        None => head,
    }
}

impl ConnectivityLimits {
    /// The letters of the refused kinds: "e" for elevators, "s" for stairs, "c" for
    /// escalators, in that order.
    pub fn disallow_code(&self) -> (s: String)
        ensures
            s@ == disallow_letters(*self),
    {
        let mut s = String::new();
        if !self.elevator {
            proof {
                reveal_strlit("e");
            }
            s.append("e");
        }
        if !self.stairs {
            proof {
                reveal_strlit("s");
            }
            s.append("s");
        }
        if !self.escalator {
            proof {
                reveal_strlit("c");
            }
            s.append("c");
        }
        proof {
            assert(s@ =~= disallow_letters(*self));
        }
        s
    }
}

/// The address of a route request under the server's base address `base`.
pub fn route_url(
    base: &str,
    entity: &str,
    from: &str,
    to: &str,
    limits: Option<ConnectivityLimits>,
) -> (url: String)
    ensures
        url@ == base@ + route_query(entity@, from@, to@, limits),
{
    let mut url = String::from_str(base);
    url.append("api/entities/");
    url.append(entity);
    url.append("/route?from=");
    url.append(from);
    url.append("&to=");
    url.append(to);
    let ghost head = "api/entities/"@ + entity@ + "/route?from="@ + from@ + "&to="@ + to@;
    assert(url@ =~= base@ + head);
    if let Some(l) = limits {
        if !l.elevator || !l.stairs || !l.escalator {
            let code = l.disallow_code();
            url.append("&disallow=");
            url.append(code.as_str());
            assert(url@ =~= base@ + (head + "&disallow="@ + disallow_letters(l)));
        }
    }
    url
}

/// The refused kinds in a route request: the code holds 'e' exactly when elevators are
/// refused, 's' exactly when stairs are and 'c' exactly when escalators are, each at most
/// once; the request names its endpoints and carries `&disallow=` with that code exactly when
/// some kind is refused.
pub proof fn law_route_disallow(entity: Seq<char>, from: Seq<char>, to: Seq<char>, l: ConnectivityLimits)
    ensures
        disallow_letters(l).contains('e') <==> !l.elevator,
        disallow_letters(l).contains('s') <==> !l.stairs,
        disallow_letters(l).contains('c') <==> !l.escalator,
        disallow_letters(l).len() == (if l.elevator { 0int } else { 1int }) + (if l.stairs {
            0int
        } else {
            1int
        }) + (if l.escalator { 0int } else { 1int }),
        route_query(entity, from, to, None) == "api/entities/"@ + entity + "/route?from="@ + from
            + "&to="@ + to,
        l.elevator && l.stairs && l.escalator ==> route_query(entity, from, to, Some(l))
            == route_query(entity, from, to, None),
        !(l.elevator && l.stairs && l.escalator) ==> route_query(entity, from, to, Some(l))
            == route_query(entity, from, to, None) + "&disallow="@ + disallow_letters(l),
{
    let e: Seq<char> = if l.elevator { Seq::empty() } else { seq!['e'] };
    let st: Seq<char> = if l.stairs { Seq::empty() } else { seq!['s'] };
    let c: Seq<char> = if l.escalator { Seq::empty() } else { seq!['c'] };
    let d = e + st + c;
    assert(d == disallow_letters(l));
    assert forall|x: char| d.contains(x) <==> (e.contains(x) || st.contains(x) || c.contains(x)) by {
        if d.contains(x) {
            let k = choose|k: int| 0 <= k < d.len() && d[k] == x;
            if k < e.len() {
                assert(e[k] == x);
            } else if k < e.len() + st.len() {
                assert(st[k - e.len()] == x);
            } else {
                assert(c[k - e.len() - st.len()] == x);
            }
        }
        if e.contains(x) {
            let k = choose|k: int| 0 <= k < e.len() && e[k] == x;
            assert(d[k] == x);
        }
        if st.contains(x) {
            let k = choose|k: int| 0 <= k < st.len() && st[k] == x;
            assert(d[e.len() + k] == x);
        }
        if c.contains(x) {
            let k = choose|k: int| 0 <= k < c.len() && c[k] == x;
            assert(d[e.len() + st.len() + k] == x);
        }
    }
    if !l.elevator {
        assert(e[0] == 'e');
    }
    if !l.stairs {
        assert(st[0] == 's');
    }
    if !l.escalator {
        assert(c[0] == 'c');
    }
}

} // verus!
