//! Names that are offered while the name of a header is typed.

use vstd::prelude::*;

use crate::text::{byte_len, chars_of, length, lowercase, to_lower};

verus! {

/// The texts of some strings.
pub open spec fn texts<'a>(names: Seq<&'a str>) -> Seq<Seq<char>> {
    Seq::new(names.len(), |i: int| names[i]@)
}

/// The header names of the IANA registry and of common RFCs.
pub open spec fn standard_headers() -> Seq<Seq<char>> {
    seq![
        "accept"@,
        "accept-charset"@,
        "accept-encoding"@,
        "accept-language"@,
        "accept-ranges"@,
        "access-control-allow-credentials"@,
        "access-control-allow-headers"@,
        "access-control-allow-methods"@,
        "access-control-allow-origin"@,
        "access-control-expose-headers"@,
        "access-control-max-age"@,
        "access-control-request-headers"@,
        "access-control-request-method"@,
        "age"@,
        "allow"@,
        "alt-svc"@,
        "authorization"@,
        "cache-control"@,
        "cache-status"@,
        "cdn-cache-control"@,
        "connection"@,
        "content-disposition"@,
        "content-encoding"@,
        "content-language"@,
        "content-length"@,
        "content-location"@,
        "content-range"@,
        "content-security-policy"@,
        "content-security-policy-report-only"@,
        "content-type"@,
        "cookie"@,
        "date"@,
        "dnt"@,
        "etag"@,
        "expect"@,
        "expires"@,
        "forwarded"@,
        "from"@,
        "host"@,
        "if-match"@,
        "if-modified-since"@,
        "if-none-match"@,
        "if-range"@,
        "if-unmodified-since"@,
        "last-modified"@,
        "link"@,
        "location"@,
        "max-forwards"@,
        "origin"@,
        "pragma"@,
        "proxy-authenticate"@,
        "proxy-authorization"@,
        "public-key-pins"@,
        "public-key-pins-report-only"@,
        "range"@,
        "referer"@,
        "referrer-policy"@,
        "refresh"@,
        "retry-after"@,
        "sec-websocket-accept"@,
        "sec-websocket-extensions"@,
        "sec-websocket-key"@,
        "sec-websocket-protocol"@,
        "sec-websocket-version"@,
        "server"@,
        "set-cookie"@,
        "strict-transport-security"@,
        "te"@,
        "trailer"@,
        "transfer-encoding"@,
        "upgrade"@,
        "upgrade-insecure-requests"@,
        "user-agent"@,
        "vary"@,
        "via"@,
        "warning"@,
        "www-authenticate"@,
        "x-content-type-options"@,
        "x-dns-prefetch-control"@,
        "x-frame-options"@,
        "x-xss-protection"@,
    ]
}

/// The header names of the IANA registry and of common RFCs.
pub fn get_standard_headers() -> (r: Vec<&'static str>)
    ensures
        texts(r@) == standard_headers(),
{
    let mut r: Vec<&'static str> = Vec::new();
    r.push("accept");
    r.push("accept-charset");
    r.push("accept-encoding");
    r.push("accept-language");
    r.push("accept-ranges");
    r.push("access-control-allow-credentials");
    r.push("access-control-allow-headers");
    r.push("access-control-allow-methods");
    r.push("access-control-allow-origin");
    r.push("access-control-expose-headers");
    r.push("access-control-max-age");
    r.push("access-control-request-headers");
    r.push("access-control-request-method");
    r.push("age");
    r.push("allow");
    r.push("alt-svc");
    r.push("authorization");
    r.push("cache-control");
    r.push("cache-status");
    r.push("cdn-cache-control");
    r.push("connection");
    r.push("content-disposition");
    r.push("content-encoding");
    r.push("content-language");
    r.push("content-length");
    r.push("content-location");
    r.push("content-range");
    r.push("content-security-policy");
    r.push("content-security-policy-report-only");
    r.push("content-type");
    r.push("cookie");
    r.push("date");
    r.push("dnt");
    r.push("etag");
    r.push("expect");
    r.push("expires");
    r.push("forwarded");
    r.push("from");
    r.push("host");
    r.push("if-match");
    r.push("if-modified-since");
    r.push("if-none-match");
    r.push("if-range");
    r.push("if-unmodified-since");
    r.push("last-modified");
    r.push("link");
    r.push("location");
    r.push("max-forwards");
    r.push("origin");
    r.push("pragma");
    r.push("proxy-authenticate");
    r.push("proxy-authorization");
    r.push("public-key-pins");
    r.push("public-key-pins-report-only");
    r.push("range");
    r.push("referer");
    r.push("referrer-policy");
    r.push("refresh");
    r.push("retry-after");
    r.push("sec-websocket-accept");
    r.push("sec-websocket-extensions");
    r.push("sec-websocket-key");
    r.push("sec-websocket-protocol");
    r.push("sec-websocket-version");
    r.push("server");
    r.push("set-cookie");
    r.push("strict-transport-security");
    r.push("te");
    r.push("trailer");
    r.push("transfer-encoding");
    r.push("upgrade");
    r.push("upgrade-insecure-requests");
    r.push("user-agent");
    r.push("vary");
    r.push("via");
    r.push("warning");
    r.push("www-authenticate");
    r.push("x-content-type-options");
    r.push("x-dns-prefetch-control");
    r.push("x-frame-options");
    r.push("x-xss-protection");
    proof {
        assert(texts(r@) =~= standard_headers());
    }
    r
}

// ── Matching ──────────────────────────────────────────────────────────────────

/// Whether `at` tells where the characters of `query` stand in `target`, in
/// their order.
pub open spec fn stands_at(query: Seq<char>, target: Seq<char>, at: Seq<int>) -> bool {
    &&& at.len() == query.len()
    &&& forall|i: int|
        0 <= i < at.len() ==> 0 <= #[trigger] at[i] < target.len() && target[at[i]] == query[i]
    &&& forall|i: int, j: int| 0 <= i < j < at.len() ==> #[trigger] at[i] < #[trigger] at[j]
}

/// Whether the characters of `query` stand in `target` in their order.
pub open spec fn is_subsequence(query: Seq<char>, target: Seq<char>) -> bool {
    exists|at: Seq<int>| stands_at(query, target, at)
}

/// Whether the characters of `query` stand in `target` in their order, with
/// others between them or not.
pub fn fuzzy_match(query: &str, target: &str) -> (r: bool)
    ensures
        r == is_subsequence(query@, target@),
{
    let q = chars_of(query);
    let t = chars_of(target);
    let mut i: usize = 0;
    let mut j: usize = 0;
    let ghost mut at: Seq<int> = Seq::empty();
    while i < q.len() && j < t.len()
        invariant
            q@ == query@,
            t@ == target@,
            i <= q@.len(),
            j <= t@.len(),
            stands_at(q@.take(i as int), t@, at),
            forall|k: int| 0 <= k < at.len() ==> #[trigger] at[k] < j,
            forall|other: Seq<int>| #[trigger]
                stands_at(q@, t@, other) && i < q@.len() ==> other[i as int] >= j,
        decreases t@.len() - j,
    {
        if q[i] == t[j] {
            proof {
                let next = at.push(j as int);
                assert(stands_at(q@.take(i + 1), t@, next));
                assert forall|other: Seq<int>| #[trigger] stands_at(q@, t@, other) && i + 1
                    < q@.len() implies other[i + 1] >= j + 1 by {
                    assert(other[i as int] < other[i + 1]);
                }
                at = next;
            }
            i = i + 1;
        } else {
            proof {
                assert forall|other: Seq<int>| #[trigger] stands_at(q@, t@, other) && i
                    < q@.len() implies other[i as int] >= j + 1 by {
                    assert(t@[other[i as int]] == q@[i as int]);
                }
            }
        }
        j = j + 1;
    }
    proof {
        if i == q@.len() {
            assert(q@.take(i as int) =~= q@);
            assert(stands_at(query@, target@, at));
        } else {
            assert forall|other: Seq<int>| !#[trigger] stands_at(query@, target@, other) by {
                if stands_at(query@, target@, other) {
                    assert(other[i as int] < t@.len());
                }
            }
        }
    }
    i == q.len()
}

/// Whether `target` begins with `query`.
pub open spec fn begins_with(target: Seq<char>, query: Seq<char>) -> bool {
    query.len() <= target.len() && target.take(query.len() as int) == query
}

fn starts_with(target: &str, query: &str) -> (r: bool)
    ensures
        r == begins_with(target@, query@),
{
    let t = chars_of(target);
    let q = chars_of(query);
    if q.len() > t.len() {
        return false;
    }
    let mut i: usize = 0;
    while i < q.len()
        invariant
            q@ == query@,
            t@ == target@,
            i <= q@.len() <= t@.len(),
            forall|j: int| 0 <= j < i ==> q@[j] == t@[j],
        decreases q@.len() - i,
    {
        if q[i] != t[i] {
            assert(target@.take(query@.len() as int)[i as int] == t@[i as int]);
            return false;
        }
        i = i + 1;
    }
    assert(target@.take(query@.len() as int) =~= query@);
    true
}

// ── Ranking ───────────────────────────────────────────────────────────────────

/// Whether `a` is offered before `b` whatever their places were: it begins
/// with the query and `b` does not, or they agree in that and it is shorter.
pub open spec fn better(a: Seq<char>, b: Seq<char>, query: Seq<char>) -> bool {
    let a_starts = begins_with(lowercase(a), query);
    let b_starts = begins_with(lowercase(b), query);
    if a_starts == b_starts {
        byte_len(a) < byte_len(b)
    } else {
        a_starts
    }
}

/// Puts a name behind all the names that it is not better than.
pub open spec fn placed(ranked: Seq<Seq<char>>, name: Seq<char>, query: Seq<char>) -> Seq<
    Seq<char>,
>
    decreases ranked.len(),
{
    if ranked.len() == 0 || !better(name, ranked.last(), query) {
        ranked.push(name)
    } else {
        placed(ranked.drop_last(), name, query).push(ranked.last())
    }
}

/// The names that match the query, the best first, and otherwise in the order
/// that they had.
pub open spec fn suggestions_for(names: Seq<Seq<char>>, query: Seq<char>) -> Seq<Seq<char>>
    decreases names.len(),
{
    if names.len() == 0 {
        Seq::empty()
    } else if is_subsequence(query, lowercase(names.last())) {
        placed(suggestions_for(names.drop_last(), query), names.last(), query)
    } else {
        suggestions_for(names.drop_last(), query)
    }
}

fn is_better(a: &str, b: &str, query: &str) -> (r: bool)
    ensures
        r == better(a@, b@, query@),
{
    let a_starts = starts_with(to_lower(a).as_str(), query);
    let b_starts = starts_with(to_lower(b).as_str(), query);
    if a_starts == b_starts {
        length(a) < length(b)
    } else {
        a_starts
    }
}

proof fn lemma_placed(ranked: Seq<Seq<char>>, name: Seq<char>, query: Seq<char>, k: int)
    requires
        0 <= k <= ranked.len(),
        forall|i: int| k <= i < ranked.len() ==> better(name, #[trigger] ranked[i], query),
        k == 0 || !better(name, ranked[k - 1], query),
    ensures
        placed(ranked, name, query) == ranked.insert(k, name),
    decreases ranked.len(),
{
    if ranked.len() == 0 || k == ranked.len() {
        assert(ranked.insert(k, name) =~= ranked.push(name));
    } else {
        assert(better(name, ranked[ranked.len() - 1], query));
        let rest = ranked.drop_last();
        assert forall|i: int| k <= i < rest.len() implies better(
            name,
            #[trigger] rest[i],
            query,
        ) by {
            assert(rest[i] == ranked[i]);
        }
        lemma_placed(rest, name, query, k);
        assert(rest.insert(k, name).push(ranked.last()) =~= ranked.insert(k, name));
    }
}

/// The standard header names that match what was typed, the best first.
pub fn suggest(typed: &str) -> (r: Vec<&'static str>)
    ensures
        texts(r@) == suggestions_for(standard_headers(), lowercase(typed@)),
{
    let query = to_lower(typed);
    let names = get_standard_headers();
    let ghost all = standard_headers();
    let mut r: Vec<&'static str> = Vec::new();
    let mut i: usize = 0;
    proof {
        assert(texts(r@) =~= suggestions_for(all.take(0), query@));
    }
    while i < names.len()
        invariant
            i <= names@.len(),
            all == texts(names@),
            texts(r@) == suggestions_for(all.take(i as int), query@),
        decreases names@.len() - i,
    {
        let name = names[i];
        let ghost before = texts(r@);
        proof {
            assert(all.take(i + 1).drop_last() =~= all.take(i as int));
            assert(all.take(i + 1).last() == name@);
        }
        if fuzzy_match(query.as_str(), to_lower(name).as_str()) {
            let mut k: usize = r.len();
            while k > 0 && is_better(name, r[k - 1], query.as_str())
                invariant
                    k <= r@.len(),
                    before == texts(r@),
                    forall|m: int|
                        k <= m < before.len() ==> better(name@, #[trigger] before[m], query@),
                decreases k,
            {
                k = k - 1;
            }
            proof {
                lemma_placed(before, name@, query@, k as int);
            }
            r.insert(k, name);
            proof {
                assert(texts(r@) =~= before.insert(k as int, name@));
            }
        }
        i = i + 1;
    }
    proof {
        assert(all.take(i as int) =~= all);
    }
    r
}

// ── Laws ──────────────────────────────────────────────────────────────────────

/// The empty query matches everything.
pub proof fn lemma_empty_query_matches(target: Seq<char>)
    ensures
        is_subsequence(Seq::empty(), target),
{
    assert(stands_at(Seq::empty(), target, Seq::empty()));
}

/// Everything matches itself.
pub proof fn lemma_matches_itself(s: Seq<char>)
    ensures
        is_subsequence(s, s),
{
    assert(stands_at(s, s, Seq::new(s.len(), |i: int| i)));
}

/// Whether some names are ranked: none is better than one before it.
pub open spec fn is_ranked(names: Seq<Seq<char>>, query: Seq<char>) -> bool {
    forall|i: int, j: int|
        0 <= i < j < names.len() ==> !better(#[trigger] names[j], #[trigger] names[i], query)
}

proof fn lemma_placed_len(ranked: Seq<Seq<char>>, name: Seq<char>, query: Seq<char>)
    ensures
        placed(ranked, name, query).len() == ranked.len() + 1,
        placed(ranked, name, query).to_multiset() == ranked.to_multiset().insert(name),
    decreases ranked.len(),
{
    broadcast use vstd::seq_lib::group_to_multiset_ensures;

    if ranked.len() == 0 || !better(name, ranked.last(), query) {
    } else {
        lemma_placed_len(ranked.drop_last(), name, query);
        assert(ranked.drop_last().push(ranked.last()) =~= ranked);
        assert(ranked.drop_last().to_multiset().insert(name).insert(ranked.last())
            =~= ranked.to_multiset().insert(name));
    }
}

proof fn lemma_placed_is_ranked(ranked: Seq<Seq<char>>, name: Seq<char>, query: Seq<char>)
    requires
        is_ranked(ranked, query),
    ensures
        is_ranked(placed(ranked, name, query), query),
        forall|b: Seq<char>|
            better(name, b, query) && (forall|i: int|
                0 <= i < ranked.len() ==> !better(b, #[trigger] ranked[i], query)) ==> forall|i: int|
                0 <= i < ranked.len() + 1 ==> !better(
                    b,
                    #[trigger] placed(ranked, name, query)[i],
                    query,
                ),
    decreases ranked.len(),
{
    lemma_placed_len(ranked, name, query);
    if ranked.len() == 0 || !better(name, ranked.last(), query) {
        let all = placed(ranked, name, query);
        assert forall|i: int, j: int| 0 <= i < j < all.len() implies !better(
            #[trigger] all[j],
            #[trigger] all[i],
            query,
        ) by {
            if j == ranked.len() && i < ranked.len() - 1 {
                assert(!better(ranked[ranked.len() - 1], ranked[i], query));
            }
        }
    } else {
        let rest = ranked.drop_last();
        let last = ranked.last();
        assert forall|i: int, j: int| 0 <= i < j < rest.len() implies !better(
            #[trigger] rest[j],
            #[trigger] rest[i],
            query,
        ) by {
            assert(rest[i] == ranked[i] && rest[j] == ranked[j]);
        }
        lemma_placed_is_ranked(rest, name, query);
        lemma_placed_len(rest, name, query);
        let front = placed(rest, name, query);
        assert forall|i: int| 0 <= i < rest.len() implies !better(
            last,
            #[trigger] rest[i],
            query,
        ) by {
            assert(rest[i] == ranked[i]);
            assert(!better(ranked[ranked.len() - 1], ranked[i], query));
        }
        let all = placed(ranked, name, query);
        assert forall|i: int, j: int| 0 <= i < j < all.len() implies !better(
            #[trigger] all[j],
            #[trigger] all[i],
            query,
        ) by {
            if j < front.len() {
                assert(all[j] == front[j] && all[i] == front[i]);
            } else {
                assert(all[i] == front[i]);
            }
        }
        assert forall|b: Seq<char>|
            better(name, b, query) && (forall|i: int|
                0 <= i < ranked.len() ==> !better(b, #[trigger] ranked[i], query)) implies forall|
            i: int,
        |
            0 <= i < ranked.len() + 1 ==> !better(
                b,
                #[trigger] placed(ranked, name, query)[i],
                query,
            ) by {
            assert forall|i: int| 0 <= i < rest.len() implies !better(
                b,
                #[trigger] rest[i],
                query,
            ) by {
                assert(rest[i] == ranked[i]);
            }
            assert(!better(b, ranked[ranked.len() - 1], query));
            assert forall|i: int| 0 <= i < ranked.len() + 1 implies !better(
                b,
                #[trigger] placed(ranked, name, query)[i],
                query,
            ) by {
                if i < front.len() {
                    assert(all[i] == front[i]);
                }
            }
        }
    }
}

/// Suggestions are ranked.
pub proof fn lemma_suggestions_are_ranked(names: Seq<Seq<char>>, query: Seq<char>)
    ensures
        is_ranked(suggestions_for(names, query), query),
    decreases names.len(),
{
    if names.len() > 0 {
        lemma_suggestions_are_ranked(names.drop_last(), query);
        lemma_placed_is_ranked(suggestions_for(names.drop_last(), query), names.last(), query);
    }
}

/// Exactly the matching names are suggested, each as often as it is listed.
pub proof fn lemma_suggestions_are_the_matches(names: Seq<Seq<char>>, query: Seq<char>)
    ensures
        suggestions_for(names, query).to_multiset() == names.filter(
            |name: Seq<char>| is_subsequence(query, lowercase(name)),
        ).to_multiset(),
    decreases names.len(),
{
    broadcast use vstd::seq_lib::group_to_multiset_ensures;

    let matches = |name: Seq<char>| is_subsequence(query, lowercase(name));
    reveal(Seq::filter);
    if names.len() > 0 {
        lemma_suggestions_are_the_matches(names.drop_last(), query);
        lemma_placed_len(suggestions_for(names.drop_last(), query), names.last(), query);
        if matches(names.last()) {
            assert(names.filter(matches) =~= names.drop_last().filter(matches).push(names.last()));
        }
    } else {
        assert(names.filter(matches) =~= suggestions_for(names, query));
    }
}

/// A name is suggested exactly where it is one of the names and the query's
/// characters stand in it in their order, in either case.
pub proof fn lemma_suggested_names_match(
    names: Seq<Seq<char>>,
    query: Seq<char>,
    name: Seq<char>,
)
    ensures
        suggestions_for(names, query).contains(name) <==> names.contains(name) && is_subsequence(
            query,
            lowercase(name),
        ),
    decreases names.len(),
{
    if names.len() > 0 {
        let before = suggestions_for(names.drop_last(), query);
        lemma_suggested_names_match(names.drop_last(), query, name);
        assert(names.contains(name) <==> names.drop_last().contains(name) || names.last() == name)
            by {
            if names.contains(name) {
                let i = choose|i: int| 0 <= i < names.len() && names[i] == name;
                if i < names.len() - 1 {
                    assert(names.drop_last()[i] == name);
                }
            }
            if names.drop_last().contains(name) {
                let i = choose|i: int|
                    0 <= i < names.drop_last().len() && names.drop_last()[i] == name;
                assert(names[i] == name);
            }
            assert(names[names.len() - 1] == names.last());
        }
        if is_subsequence(query, lowercase(names.last())) {
            lemma_placed_len(before, names.last(), query);
            before.to_multiset_ensures();
            placed(before, names.last(), query).to_multiset_ensures();
            let after = placed(before, names.last(), query);
            broadcast use vstd::multiset::group_multiset_axioms;

            assert(after.to_multiset().count(name) == before.to_multiset().insert(
                names.last(),
            ).count(name));
            assert(after.contains(name) <==> after.to_multiset().count(name) > 0);
            assert(before.contains(name) <==> before.to_multiset().count(name) > 0);
        }
    }
}

/// A name that begins with the query comes before one that does not; among two
/// that do, or two that do not, the shorter one comes first.
pub proof fn lemma_beginnings_come_first(a: Seq<char>, b: Seq<char>, query: Seq<char>)
    ensures
        query.is_prefix_of(lowercase(a)) && !query.is_prefix_of(lowercase(b)) ==> better(
            a,
            b,
            query,
        ) && !better(b, a, query),
        query.is_prefix_of(lowercase(a)) == query.is_prefix_of(lowercase(b)) ==> (better(
            a,
            b,
            query,
        ) <==> byte_len(a) < byte_len(b)),
{
    assert(lowercase(a).take(query.len() as int) =~= lowercase(a).subrange(0, query.len() as int));
    assert(lowercase(b).take(query.len() as int) =~= lowercase(b).subrange(0, query.len() as int));
}

/// Of names that match equally well, the one that is listed first is suggested
/// first: a name that is listed last and is better than none comes last.
pub proof fn lemma_listed_first_comes_first(names: Seq<Seq<char>>, query: Seq<char>)
    requires
        names.len() > 0,
        is_subsequence(query, lowercase(names.last())),
        forall|i: int|
            0 <= i < suggestions_for(names.drop_last(), query).len() ==> !better(
                names.last(),
                #[trigger] suggestions_for(names.drop_last(), query)[i],
                query,
            ),
    ensures
        suggestions_for(names, query) == suggestions_for(names.drop_last(), query).push(
            names.last(),
        ),
{
    let before = suggestions_for(names.drop_last(), query);
    if before.len() > 0 {
        assert(before.last() == before[before.len() - 1]);
    }
}

/// With nothing typed every name is suggested.
pub proof fn lemma_all_names_are_suggested_at_first(names: Seq<Seq<char>>)
    ensures
        suggestions_for(names, Seq::empty()).len() == names.len(),
    decreases names.len(),
{
    if names.len() > 0 {
        lemma_all_names_are_suggested_at_first(names.drop_last());
        lemma_empty_query_matches(lowercase(names.last()));
        lemma_placed_len(
            suggestions_for(names.drop_last(), Seq::empty()),
            names.last(),
            Seq::empty(),
        );
    }
}

/// A query matches no name shorter than itself, goes on matching when the name
/// grows at either end, and matches only by characters that the name has.
pub proof fn lemma_matches_stay(
    query: Seq<char>,
    target: Seq<char>,
    before: Seq<char>,
    behind: Seq<char>,
)
    requires
        is_subsequence(query, target),
    ensures
        query.len() <= target.len(),
        forall|i: int| 0 <= i < query.len() ==> target.contains(#[trigger] query[i]),
        is_subsequence(query, before + target + behind),
{
    let at = choose|at: Seq<int>| stands_at(query, target, at);
    assert forall|i: int| 0 <= i < query.len() implies target.contains(#[trigger] query[i]) by {
        assert(target[at[i]] == query[i]);
    }
    lemma_places_grow(query, target, at, query.len() as int);
    let all = before + target + behind;
    let moved = Seq::new(at.len(), |i: int| at[i] + before.len());
    assert(stands_at(query, all, moved)) by {
        assert forall|i: int| 0 <= i < moved.len() implies 0 <= #[trigger] moved[i] < all.len()
            && all[moved[i]] == query[i] by {
            assert(0 <= at[i] < target.len() && target[at[i]] == query[i]);
        }
        assert forall|i: int, j: int| 0 <= i < j < moved.len() implies #[trigger] moved[i]
            < #[trigger] moved[j] by {
            assert(at[i] < at[j]);
        }
    }
}

proof fn lemma_places_grow(query: Seq<char>, target: Seq<char>, at: Seq<int>, k: int)
    requires
        stands_at(query, target, at),
        0 <= k <= at.len(),
    ensures
        k <= target.len(),
        k > 0 ==> at[k - 1] >= k - 1,
    decreases k,
{
    if k > 0 {
        lemma_places_grow(query, target, at, k - 1);
        assert(0 <= at[k - 1] < target.len());
        if k > 1 {
            assert(at[k - 2] < at[k - 1]);
        }
    }
}

} // verus!
