//! Where requests are kept, and in which form.

use vstd::prelude::*;

use crate::app::request_models;
use crate::headers::{lemma_set_is_read_back, names_differ, value_of, with_field, Headers};
use crate::http_client::{
    copy_text, default_jq_filter, default_prefix_regex, default_suffix_regex,
    is_default_jq_filter, is_default_prefix_regex, is_default_suffix_regex, is_token,
    prefix_pattern, suffix_pattern, text_of, HeaderName, HeaderValue, HttpMethod, HttpRequest,
    JqFilter, RegexPattern, RequestModel, UrlString,
};
use crate::suggestions::texts;

verus! {

// ── Directories ───────────────────────────────────────────────────────────────

/// What the path to a file of the application starts from.
#[derive(Debug, Clone, Copy, PartialEq, Eq, Structural)]
pub enum BaseDir {
    /// A directory that was given.
    Given,
    /// The directory that `XDG_CONFIG_HOME` names.
    XdgConfigHome,
    /// The directory that `HOME` names.
    Home,
    /// The present directory.
    Current,
}

/// A path: what it starts from, and what follows.
#[derive(Debug)]
pub struct PathPlan {
    pub base: BaseDir,
    pub parts: Vec<&'static str>,
}

/// What a path says.
#[verifier::ext_equal]
pub ghost struct PathModel {
    pub base: BaseDir,
    pub parts: Seq<Seq<char>>,
}

impl View for PathPlan {
    type V = PathModel;

    open spec fn view(&self) -> PathModel {
        PathModel { base: self.base, parts: texts(self.parts@) }
    }
}

/// What the directory of the application starts from: the one that was given,
/// or else the one of the first variable that is set.
pub open spec fn chosen_base(given: bool, xdg: bool, home: bool) -> BaseDir {
    if given {
        BaseDir::Given
    } else if xdg {
        BaseDir::XdgConfigHome
    } else if home {
        BaseDir::Home
    } else {
        BaseDir::Current
    }
}

/// The directory of the application.
pub open spec fn env_path(given: bool, xdg: bool, home: bool) -> PathModel {
    let base = chosen_base(given, xdg, home);
    PathModel {
        base,
        parts: if base == BaseDir::Home {
            seq![".config"@, "imhottep"@]
        } else {
            seq!["imhottep"@]
        },
    }
}

/// The file that the requests are kept in.
pub open spec fn library_path(given: bool, xdg: bool, home: bool) -> PathModel {
    let dir = env_path(given, xdg, home);
    PathModel { parts: dir.parts.push("request-library.json"@), ..dir }
}

/// The directory of the application, given which of its possible beginnings
/// there are.
pub fn env_dir_with_base(given: bool, xdg: bool, home: bool) -> (r: PathPlan)
    ensures
        r@ == env_path(given, xdg, home),
{
    let base = if given {
        BaseDir::Given
    } else if xdg {
        BaseDir::XdgConfigHome
    } else if home {
        BaseDir::Home
    } else {
        BaseDir::Current
    };
    let mut parts: Vec<&'static str> = Vec::new();
    if base == BaseDir::Home {
        parts.push(".config");
    }
    parts.push("imhottep");
    proof {
        assert(texts(parts@) =~= env_path(given, xdg, home).parts);
    }
    PathPlan { base, parts }
}

/// The file that the requests are kept in, given which of its possible
/// beginnings there are.
pub fn library_path_with_base(given: bool, xdg: bool, home: bool) -> (r: PathPlan)
    ensures
        r@ == library_path(given, xdg, home),
{
    let dir = env_dir_with_base(given, xdg, home);
    let mut parts = dir.parts;
    let ghost before = texts(parts@);
    parts.push("request-library.json");
    proof {
        assert(texts(parts@) =~= before.push("request-library.json"@));
    }
    PathPlan { base: dir.base, parts }
}

// ── Requests ──────────────────────────────────────────────────────────────────

/// A request as it is kept: what has its usual value is left out.
#[derive(Debug)]
pub struct SavedRequest {
    pub method: String,
    pub url: String,
    pub headers: Vec<(String, String)>,
    pub body: Option<String>,
    pub jq_filter: Option<String>,
    pub stream_prefix_regex: Option<String>,
    pub stream_suffix_regex: Option<String>,
}

/// What a kept request says.
#[verifier::ext_equal]
pub ghost struct SavedModel {
    pub method: Seq<char>,
    pub url: Seq<char>,
    pub headers: Seq<(Seq<char>, Seq<char>)>,
    pub body: Option<Seq<char>>,
    pub jq_filter: Option<Seq<char>>,
    pub stream_prefix_regex: Option<Seq<char>>,
    pub stream_suffix_regex: Option<Seq<char>>,
}

/// The texts of some pairs.
pub open spec fn pair_texts(pairs: Seq<(String, String)>) -> Seq<(Seq<char>, Seq<char>)> {
    Seq::new(pairs.len(), |i: int| (pairs[i].0@, pairs[i].1@))
}

impl View for SavedRequest {
    type V = SavedModel;

    open spec fn view(&self) -> SavedModel {
        SavedModel {
            method: self.method@,
            url: self.url@,
            headers: pair_texts(self.headers@),
            body: text_of(self.body),
            jq_filter: text_of(self.jq_filter),
            stream_prefix_regex: text_of(self.stream_prefix_regex),
            stream_suffix_regex: text_of(self.stream_suffix_regex),
        }
    }
}

/// A text unless it is the usual one.
pub open spec fn unless(text: Seq<char>, usual: Seq<char>) -> Option<Seq<char>> {
    if text == usual {
        None
    } else {
        Some(text)
    }
}

/// A text, or the usual one where there is none.
pub open spec fn or_usual(text: Option<Seq<char>>, usual: Seq<char>) -> Seq<char> {
    match text {
        Some(t) => t,
        None => usual,
    }
}

/// How a request is kept.
pub open spec fn saved(request: RequestModel) -> SavedModel {
    SavedModel {
        method: request.method,
        url: request.url,
        headers: request.headers,
        body: request.body,
        jq_filter: unless(request.jq_filter, "."@),
        stream_prefix_regex: unless(request.stream_prefix_regex, prefix_pattern()),
        stream_suffix_regex: unless(request.stream_suffix_regex, suffix_pattern()),
    }
}

/// The headers that some pairs make up: where a name comes more than once, its
/// last value counts.
pub open spec fn headers_of(pairs: Seq<(Seq<char>, Seq<char>)>) -> Seq<(Seq<char>, Seq<char>)>
    decreases pairs.len(),
{
    if pairs.len() == 0 {
        Seq::empty()
    } else {
        with_field(headers_of(pairs.drop_last()), pairs.last().0, pairs.last().1)
    }
}

/// The request that was kept so, unless its method is none.
pub open spec fn restored(kept: SavedModel) -> Option<RequestModel> {
    if is_token(kept.method) {
        Some(
            RequestModel {
                method: kept.method,
                url: kept.url,
                headers: headers_of(kept.headers),
                body: kept.body,
                jq_filter: or_usual(kept.jq_filter, "."@),
                stream_prefix_regex: or_usual(kept.stream_prefix_regex, prefix_pattern()),
                stream_suffix_regex: or_usual(kept.stream_suffix_regex, suffix_pattern()),
            },
        )
    } else {
        None
    }
}

/// What an optional request says.
pub open spec fn request_model(r: Option<HttpRequest>) -> Option<RequestModel> {
    match r {
        Some(request) => Some(request@),
        None => None,
    }
}

/// The names and values of some headers.
fn pairs_of(headers: &Headers) -> (r: Vec<(String, String)>)
    ensures
        pair_texts(r@) == headers@,
        names_differ(headers@),
{
    let n: usize = headers.len();
    let mut r: Vec<(String, String)> = Vec::new();
    let mut i: usize = 0;
    proof {
        assert(pair_texts(r@) =~= headers@.take(0));
    }
    while i < n
        invariant
            i <= n,
            n == headers@.len(),
            pair_texts(r@) == headers@.take(i as int),
        decreases n - i,
    {
        let ghost done = pair_texts(r@);
        let pair = (headers.name_at(i).to_string(), headers.value_at(i).to_string());
        let ghost said = (pair.0@, pair.1@);
        r.push(pair);
        proof {
            assert(pair_texts(r@) =~= done.push(said));
            assert(headers@.take(i + 1) =~= headers@.take(i as int).push(headers@[i as int]));
        }
        i = i + 1;
    }
    proof {
        assert(headers@.take(i as int) =~= headers@);
    }
    r
}

/// The headers that some pairs make up.
fn collect_pairs(pairs: &Vec<(String, String)>) -> (r: Headers)
    ensures
        r@ == headers_of(pair_texts(pairs@)),
{
    let ghost all = pair_texts(pairs@);
    let mut r = Headers::new();
    let mut i: usize = 0;
    while i < pairs.len()
        invariant
            i <= pairs@.len(),
            all == pair_texts(pairs@),
            r@ == headers_of(all.take(i as int)),
        decreases pairs@.len() - i,
    {
        proof {
            assert(all.take(i + 1).drop_last() =~= all.take(i as int));
        }
        r.insert(HeaderName::new(pairs[i].0.clone()), HeaderValue::new(pairs[i].1.clone()));
        i = i + 1;
    }
    proof {
        assert(all.take(i as int) =~= all);
    }
    r
}

/// The form in which a request is kept, and from which it is restored as it
/// was.
pub fn save_request(request: &HttpRequest) -> (r: SavedRequest)
    ensures
        r@ == saved(request@),
        restored(r@) == Some(request@),
{
    let method = request.method.to_string();
    let headers = pairs_of(&request.headers);
    proof {
        lemma_restored_as_saved(request@);
    }
    SavedRequest {
        method,
        url: request.url.to_string(),
        headers,
        body: copy_text(&request.body),
        jq_filter: if is_default_jq_filter(&request.jq_filter) {
            None
        } else {
            Some(request.jq_filter.to_string())
        },
        stream_prefix_regex: if is_default_prefix_regex(&request.stream_prefix_regex) {
            None
        } else {
            Some(request.stream_prefix_regex.to_string())
        },
        stream_suffix_regex: if is_default_suffix_regex(&request.stream_suffix_regex) {
            None
        } else {
            Some(request.stream_suffix_regex.to_string())
        },
    }
}

/// The request that was kept in this form, unless its method is none.
pub fn restore_request(kept: &SavedRequest) -> (r: Option<HttpRequest>)
    ensures
        request_model(r) == restored(kept@),
{
    let method = match HttpMethod::parse(kept.method.as_str()) {
        Some(method) => method,
        None => {
            return None;
        },
    };
    let request = HttpRequest {
        method,
        url: UrlString::new(kept.url.clone()),
        headers: collect_pairs(&kept.headers),
        body: copy_text(&kept.body),
        jq_filter: match &kept.jq_filter {
            Some(text) => JqFilter::new(text.clone()),
            None => default_jq_filter(),
        },
        stream_prefix_regex: match &kept.stream_prefix_regex {
            Some(text) => RegexPattern::new(text.clone()),
            None => default_prefix_regex(),
        },
        stream_suffix_regex: match &kept.stream_suffix_regex {
            Some(text) => RegexPattern::new(text.clone()),
            None => default_suffix_regex(),
        },
    };
    Some(request)
}

/// What some kept requests say.
pub open spec fn saved_models(kept: Seq<SavedRequest>) -> Seq<SavedModel> {
    Seq::new(kept.len(), |i: int| kept[i]@)
}

/// How some requests are kept.
pub open spec fn all_saved(requests: Seq<RequestModel>) -> Seq<SavedModel> {
    Seq::new(requests.len(), |i: int| saved(requests[i]))
}

/// The requests that were kept so, unless one of them cannot be restored.
pub open spec fn all_restored(kept: Seq<SavedModel>) -> Option<Seq<RequestModel>> {
    if forall|i: int| 0 <= i < kept.len() ==> restored(#[trigger] kept[i]) is Some {
        Some(Seq::new(kept.len(), |i: int| restored(kept[i])->0))
    } else {
        None
    }
}

/// What some optional requests say.
pub open spec fn list_model(r: Option<Vec<HttpRequest>>) -> Option<Seq<RequestModel>> {
    match r {
        Some(requests) => Some(request_models(requests@)),
        None => None,
    }
}

/// The form in which some requests are kept, and from which they are restored
/// as they were.
pub fn save_all(requests: &Vec<HttpRequest>) -> (r: Vec<SavedRequest>)
    ensures
        saved_models(r@) == all_saved(request_models(requests@)),
        all_restored(saved_models(r@)) == Some(request_models(requests@)),
{
    let ghost all = request_models(requests@);
    let mut r: Vec<SavedRequest> = Vec::new();
    let mut i: usize = 0;
    while i < requests.len()
        invariant
            i <= requests@.len(),
            all == request_models(requests@),
            r@.len() == i,
            forall|j: int| 0 <= j < i ==> (#[trigger] r@[j])@ == saved(all[j]),
            forall|j: int| 0 <= j < i ==> restored((#[trigger] r@[j])@) == Some(all[j]),
        decreases requests@.len() - i,
    {
        r.push(save_request(&requests[i]));
        i = i + 1;
    }
    proof {
        let kept = saved_models(r@);
        assert(kept =~= all_saved(all));
        assert forall|j: int| 0 <= j < kept.len() implies restored(#[trigger] kept[j]) == Some(
            all[j],
        ) by {
            assert(kept[j] == r@[j]@);
        }
        assert(all_restored(kept)->0 =~= all);
    }
    r
}

/// The requests that were kept in this form, unless one of them cannot be
/// restored.
pub fn restore_all(kept: &Vec<SavedRequest>) -> (r: Option<Vec<HttpRequest>>)
    ensures
        list_model(r) == all_restored(saved_models(kept@)),
{
    let ghost all = saved_models(kept@);
    let mut r: Vec<HttpRequest> = Vec::new();
    let mut i: usize = 0;
    while i < kept.len()
        invariant
            i <= kept@.len(),
            all == saved_models(kept@),
            r@.len() == i,
            forall|j: int| 0 <= j < i ==> restored(#[trigger] all[j]) == Some(r@[j]@),
        decreases kept@.len() - i,
    {
        match restore_request(&kept[i]) {
            Some(request) => {
                r.push(request);
            },
            None => {
                proof {
                    assert(restored(all[i as int]) is None);
                }
                return None;
            },
        }
        i = i + 1;
    }
    proof {
        assert(request_models(r@) =~= all_restored(all)->0);
    }
    Some(r)
}

// ── Laws ──────────────────────────────────────────────────────────────────────

/// Headers with different names are made up of their own pairs.
proof fn lemma_headers_of(pairs: Seq<(Seq<char>, Seq<char>)>)
    requires
        names_differ(pairs),
    ensures
        headers_of(pairs) == pairs,
    decreases pairs.len(),
{
    if pairs.len() > 0 {
        let rest = pairs.drop_last();
        assert forall|i: int, j: int| 0 <= i < j < rest.len() implies (#[trigger] rest[i]).0 != (
        #[trigger] rest[j]).0 by {
            assert(pairs[i].0 != pairs[j].0);
        }
        lemma_headers_of(rest);
        crate::headers::lemma_place_of(rest, pairs.last().0);
        if let Some(i) = crate::headers::place_of(rest, pairs.last().0) {
            assert(pairs[i].0 != pairs[pairs.len() - 1].0);
        }
        assert(with_field(rest, pairs.last().0, pairs.last().1) =~= pairs);
    } else {
        assert(headers_of(pairs) =~= pairs);
    }
}

/// A request that was kept is restored as it was.
pub proof fn lemma_restored_as_saved(request: RequestModel)
    requires
        is_token(request.method),
        names_differ(request.headers),
    ensures
        restored(saved(request)) == Some(request),
{
    lemma_headers_of(request.headers);
}

/// The requests are kept in the directory of the application.
pub proof fn lemma_library_is_in_directory(given: bool, xdg: bool, home: bool)
    ensures
        library_path(given, xdg, home).base == env_path(given, xdg, home).base,
        library_path(given, xdg, home).parts.drop_last() == env_path(given, xdg, home).parts,
{
    assert(library_path(given, xdg, home).parts.drop_last() =~= env_path(given, xdg, home).parts);
}

/// All requests that are saved are restored, in their order.
pub proof fn lemma_all_restored_as_saved(requests: Seq<RequestModel>)
    requires
        forall|i: int|
            0 <= i < requests.len() ==> is_token((#[trigger] requests[i]).method) && names_differ(
                requests[i].headers,
            ),
    ensures
        all_saved(requests).len() == requests.len(),
        all_restored(all_saved(requests)) == Some(requests),
{
    let kept = all_saved(requests);
    assert forall|i: int| 0 <= i < kept.len() implies restored(#[trigger] kept[i]) == Some(
        requests[i],
    ) by {
        assert(is_token(requests[i].method));
        lemma_restored_as_saved(requests[i]);
    }
    assert(all_restored(kept)->0 =~= requests);
}

/// What is saved of a request is what it holds; a filter or pattern that is the
/// usual one is left out, and any other is written down.
pub proof fn lemma_saved_is_what_it_holds(request: RequestModel)
    ensures
        saved(request).method == request.method,
        saved(request).url == request.url,
        saved(request).headers == request.headers,
        saved(request).body == request.body,
        saved(request).jq_filter is None <==> request.jq_filter == "."@,
        saved(request).jq_filter matches Some(text) ==> text == request.jq_filter,
        saved(request).stream_prefix_regex is None <==> request.stream_prefix_regex
            == prefix_pattern(),
        saved(request).stream_prefix_regex matches Some(text) ==> text
            == request.stream_prefix_regex,
        saved(request).stream_suffix_regex is None <==> request.stream_suffix_regex
            == suffix_pattern(),
        saved(request).stream_suffix_regex matches Some(text) ==> text
            == request.stream_suffix_regex,
{
}

/// A saved request is restored exactly where its method is one; it then holds
/// what was written down, the usual filter and patterns where none was, and of
/// headers with the same name the value that was written last.
pub proof fn lemma_restored_is_what_was_written(kept: SavedModel)
    ensures
        restored(kept) is Some <==> is_token(kept.method),
        restored(kept) matches Some(request) ==> {
            &&& request.method == kept.method
            &&& request.url == kept.url
            &&& request.body == kept.body
            &&& kept.jq_filter matches Some(text) ==> request.jq_filter == text
            &&& kept.jq_filter is None ==> request.jq_filter == "."@
            &&& kept.stream_prefix_regex matches Some(text) ==> request.stream_prefix_regex == text
            &&& kept.stream_prefix_regex is None ==> request.stream_prefix_regex == prefix_pattern()
            &&& kept.stream_suffix_regex matches Some(text) ==> request.stream_suffix_regex == text
            &&& kept.stream_suffix_regex is None ==> request.stream_suffix_regex == suffix_pattern()
            &&& kept.headers.len() > 0 ==> value_of(request.headers, kept.headers.last().0) == Some(
                kept.headers.last().1,
            )
            &&& names_differ(kept.headers) ==> request.headers == kept.headers
        },
{
    if kept.headers.len() > 0 {
        lemma_set_is_read_back(
            headers_of(kept.headers.drop_last()),
            kept.headers.last().0,
            kept.headers.last().1,
            ""@,
        );
    }
    if names_differ(kept.headers) {
        lemma_headers_of(kept.headers);
    }
}

/// The place of the application's files: what was given comes first, then the
/// configuration directory, then the home directory, then the current one; it
/// ends in the name of the application, and the library in the name of its file.
pub proof fn lemma_given_place_comes_first(given: bool, xdg: bool, home: bool)
    ensures
        given ==> env_path(given, xdg, home).base == BaseDir::Given,
        !given && xdg ==> env_path(given, xdg, home).base == BaseDir::XdgConfigHome,
        !given && !xdg && home ==> env_path(given, xdg, home).base == BaseDir::Home,
        !given && !xdg && !home ==> env_path(given, xdg, home).base == BaseDir::Current,
        env_path(given, xdg, home).parts.last() == "imhottep"@,
        env_path(given, xdg, home).base == BaseDir::Home ==> env_path(given, xdg, home).parts
            == seq![".config"@, "imhottep"@],
        env_path(given, xdg, home).base != BaseDir::Home ==> env_path(given, xdg, home).parts.len()
            == 1,
        library_path(given, xdg, home).parts.last() == "request-library.json"@,
{
}

} // verus!
