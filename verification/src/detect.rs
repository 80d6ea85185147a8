//! Which models and which gateways take the GLM-5.3 controls.
use crate::text;
use vstd::prelude::*;

verus! {

/// Marks a model name as asking for the context of a million tokens.
pub const ONE_M_CONTEXT_MARKER: &'static str = "[1m]";

/// `name` without the context marker at its end and the white space before it.
pub open spec fn without_marker(name: Seq<char>) -> Seq<char> {
    if ONE_M_CONTEXT_MARKER@.is_suffix_of(name) {
        text::trimmed_end(name.take(name.len() - ONE_M_CONTEXT_MARKER@.len()))
    } else {
        name
    }
}

/// A model name in the form in which it is compared: trimmed, in lower case,
/// without the context marker.
pub open spec fn plain_name(model: Seq<char>) -> Seq<char> {
    without_marker(text::lowered(text::trimmed(model)))
}

/// Whether the last segment of a path, what follows its last slash, is
/// `segment`, which holds no slash.
pub open spec fn ends_in_segment(path: Seq<char>, segment: Seq<char>) -> bool {
    &&& segment.is_suffix_of(path)
    &&& path.len() == segment.len() || path[path.len() - segment.len() - 1] == '/'
}

/// Whether a model name, under any vendor path, is GLM-5.3 itself.
pub open spec fn names_glm_5_3(model: Seq<char>) -> bool {
    ends_in_segment(plain_name(model), "glm-5.3"@)
}

/// A path ends in a segment iff it is the segment or ends in a slash and it.
proof fn lemma_last_segment(path: Seq<char>, segment: Seq<char>)
    ensures
        ends_in_segment(path, segment) <==> path == segment || (seq!['/']
            + segment).is_suffix_of(path),
{
    let tail = seq!['/'] + segment;
    if path.len() == segment.len() {
        assert(path.subrange(0, path.len() as int) =~= path);
    } else if path.len() > segment.len() {
        let from = path.len() - segment.len();
        assert(path.subrange(from - 1, path.len() as int) =~= seq![path[from - 1]] + path.subrange(
            from,
            path.len() as int,
        ));
        assert(tail.subrange(1, tail.len() as int) =~= segment);
        assert(tail[0] == '/');
        if tail.is_suffix_of(path) {
            assert(tail == path.subrange(from - 1, path.len() as int));
            assert(path[from - 1] == tail[0]);
            assert(segment =~= path.subrange(from, path.len() as int));
        }
    }
}

/// Whether `model` is GLM-5.3. Case, white space at the ends, the context
/// marker and a path of vendors before the name (`models/` among them) do not
/// matter; a variant such as `glm-5.30` or `glm-5.3v` is another model.
pub fn is_glm_5_3_model(model: &str) -> (found: bool)
    ensures
        found == names_glm_5_3(model@),
{
    let lower = model.trim().to_ascii_lowercase();
    let name = match text::strip_suffix(lower.as_str(), ONE_M_CONTEXT_MARKER) {
        Some(rest) => {
            assert(rest@ =~= lower@.take(lower@.len() - ONE_M_CONTEXT_MARKER@.len()));
            rest.trim_end()
        },
        None => lower.as_str(),
    };
    proof {
        reveal_strlit("glm-5.3");
        reveal_strlit("/glm-5.3");
        assert("/glm-5.3"@ =~= seq!['/'] + "glm-5.3"@);
        lemma_last_segment(name@, "glm-5.3"@);
    }
    text::same_text(name, "glm-5.3") || text::strip_suffix(name, "/glm-5.3").is_some()
}

/// Declares `url::ParseError`; nothing inside it is seen here.
#[verifier::external_type_specification]
#[verifier::external_body]
pub struct ExParseError(url::ParseError);

/// What `url::Url::parse` and `url::Url::host_str` find in a string: `None` if
/// the string is no absolute URL, otherwise the host of the URL, if it has one.
pub uninterp spec fn url_host(input: Seq<char>) -> Option<Option<Seq<char>>>;

/// `url::Url::parse` reads an absolute URL, and `url::Url::host_str` gives its
/// host as text. Both depend on the string alone; which hosts they find is
/// left to the name `url_host`.
#[verifier::external_body]
pub(crate) fn parse_url_host(input: &str) -> (host: Result<Option<String>, url::ParseError>)
    ensures
        match host {
            Ok(Some(name)) => url_host(input@) == Some(Some(name@)),
            Ok(None) => url_host(input@) == Some(None::<Seq<char>>),
            Err(_) => url_host(input@) is None,
        },
{
    match url::Url::parse(input) {
        Ok(url) => Ok(url.host_str().map(String::from)),
        Err(error) => Err(error),
    }
}

/// Whether a host, in any case, is one of Zhipu's own.
pub open spec fn zhipu_host(host: Seq<char>) -> bool {
    text::lowered(host) == "api.z.ai"@ || text::lowered(host) == "open.bigmodel.cn"@
}

/// Whether `base_url`, without the white space round it, is a URL on one of
/// Zhipu's own hosts.
pub open spec fn direct_gateway(base_url: Seq<char>) -> bool {
    match url_host(text::trimmed(base_url)) {
        Some(Some(host)) => zhipu_host(host),
        _ => false,
    }
}

/// Whether the host of a URL, if it has one, is one of Zhipu's own.
pub fn is_zhipu_host(host: Option<&str>) -> (found: bool)
    ensures
        found == (host is Some && zhipu_host(host->0@)),
        found == (host is Some && (text::lowered(host->0@) == "api.z.ai"@ || text::lowered(host->0@)
            == "open.bigmodel.cn"@)),
{
    match host {
        Some(name) => {
            let lower = name.to_ascii_lowercase();
            text::same_text(lower.as_str(), "api.z.ai") || text::same_text(
                lower.as_str(),
                "open.bigmodel.cn",
            )
        },
        None => false,
    }
}

/// Whether `base_url` is one of Zhipu's own endpoints. Only these are known to
/// take `thinking` together with a top-level `reasoning_effort`; a platform
/// that hosts the model elsewhere has an interface of its own.
pub fn is_direct_zhipu_gateway(base_url: &str) -> (direct: bool)
    ensures
        direct == direct_gateway(base_url@),
        direct == (url_host(text::trimmed(base_url@)) matches Some(Some(host)) && (text::lowered(
            host,
        ) == "api.z.ai"@ || text::lowered(host) == "open.bigmodel.cn"@)),
{
    match parse_url_host(base_url.trim()) {
        Ok(Some(host)) => is_zhipu_host(Some(host.as_str())),
        Ok(None) => is_zhipu_host(None),
        Err(_) => false,
    }
}

} // verus!
