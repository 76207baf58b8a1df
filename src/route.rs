//! Resolution of one route source file, given by its path relative to the
//! routes folder, into a module name and a URL pattern.
use vstd::prelude::*;
use crate::text::{strip_suffix, without_suffix, push_char};

verus! {

/// Extension of the route source files.
pub const SOURCE_EXTENSION: &'static str = ".rs";

/// Last segment of an index route, without its extension.
pub const INDEX_SEGMENT: &'static str = "/index";

/// URL pattern of the root index route.
pub const ROOT_PATTERN: &'static str = "/";

/// A route: the module that holds its handlers and the URL it serves.
#[derive(Debug, PartialEq, Eq)]
pub struct Route {
    /// The path with `_` in place of `/`: a name a nested module can have.
    pub module_import: String,
    pub axum_route: String,
}

/// What a [`Route`] holds, as character sequences.
pub struct RouteView {
    pub module_import: Seq<char>,
    pub axum_route: Seq<char>,
}

impl View for Route {
    type V = RouteView;

    open spec fn view(&self) -> RouteView {
        RouteView { module_import: self.module_import@, axum_route: self.axum_route@ }
    }
}

/// A `[` followed later on the same line by a `]`.
pub open spec fn has_bracket_pair(s: Seq<char>) -> bool {
    exists|i: int, j: int|
        0 <= i < j < s.len() && s[i] == '[' && s[j] == ']' && forall|k: int|
            i < k < j ==> s[k] != '\n'
}

/// `s` without one leading `/`.
pub open spec fn strip_leading_separator(s: Seq<char>) -> Seq<char> {
    if s.len() > 0 && s[0] == '/' {
        s.drop_first()
    } else {
        s
    }
}

/// `s` with each `/` replaced by `_`.
pub open spec fn underscored(s: Seq<char>) -> Seq<char>
    decreases s.len(),
{
    if s.len() == 0 {
        seq![]
    } else {
        underscored(s.drop_last()) + if s.last() == '/' {
            seq!['_']
        } else {
            seq![s.last()]
        }
    }
}

/// `s` with each `/` replaced by `_`, each `[` by `dyn_`, and each `]` removed.
pub open spec fn dynamic_identifier(s: Seq<char>) -> Seq<char>
    decreases s.len(),
{
    if s.len() == 0 {
        seq![]
    } else {
        dynamic_identifier(s.drop_last()) + if s.last() == '/' {
            seq!['_']
        } else if s.last() == '[' {
            "dyn_"@
        } else if s.last() == ']' {
            seq![]
        } else {
            seq![s.last()]
        }
    }
}

/// `s` with each `[` replaced by `:` and each `]` removed.
pub open spec fn parameter_pattern(s: Seq<char>) -> Seq<char>
    decreases s.len(),
{
    if s.len() == 0 {
        seq![]
    } else {
        parameter_pattern(s.drop_last()) + if s.last() == '[' {
            seq![':']
        } else if s.last() == ']' {
            seq![]
        } else {
            seq![s.last()]
        }
    }
}

/// The path without its extension.
pub open spec fn route_name(path: Seq<char>) -> Seq<char> {
    strip_suffix(path, SOURCE_EXTENSION@)
}

/// The URL candidate: the route name without a trailing `/index` segment.
pub open spec fn url_candidate(path: Seq<char>) -> Seq<char> {
    strip_suffix(route_name(path), INDEX_SEGMENT@)
}

/// The route of the file at `path`, relative to the routes folder.
pub open spec fn resolve(path: Seq<char>) -> RouteView {
    let name = route_name(path);
    let candidate = url_candidate(path);
    let module = strip_leading_separator(name);
    if candidate.len() == 0 {
        RouteView { module_import: underscored(module), axum_route: ROOT_PATTERN@ }
    } else if has_bracket_pair(name) {
        RouteView {
            module_import: dynamic_identifier(module),
            axum_route: parameter_pattern(candidate),
        }
    } else {
        RouteView { module_import: underscored(module), axum_route: candidate }
    }
}

/// A path with no `[...]` pair has as module import the path without its
/// leading separator and extension, with each separator replaced by `_`.
pub proof fn lemma_static_module_import(path: Seq<char>)
    requires
        !has_bracket_pair(route_name(path)),
    ensures
        resolve(path).module_import == underscored(
            strip_leading_separator(strip_suffix(path, SOURCE_EXTENSION@)),
        ),
{
}

proof fn lemma_underscored_has_no_separator(s: Seq<char>)
    ensures
        forall|k: int| 0 <= k < underscored(s).len() ==> underscored(s)[k] != '/',
    decreases s.len(),
{
    if s.len() > 0 {
        let init = underscored(s.drop_last());
        lemma_underscored_has_no_separator(s.drop_last());
        assert forall|k: int| 0 <= k < underscored(s).len() implies underscored(s)[k] != '/' by {
            if k >= init.len() {
                assert(underscored(s)[k] == (if s.last() == '/' {
                    seq!['_']
                } else {
                    seq![s.last()]
                })[k - init.len()]);
            } else {
                assert(underscored(s)[k] == init[k]);
            }
        }
    }
}

proof fn lemma_dynamic_identifier_is_plain(s: Seq<char>)
    ensures
        forall|k: int|
            0 <= k < dynamic_identifier(s).len() ==> {
                let c = #[trigger] dynamic_identifier(s)[k];
                c != '/' && c != '[' && c != ']'
            },
    decreases s.len(),
{
    reveal_strlit("dyn_");
    if s.len() > 0 {
        let init = dynamic_identifier(s.drop_last());
        let tail = if s.last() == '/' {
            seq!['_']
        } else if s.last() == '[' {
            "dyn_"@
        } else if s.last() == ']' {
            seq![]
        } else {
            seq![s.last()]
        };
        lemma_dynamic_identifier_is_plain(s.drop_last());
        assert(dynamic_identifier(s) == init + tail);
        assert forall|k: int| 0 <= k < dynamic_identifier(s).len() implies {
            let c = #[trigger] dynamic_identifier(s)[k];
            c != '/' && c != '[' && c != ']'
        } by {
            if k >= init.len() {
                assert(dynamic_identifier(s)[k] == tail[k - init.len()]);
            } else {
                assert(dynamic_identifier(s)[k] == init[k]);
            }
        }
    }
}

/// A module import never holds a path separator, and that of a dynamic route
/// holds no bracket either.
pub proof fn lemma_module_import_is_identifier(path: Seq<char>)
    ensures
        forall|k: int|
            0 <= k < resolve(path).module_import.len() ==> resolve(path).module_import[k] != '/',
        url_candidate(path).len() > 0 && has_bracket_pair(route_name(path)) ==> forall|k: int|
            0 <= k < resolve(path).module_import.len() ==> resolve(path).module_import[k] != '['
                && resolve(path).module_import[k] != ']',
{
    let module = strip_leading_separator(route_name(path));
    lemma_underscored_has_no_separator(module);
    lemma_dynamic_identifier_is_plain(module);
}

/// A path with no bracket character at all is static.
pub proof fn lemma_no_brackets_is_static(s: Seq<char>)
    requires
        forall|k: int| 0 <= k < s.len() ==> s[k] != '[' && s[k] != ']',
    ensures
        !has_bracket_pair(s),
{
}

/// A `[` at `open` closed by a `]` at `close` makes a path dynamic, whether
/// the brackets hold characters or none (`close == open + 1`).
pub proof fn lemma_bracketed_segment_is_dynamic(s: Seq<char>, open: int, close: int)
    requires
        0 <= open < close < s.len(),
        s[open] == '[',
        s[close] == ']',
        forall|k: int| open < k < close ==> s[k] != '\n',
    ensures
        has_bracket_pair(s),
{
}

/// Relies on `regex::Regex::new` and `regex::Regex::is_match` for the pattern
/// `\[(.*?)\]`: a match exists anywhere in `route` iff a `[` is followed by a
/// `]` with no line break between them (`.` matches any character but `\n`).
/// The pattern is valid, so compiling it does not fail.
#[verifier::external_body]
fn bracket_pattern_matches(route: &str) -> (r: bool)
    ensures
        r == has_bracket_pair(route@),
{
    regex::Regex::new(r"\[(.*?)\]").expect("Failed to create the regex").is_match(route)
}

/// Whether `route` holds a dynamic segment, a `[...]` pair.
pub fn has_dynamic_path(route: &str) -> (r: bool)
    ensures
        r == has_bracket_pair(route@),
{
    bracket_pattern_matches(route)
}

/// Copies `s` with each `/` replaced by `_`.
fn to_underscored(s: &str) -> (r: String)
    ensures
        r@ == underscored(s@),
{
    let n = s.unicode_len();
    let mut out = String::new();
    let mut i: usize = 0;
    while i < n
        invariant
            n == s@.len(),
            i <= n,
            out@ == underscored(s@.subrange(0, i as int)),
        decreases n - i,
    {
        let c = s.get_char(i);
        if c == '/' {
            push_char(&mut out, '_');
        } else {
            push_char(&mut out, c);
        }
        assert(s@.subrange(0, i + 1).drop_last() =~= s@.subrange(0, i as int));
        i = i + 1;
    }
    assert(s@.subrange(0, n as int) =~= s@);
    out
}

/// Copies `s` with `/` as `_`, `[` as `dyn_`, and `]` dropped.
fn to_dynamic_identifier(s: &str) -> (r: String)
    ensures
        r@ == dynamic_identifier(s@),
{
    let n = s.unicode_len();
    let mut out = String::new();
    let mut i: usize = 0;
    while i < n
        invariant
            n == s@.len(),
            i <= n,
            out@ == dynamic_identifier(s@.subrange(0, i as int)),
        decreases n - i,
    {
        let c = s.get_char(i);
        if c == '/' {
            push_char(&mut out, '_');
        } else if c == '[' {
            out.append("dyn_");
        } else if c != ']' {
            push_char(&mut out, c);
        }
        assert(s@.subrange(0, i + 1).drop_last() =~= s@.subrange(0, i as int));
        assert(out@ =~= dynamic_identifier(s@.subrange(0, i + 1)));
        i = i + 1;
    }
    assert(s@.subrange(0, n as int) =~= s@);
    out
}

/// Copies `s` with `[` as `:` and `]` dropped.
fn to_parameter_pattern(s: &str) -> (r: String)
    ensures
        r@ == parameter_pattern(s@),
{
    let n = s.unicode_len();
    let mut out = String::new();
    let mut i: usize = 0;
    while i < n
        invariant
            n == s@.len(),
            i <= n,
            out@ == parameter_pattern(s@.subrange(0, i as int)),
        decreases n - i,
    {
        let c = s.get_char(i);
        if c == '[' {
            push_char(&mut out, ':');
        } else if c != ']' {
            push_char(&mut out, c);
        }
        assert(s@.subrange(0, i + 1).drop_last() =~= s@.subrange(0, i as int));
        assert(out@ =~= parameter_pattern(s@.subrange(0, i + 1)));
        i = i + 1;
    }
    assert(s@.subrange(0, n as int) =~= s@);
    out
}

/// Copies `s` without one leading `/`.
fn without_leading_separator(s: &str) -> (r: String)
    ensures
        r@ == strip_leading_separator(s@),
{
    let n = s.unicode_len();
    if n > 0 && s.get_char(0) == '/' {
        s.substring_char(1, n).to_string()
    } else {
        s.to_string()
    }
}

impl Route {
    /// The route of the file at `path`, relative to the routes folder and
    /// starting with `/`.
    pub fn new(path: &str) -> (r: Self)
        ensures
            r@ == resolve(path@),
    {
        let route_name = without_suffix(path, SOURCE_EXTENSION);
        let module = without_leading_separator(route_name.as_str());
        let axum_route = without_suffix(route_name.as_str(), INDEX_SEGMENT);

        if axum_route.unicode_len() == 0 {
            return Route {
                module_import: to_underscored(module.as_str()),
                axum_route: ROOT_PATTERN.to_string(),
            };
        }

        if has_dynamic_path(route_name.as_str()) {
            return Route {
                module_import: to_dynamic_identifier(module.as_str()),
                axum_route: to_parameter_pattern(axum_route.as_str()),
            };
        }

        Route { module_import: to_underscored(module.as_str()), axum_route }
    }
}

} // verus!
