//! Decisions of the interactive and non-interactive setup and of the
//! diagnostics command: provider presets, which value of a field wins, how a
//! secret is shown, how the vector dimension is settled, and which fix to
//! suggest for an embedding error.

use vstd::prelude::*;
use crate::config::{
    is_non_blank, non_blank, opt_str, EmbeddingDraft, DEFAULT_EMBEDDING_BASE_URL,
    DEFAULT_EMBEDDING_MODEL,
};
use crate::types::str_eq;
use crate::text::{
    chars_eq, chars_of, contains_seq, contains_str, copy_range, lower_seq, push_all, push_str,
    string_of, string_views, to_lower, trim, trim_chars, trim_each, views, parse_bounded,
    parse_usize,
};

verus! {

/// A preset that pre-fills the embedding provider's settings.
#[derive(Debug, Clone, Copy, PartialEq, Eq, Structural)]
pub enum ProviderPreset {
    Deepinfra,
    OpenaiCompatible,
    Custom,
}

impl ProviderPreset {
    /// The name shown for the preset.
    pub fn label(self) -> (r: &'static str)
        ensures
            r@ == match self {
                ProviderPreset::Deepinfra => "DeepInfra"@,
                ProviderPreset::OpenaiCompatible => "OpenAI-compatible"@,
                ProviderPreset::Custom => "Custom"@,
            },
    {
        match self {
            ProviderPreset::Deepinfra => "DeepInfra",
            ProviderPreset::OpenaiCompatible => "OpenAI-compatible",
            ProviderPreset::Custom => "Custom",
        }
    }

    /// The base URL the preset suggests, if any.
    pub fn default_base_url(self) -> (r: Option<&'static str>)
        ensures
            match self {
                ProviderPreset::Deepinfra => r matches Some(u) && u@ == DEFAULT_EMBEDDING_BASE_URL@,
                _ => r is None,
            },
    {
        match self {
            ProviderPreset::Deepinfra => Some(DEFAULT_EMBEDDING_BASE_URL),
            _ => None,
        }
    }

    /// The model the preset suggests, if any.
    pub fn default_model(self) -> (r: Option<&'static str>)
        ensures
            match self {
                ProviderPreset::Deepinfra => r matches Some(u) && u@ == DEFAULT_EMBEDDING_MODEL@,
                _ => r is None,
            },
    {
        match self {
            ProviderPreset::Deepinfra => Some(DEFAULT_EMBEDDING_MODEL),
            _ => None,
        }
    }
}

/// `s` without trailing `/` characters.
pub open spec fn trim_end_slashes(s: Seq<char>) -> Seq<char>
    decreases s.len(),
{
    if s.len() > 0 && s.last() == '/' {
        trim_end_slashes(s.drop_last())
    } else {
        s
    }
}

fn trim_end_slashes_of(v: &Vec<char>) -> (r: Vec<char>)
    ensures
        r@ == trim_end_slashes(v@),
{
    let mut i = v.len();
    assert(v@.take(i as int) =~= v@);
    while i > 0 && v[i - 1] == '/'
        invariant
            0 <= i <= v.len(),
            trim_end_slashes(v@) == trim_end_slashes(v@.take(i as int)),
        decreases i,
    {
        assert(v@.take(i as int).drop_last() =~= v@.take(i - 1));
        i = i - 1;
    }
    let r = copy_range(v, 0, i);
    assert(r@ =~= v@.take(i as int));
    r
}

/// The preset suggested by a configured base URL: DeepInfra for its URL (a
/// trailing `/` ignored) or when none is configured, OpenAI-compatible for
/// any other URL.
pub open spec fn spec_infer_provider(base_url: Option<Seq<char>>) -> ProviderPreset {
    match base_url {
        Some(u) => if trim_end_slashes(u) == DEFAULT_EMBEDDING_BASE_URL@ {
            ProviderPreset::Deepinfra
        } else {
            ProviderPreset::OpenaiCompatible
        },
        None => ProviderPreset::Deepinfra,
    }
}

/// The preset suggested by a configured base URL.
pub fn infer_provider(base_url: Option<&str>) -> (r: ProviderPreset)
    ensures
        r == spec_infer_provider(
            match base_url {
                Some(u) => Some(u@),
                None => None,
            },
        ),
{
    match base_url {
        Some(url) => {
            let v = chars_of(url);
            let t = trim_end_slashes_of(&v);
            let d = chars_of(DEFAULT_EMBEDDING_BASE_URL);
            if chars_eq(&t, &d) {
                ProviderPreset::Deepinfra
            } else {
                ProviderPreset::OpenaiCompatible
            }
        },
        None => ProviderPreset::Deepinfra,
    }
}

/// The first of two optional values that is not blank.
pub open spec fn spec_first_non_empty(
    primary: Option<Seq<char>>,
    secondary: Option<Seq<char>>,
) -> Option<Seq<char>> {
    if primary matches Some(p) && non_blank(p) {
        primary
    } else if secondary matches Some(s) && non_blank(s) {
        secondary
    } else {
        None
    }
}

/// The view of an optional borrowed string.
pub open spec fn opt_ref_view(o: Option<&String>) -> Option<Seq<char>> {
    match o {
        Some(s) => Some(s@),
        None => None,
    }
}

/// The first of `primary` and `secondary` that is set and not blank.
pub fn first_non_empty<'a>(primary: Option<&'a String>, secondary: Option<&'a String>) -> (r:
    Option<&'a str>)
    ensures
        match r {
            Some(v) => spec_first_non_empty(opt_ref_view(primary), opt_ref_view(secondary))
                == Some(v@),
            None => spec_first_non_empty(opt_ref_view(primary), opt_ref_view(secondary)) is None,
        },
{
    match primary {
        Some(p) => {
            if is_non_blank(p.as_str()) {
                return Some(p.as_str());
            }
        },
        None => {},
    }
    match secondary {
        Some(s) => {
            if is_non_blank(s.as_str()) {
                return Some(s.as_str());
            }
        },
        None => {},
    }
    None
}

/// A required setup field that has no value.
#[derive(Debug, Clone, PartialEq, Eq)]
pub struct MissingField {
    pub field: String,
}

/// The value of a setup field: the explicit value, else the existing one,
/// else the preset's default; blank values do not count.
pub open spec fn spec_text_value(
    explicit: Option<Seq<char>>,
    existing: Option<Seq<char>>,
    provider_default: Option<Seq<char>>,
) -> Option<Seq<char>> {
    match spec_first_non_empty(explicit, existing) {
        Some(v) => Some(v),
        None => match provider_default {
            Some(d) => if non_blank(d) {
                Some(d)
            } else {
                None
            },
            None => None,
        },
    }
}

/// Picks the value of a setup field (see `spec_text_value`); a field with no
/// value is an error naming it.
pub fn resolve_text_value(
    explicit: Option<&String>,
    existing: Option<&String>,
    provider_default: Option<&str>,
    field_name: &str,
) -> (r: Result<String, MissingField>)
    ensures
        match r {
            Ok(v) => spec_text_value(
                opt_ref_view(explicit),
                opt_ref_view(existing),
                match provider_default {
                    Some(d) => Some(d@),
                    None => None,
                },
            ) == Some(v@),
            Err(e) => spec_text_value(
                opt_ref_view(explicit),
                opt_ref_view(existing),
                match provider_default {
                    Some(d) => Some(d@),
                    None => None,
                },
            ) is None && e.field@ == field_name@,
        },
{
    match first_non_empty(explicit, existing) {
        Some(v) => Ok(v.to_owned()),
        None => match provider_default {
            Some(d) => if is_non_blank(d) {
                Ok(d.to_owned())
            } else {
                Err(MissingField { field: field_name.to_owned() })
            },
            None => Err(MissingField { field: field_name.to_owned() }),
        },
    }
}

/// How a secret is shown: `<empty>` when empty, eight stars when it has at
/// most eight characters, otherwise its first four and last four characters
/// around four stars.
pub open spec fn spec_mask_secret(s: Seq<char>) -> Seq<char> {
    if s.len() == 0 {
        "<empty>"@
    } else if s.len() <= 8 {
        "********"@
    } else {
        s.take(4) + "****"@ + s.skip(s.len() - 4)
    }
}

/// Shows a secret without revealing it.
pub fn mask_secret(secret: &str) -> (r: String)
    ensures
        r@ == spec_mask_secret(secret@),
{
    let v = chars_of(secret);
    if v.len() == 0 {
        return "<empty>".to_owned();
    }
    if v.len() <= 8 {
        return "********".to_owned();
    }
    let mut out = copy_range(&v, 0, 4);
    push_str(&mut out, "****");
    let tail = copy_range(&v, v.len() - 4, v.len());
    push_all(&mut out, &tail);
    assert(v@.take(4) =~= v@.subrange(0, 4));
    assert(v@.skip(v@.len() - 4) =~= v@.subrange(v@.len() - 4, v@.len() as int));
    string_of(&out)
}

/// The fix suggested for an embedding error message: authentication errors
/// point at the API key, not-found or model errors at the base URL and
/// model, request failures at the network and base URL, anything else at
/// re-running setup.
pub open spec fn spec_fix_hint(error: Seq<char>, config_path: Seq<char>) -> Seq<char> {
    if contains_seq(error, "401"@) || contains_seq(error, "403"@) {
        "update embedding.api_key in "@ + config_path
    } else if contains_seq(error, "404"@) || contains_seq(lower_seq(error), "model"@) {
        "verify embedding.base_url and embedding.model in "@ + config_path
    } else if contains_seq(error, "Request failed"@) {
        "verify network connectivity and embedding.base_url in "@ + config_path
    } else {
        "re-run `memx setup` or edit "@ + config_path
    }
}

fn prefixed(prefix: &str, rest: &str) -> (r: String)
    ensures
        r@ == prefix@ + rest@,
{
    let mut out: Vec<char> = Vec::new();
    push_str(&mut out, prefix);
    push_str(&mut out, rest);
    string_of(&out)
}

fn contains_chars_str(v: &Vec<char>, t: &str) -> (r: bool)
    ensures
        r == contains_seq(v@, t@),
{
    let s = string_of(v);
    contains_str(s.as_str(), t)
}

/// The fix to suggest for an embedding error.
pub fn doctor_fix_hint(error: &str, config_path: &str) -> (r: String)
    ensures
        r@ == spec_fix_hint(error@, config_path@),
{
    if contains_str(error, "401") || contains_str(error, "403") {
        return prefixed("update embedding.api_key in ", config_path);
    }
    let lowered = to_lower(&chars_of(error));
    if contains_str(error, "404") || contains_chars_str(&lowered, "model") {
        return prefixed("verify embedding.base_url and embedding.model in ", config_path);
    }
    if contains_str(error, "Request failed") {
        return prefixed("verify network connectivity and embedding.base_url in ", config_path);
    }
    prefixed("re-run `memx setup` or edit ", config_path)
}

/// Why the vector dimension cannot be settled.
#[derive(Debug, Clone, Copy, PartialEq, Eq, Structural)]
pub enum DimensionError {
    /// Validation was skipped and no dimension was given.
    MissingDimension,
    /// The configured dimension differs from the one the API returned.
    Mismatch { configured: usize, detected: usize },
}

/// The dimension when remote validation is skipped: it must be configured.
pub fn dimension_without_validation(configured: Option<usize>) -> (r: Result<usize, DimensionError>)
    ensures
        r == match configured {
            Some(d) => Ok(d),
            None => Err(DimensionError::MissingDimension),
        },
{
    match configured {
        Some(d) => Ok(d),
        None => Err(DimensionError::MissingDimension),
    }
}

/// The dimension once the API has returned a vector of `detected`
/// components: a configured dimension must agree with it.
pub fn reconcile_dimension(configured: Option<usize>, detected: usize) -> (r: Result<
    usize,
    DimensionError,
>)
    ensures
        r == match configured {
            Some(c) => if c == detected {
                Ok(c)
            } else {
                Err(DimensionError::Mismatch { configured: c, detected })
            },
            None => Ok(detected),
        },
{
    match configured {
        Some(c) => if c == detected {
            Ok(c)
        } else {
            Err(DimensionError::Mismatch { configured: c, detected })
        },
        None => Ok(detected),
    }
}

/// The comma-separated tags of `text`, each trimmed (empty pieces kept).
pub open spec fn spec_split_tags(text: Seq<char>) -> Seq<Seq<char>>
    decreases text.len(),
{
    if text.len() == 0 {
        seq![Seq::<char>::empty()]
    } else if text.last() == ',' {
        spec_split_tags(text.drop_last()).push(Seq::<char>::empty())
    } else {
        let g = spec_split_tags(text.drop_last());
        g.update(g.len() - 1, g.last().push(text.last()))
    }
}

/// The tags given on the command line: `text` split at every comma, each
/// piece trimmed.
pub open spec fn spec_parse_tags(text: Seq<char>) -> Seq<Seq<char>> {
    trim_each(spec_split_tags(text))
}

/// Splits a comma-separated tag list and trims each tag.
pub fn parse_tags(text: &str) -> (r: Vec<String>)
    ensures
        string_views(r@) == spec_parse_tags(text@),
{
    let v = chars_of(text);
    let mut pieces: Vec<Vec<char>> = Vec::new();
    let mut cur: Vec<char> = Vec::new();
    let mut i: usize = 0;
    while i < v.len()
        invariant
            0 <= i <= v.len(),
            spec_split_tags(v@.take(i as int)) == views(pieces@).push(cur@),
        decreases v.len() - i,
    {
        let ghost old_p = views(pieces@);
        assert(v@.take(i + 1).drop_last() =~= v@.take(i as int));
        let c = v[i];
        if c == ',' {
            pieces.push(cur);
            cur = Vec::new();
            assert(views(pieces@).push(cur@) =~= old_p.push(
                pieces@[pieces@.len() - 1]@,
            ).push(Seq::<char>::empty()));
        } else {
            let ghost old_cur = cur@;
            cur.push(c);
            proof {
                let g = old_p.push(old_cur);
                assert(g.update(g.len() - 1, g.last().push(c)) =~= old_p.push(cur@));
            }
        }
        i = i + 1;
    }
    assert(v@.take(v@.len() as int) =~= v@);
    let ghost old_p = views(pieces@);
    pieces.push(cur);
    assert(views(pieces@) =~= old_p.push(pieces@[pieces@.len() - 1]@));
    let ghost all = views(pieces@);
    let mut out: Vec<String> = Vec::new();
    let mut k: usize = 0;
    while k < pieces.len()
        invariant
            0 <= k <= pieces.len(),
            all == views(pieces@),
            all == spec_split_tags(v@),
            string_views(out@) == trim_each(all.take(k as int)),
        decreases pieces.len() - k,
    {
        let t = trim_chars(&pieces[k]);
        let ghost before = out@;
        assert(all[k as int] == pieces@[k as int]@);
        let st = string_of(&t);
        assert(st@ == trim(all[k as int]));
        out.push(st);
        assert(string_views(out@) =~= string_views(before).push(st@));
        assert(trim_each(all.take(k + 1)) =~= trim_each(all.take(k as int)).push(trim(all[k as int])));
        k = k + 1;
    }
    assert(all.take(pieces.len() as int) =~= all);
    out
}


// ── Settling the embedding fields ──────────────────────────────────────────

/// The base URL a preset suggests.
pub open spec fn preset_base_url(p: ProviderPreset) -> Option<Seq<char>> {
    match p {
        ProviderPreset::Deepinfra => Some(DEFAULT_EMBEDDING_BASE_URL@),
        _ => None,
    }
}

/// The model a preset suggests.
pub open spec fn preset_model(p: ProviderPreset) -> Option<Seq<char>> {
    match p {
        ProviderPreset::Deepinfra => Some(DEFAULT_EMBEDDING_MODEL@),
        _ => None,
    }
}

/// The preset a setup uses: the one asked for, else the one the existing
/// base URL suggests.
pub open spec fn spec_setup_provider(asked: Option<ProviderPreset>, existing: EmbeddingDraft) -> ProviderPreset {
    match asked {
        Some(p) => p,
        None => spec_infer_provider(opt_str(existing.base_url)),
    }
}

/// The embedding settings a setup writes, before the dimension is settled.
#[derive(Debug, Clone, PartialEq, Eq)]
pub struct SetupFields {
    pub provider: ProviderPreset,
    pub base_url: String,
    pub model: String,
    pub api_key: String,
}

/// Settles the fields of a setup that asks no questions: each field is the
/// value given, else the existing one, else the preset's default (the API
/// key has none). The base URL is settled first, then the model, then the
/// API key; the first field without a value is the error.
pub fn non_interactive_fields(
    provider: Option<ProviderPreset>,
    base_url: Option<&String>,
    model: Option<&String>,
    api_key: Option<&String>,
    existing: &EmbeddingDraft,
) -> (r: Result<SetupFields, MissingField>)
    ensures
        ({
            let p = spec_setup_provider(provider, *existing);
            let b = spec_text_value(opt_ref_view(base_url), opt_str(existing.base_url), preset_base_url(p));
            let m = spec_text_value(opt_ref_view(model), opt_str(existing.model), preset_model(p));
            let k = spec_text_value(opt_ref_view(api_key), opt_str(existing.api_key), None);
            &&& b is None ==> (r matches Err(e) && e.field@ == "base_url"@)
            &&& b is Some && m is None ==> (r matches Err(e) && e.field@ == "model"@)
            &&& b is Some && m is Some && k is None ==> (r matches Err(e) && e.field@ == "api_key"@)
            &&& (b is Some && m is Some && k is Some) ==> (r matches Ok(f) && f.provider == p
                && Some(f.base_url@) == b && Some(f.model@) == m && Some(f.api_key@) == k)
        }),
{
    let p = match provider {
        Some(p) => p,
        None => infer_provider(match &existing.base_url {
            Some(u) => Some(u.as_str()),
            None => None,
        }),
    };
    let base_url = match resolve_text_value(base_url, existing.base_url.as_ref(), p.default_base_url(), "base_url") {
        Ok(v) => v,
        Err(e) => return Err(e),
    };
    let model = match resolve_text_value(model, existing.model.as_ref(), p.default_model(), "model") {
        Ok(v) => v,
        Err(e) => return Err(e),
    };
    let api_key = match resolve_text_value(api_key, existing.api_key.as_ref(), None, "api_key") {
        Ok(v) => v,
        Err(e) => return Err(e),
    };
    Ok(SetupFields { provider: p, base_url, model, api_key })
}

/// What the interactive setup offers as each answer's default: the value
/// given or the existing one (the first that is not blank), else, for the
/// model and base URL, the preset's default.
#[derive(Debug, Clone, PartialEq, Eq)]
pub struct PromptDefaults {
    pub model: Option<String>,
    pub base_url: Option<String>,
    pub api_key: Option<String>,
}

/// A value or, when there is none, a fallback.
pub open spec fn or_else(v: Option<Seq<char>>, fallback: Option<Seq<char>>) -> Option<Seq<char>> {
    match v {
        Some(x) => Some(x),
        None => fallback,
    }
}

/// The defaults the interactive setup offers for preset `provider`.
pub fn prompt_defaults(
    provider: ProviderPreset,
    base_url: Option<&String>,
    model: Option<&String>,
    api_key: Option<&String>,
    existing: &EmbeddingDraft,
) -> (r: PromptDefaults)
    ensures
        opt_str(r.model) == or_else(spec_first_non_empty(opt_ref_view(model), opt_str(existing.model)), preset_model(provider)),
        opt_str(r.base_url) == or_else(spec_first_non_empty(opt_ref_view(base_url), opt_str(existing.base_url)), preset_base_url(provider)),
        opt_str(r.api_key) == spec_first_non_empty(opt_ref_view(api_key), opt_str(existing.api_key)),
{
    let m = match first_non_empty(model, existing.model.as_ref()) {
        Some(v) => Some(v.to_owned()),
        None => match provider.default_model() {
            Some(d) => Some(d.to_owned()),
            None => None,
        },
    };
    let b = match first_non_empty(base_url, existing.base_url.as_ref()) {
        Some(v) => Some(v.to_owned()),
        None => match provider.default_base_url() {
            Some(d) => Some(d.to_owned()),
            None => None,
        },
    };
    let k = match first_non_empty(api_key, existing.api_key.as_ref()) {
        Some(v) => Some(v.to_owned()),
        None => None,
    };
    PromptDefaults { model: m, base_url: b, api_key: k }
}

// ── Reading answers ────────────────────────────────────────────────────────

/// The question asked for a text answer: the label, and the default in
/// brackets when there is a non-empty one, then `: `.
pub open spec fn spec_text_prompt(label: Seq<char>, default: Option<Seq<char>>) -> Seq<char> {
    match default {
        Some(d) => if d.len() > 0 { label + " ["@ + d + "]: "@ } else { label + ": "@ },
        None => label + ": "@,
    }
}

/// The question asked for a text answer.
pub fn text_prompt(label: &str, default: Option<&str>) -> (r: String)
    ensures
        r@ == spec_text_prompt(label@, match default {
            Some(d) => Some(d@),
            None => None,
        }),
{
    let mut out: Vec<char> = Vec::new();
    push_str(&mut out, label);
    match default {
        Some(d) => {
            if !d.is_empty() {
                push_str(&mut out, " [");
                push_str(&mut out, d);
                push_str(&mut out, "]: ");
            } else {
                push_str(&mut out, ": ");
            }
        },
        None => push_str(&mut out, ": "),
    }
    string_of(&out)
}

/// The question asked for a secret: with a current value, a note that Enter
/// keeps it.
pub open spec fn spec_secret_prompt(label: Seq<char>, has_default: bool) -> Seq<char> {
    if has_default { label + " [press Enter to keep current value]: "@ } else { label + ": "@ }
}

/// The question asked for a secret.
pub fn secret_prompt(label: &str, has_default: bool) -> (r: String)
    ensures
        r@ == spec_secret_prompt(label@, has_default),
{
    let mut out: Vec<char> = Vec::new();
    push_str(&mut out, label);
    if has_default {
        push_str(&mut out, " [press Enter to keep current value]: ");
    } else {
        push_str(&mut out, ": ");
    }
    string_of(&out)
}

/// A text answer: the line typed, trimmed; an empty answer takes the
/// default, or the empty text when there is none.
pub open spec fn spec_entered_text(input: Seq<char>, default: Option<Seq<char>>) -> Seq<char> {
    if trim(input).len() == 0 {
        match default {
            Some(d) => d,
            None => Seq::empty(),
        }
    } else {
        trim(input)
    }
}

/// The text answer given by the line `input`.
pub fn entered_text(input: &str, default: Option<&str>) -> (r: String)
    ensures
        r@ == spec_entered_text(input@, match default {
            Some(d) => Some(d@),
            None => None,
        }),
{
    let v = chars_of(input);
    let t = trim_chars(&v);
    if t.len() == 0 {
        match default {
            Some(d) => d.to_owned(),
            None => string_of(&t),
        }
    } else {
        string_of(&t)
    }
}

/// A secret answer: the value typed when it is not blank (kept as typed),
/// else the current value when that is not blank; `None` asks again.
pub open spec fn spec_entered_secret(value: Seq<char>, default: Option<Seq<char>>) -> Option<Seq<char>> {
    if non_blank(value) {
        Some(value)
    } else if default matches Some(d) && non_blank(d) {
        default
    } else {
        None
    }
}

/// The secret given by the answer `value`, if it gives one.
pub fn entered_secret(value: &str, default: Option<&str>) -> (r: Option<String>)
    ensures
        opt_str(r) == spec_entered_secret(value@, match default {
            Some(d) => Some(d@),
            None => None,
        }),
{
    if is_non_blank(value) {
        return Some(value.to_owned());
    }
    match default {
        Some(d) => if is_non_blank(d) { Some(d.to_owned()) } else { None },
        None => None,
    }
}

/// The dimension given by a text answer: a positive number; `None` asks
/// again.
pub fn entered_dimension(value: &str) -> (r: Option<usize>)
    ensures
        match parse_bounded(value@, usize::MAX as nat) {
            Some(n) => if n > 0 { r == Some(n as usize) } else { r is None },
            None => r is None,
        },
{
    match parse_usize(value) {
        Some(n) => if n > 0 { Some(n) } else { None },
        None => None,
    }
}

/// The suffix a yes/no question shows, marking its default.
pub open spec fn yes_no_suffix(default_yes: bool) -> Seq<char> {
    if default_yes { "[Y/n]"@ } else { "[y/N]"@ }
}

/// A yes/no answer: an empty answer (or the suffix itself, which is what
/// the text prompt hands back for an empty line) takes the default; `y` or
/// `yes` is yes and `n` or `no` is no, in any case of ASCII letters and
/// with surrounding whitespace ignored; anything else asks again.
pub open spec fn spec_yes_no_answer(value: Seq<char>, default_yes: bool) -> Option<bool> {
    let answer = if value == yes_no_suffix(default_yes) { Seq::<char>::empty() } else { value };
    let a = lower_seq(trim(answer));
    if trim(answer).len() == 0 {
        Some(default_yes)
    } else if a == "y"@ || a == "yes"@ {
        Some(true)
    } else if a == "n"@ || a == "no"@ {
        Some(false)
    } else {
        None
    }
}

/// The suffix of a yes/no question.
pub fn yes_no_suffix_text(default_yes: bool) -> (r: &'static str)
    ensures
        r@ == yes_no_suffix(default_yes),
{
    if default_yes { "[Y/n]" } else { "[y/N]" }
}

/// Reads a yes/no answer.
pub fn yes_no_answer(value: &str, default_yes: bool) -> (r: Option<bool>)
    ensures
        r == spec_yes_no_answer(value@, default_yes),
{
    let suffix = yes_no_suffix_text(default_yes);
    let v = if str_eq(value, suffix) { Vec::new() } else { chars_of(value) };
    proof {
        if value@ == yes_no_suffix(default_yes) {
            assert(v@ =~= Seq::<char>::empty());
        }
    }
    let t = trim_chars(&v);
    if t.len() == 0 {
        return Some(default_yes);
    }
    let a = to_lower(&t);
    let y = chars_of("y");
    let yes = chars_of("yes");
    let n = chars_of("n");
    let no = chars_of("no");
    if chars_eq(&a, &y) || chars_eq(&a, &yes) {
        Some(true)
    } else if chars_eq(&a, &n) || chars_eq(&a, &no) {
        Some(false)
    } else {
        None
    }
}


// ── Guards of the setup command ────────────────────────────────────────────

/// Why a setup was refused.
#[derive(Debug, Clone, Copy, PartialEq, Eq, Structural)]
pub enum SetupRefused {
    /// A setup without questions would overwrite an existing configuration
    /// without `--force`.
    ConfigExists,
}

/// A setup without questions does not overwrite an existing configuration
/// unless forced.
pub fn check_setup_overwrite(non_interactive: bool, has_existing: bool, force: bool) -> (r: Result<(), SetupRefused>)
    ensures
        r is Err <==> (non_interactive && has_existing && !force),
{
    if non_interactive && has_existing && !force {
        Err(SetupRefused::ConfigExists)
    } else {
        Ok(())
    }
}

/// Whether the setup asks before writing the configuration: only an
/// interactive setup, and only without `--force` or `--yes`.
pub fn asks_before_writing(non_interactive: bool, force: bool, yes: bool) -> (r: bool)
    ensures
        r == (!non_interactive && !force && !yes),
{
    !non_interactive && !force && !yes
}


/// The number that selects a preset in the setup menu.
pub open spec fn spec_provider_choice(p: ProviderPreset) -> Seq<char> {
    match p {
        ProviderPreset::Deepinfra => "1"@,
        ProviderPreset::OpenaiCompatible => "2"@,
        ProviderPreset::Custom => "3"@,
    }
}

/// The number that selects `p` in the setup menu.
pub fn provider_choice(p: ProviderPreset) -> (r: &'static str)
    ensures
        r@ == spec_provider_choice(p),
{
    match p {
        ProviderPreset::Deepinfra => "1",
        ProviderPreset::OpenaiCompatible => "2",
        ProviderPreset::Custom => "3",
    }
}

/// The preset selected by a menu answer: `1`, `2` or `3`; anything else
/// asks again.
pub fn provider_from_choice(answer: &str) -> (r: Option<ProviderPreset>)
    ensures
        r matches Some(p) ==> spec_provider_choice(p) == answer@,
        r is None ==> (answer@ != "1"@ && answer@ != "2"@ && answer@ != "3"@),
{
    if str_eq(answer, "1") {
        Some(ProviderPreset::Deepinfra)
    } else if str_eq(answer, "2") {
        Some(ProviderPreset::OpenaiCompatible)
    } else if str_eq(answer, "3") {
        Some(ProviderPreset::Custom)
    } else {
        None
    }
}

} // verus!
