//! Reading settlement data out of the feed's marker texts.
//!
//! Matching is done by the `regex` crate; what a pattern captures in a text is a function
//! of the two strings, named `regex_captures`. Everything done with the captures is
//! verified, in functions that take them as arguments.
use crate::text::{
    chars_of, eq_ascii_folded, eq_ignore_ascii_case, split_commas_trimmed, split_trimmed,
    string_of, strings_view, trim, trim_chars, unescape, unescape_html_unicode,
};
use vstd::prelude::*;

verus! {

/// Settlement name and optional alliance in a point marker's tooltip.
pub const TOOLTIP_PATTERN: &'static str = r"(?i)<bold>\s*([^\(<]+?)(?:\s*\(([^)]+)\))?\s*</bold>";

/// Settlement name and optional alliance in the styled title of a territory popup.
pub const TOWN_PATTERN: &'static str =
    r#"<span[^>]*font-size[^>]*>\s*([^\(<]+?)(?:\s*\(([^)]+)\))?\s*</span>"#;

/// Leader name in a territory popup.
pub const MAYOR_PATTERN: &'static str = r"Mayor:\s*<span[^>]*>\s*([^<]+)\s*</span>";

/// PVP flag in a territory popup, `true` or `false` in any case.
pub const PVP_PATTERN: &'static str = r"PVP:\s*<span[^>]*>\s*((?i:true|false))\s*</span>";

/// Assistant list in a territory popup.
pub const ASSISTANTS_PATTERN: &'static str = r"Assistants:\s*<span[^>]*>\s*([^<]+)\s*</span>";

/// Resident list in a territory popup.
pub const RESIDENTS_PATTERN: &'static str = r"Residents:\s*</bold>\s*<span>\s*([^<]+)\s*</span>";

/// Capture groups 1 and 2 of the first match of a pattern, each present when it took part.
pub type Captures = Option<(Option<String>, Option<String>)>;

/// Capture groups as character sequences.
pub type CapturesView = Option<(Option<Seq<char>>, Option<Seq<char>>)>;

/// What `regex` finds for `pattern` in `text`: `None` when the pattern does not compile or
/// does not match, else groups 1 and 2 of the leftmost match.
pub uninterp spec fn regex_captures(pattern: Seq<char>, text: Seq<char>) -> CapturesView;

pub open spec fn opt_view(o: Option<String>) -> Option<Seq<char>> {
    match o {
        Some(s) => Some(s@),
        None => None,
    }
}

pub open spec fn captures_view(c: Captures) -> CapturesView {
    match c {
        Some((a, b)) => Some((opt_view(a), opt_view(b))),
        None => None,
    }
}

/// Relies on `regex::Regex::new` to compile `pattern` (an error gives no match) and on
/// `regex::Regex::captures` with `Captures::get` for groups 1 and 2 of the leftmost match.
#[verifier::external_body]
fn first_captures(pattern: &str, text: &str) -> (r: Captures)
    ensures
        captures_view(r) == regex_captures(pattern@, text@),
{
    let re = match regex::Regex::new(pattern) {
        Ok(re) => re,
        Err(_) => return None,
    };
    let caps = re.captures(text)?;
    let one = caps.get(1).map(|m| m.as_str().to_string());
    let two = caps.get(2).map(|m| m.as_str().to_string());
    Some((one, two))
}

/// Group 1 of a match, if the pattern matched and the group took part.
pub open spec fn group1(c: CapturesView) -> Option<Seq<char>> {
    match c {
        Some((Some(g), _)) => Some(g),
        _ => None,
    }
}

/// Group 2 of a match, trimmed; empty when it did not take part.
pub open spec fn trimmed_group2(c: CapturesView) -> Seq<char> {
    match c {
        Some((_, Some(g))) => trim(g),
        _ => Seq::empty(),
    }
}

/// Settlement and alliance names read from the captures of a name pattern: both trimmed,
/// the alliance empty when absent.
pub open spec fn names_from(c: CapturesView) -> Option<(Seq<char>, Seq<char>)> {
    match group1(c) {
        Some(g) => Some((trim(g), trimmed_group2(c))),
        None => None,
    }
}

/// Settlement and alliance names in a tooltip, after undoing its escapes.
pub open spec fn tooltip_names(tooltip: Seq<char>) -> Option<(Seq<char>, Seq<char>)> {
    names_from(regex_captures(TOOLTIP_PATTERN@, unescape(tooltip)))
}

pub open spec fn pair_view(p: Option<(String, String)>) -> Option<(Seq<char>, Seq<char>)> {
    match p {
        Some((a, b)) => Some((a@, b@)),
        None => None,
    }
}

fn trimmed_string(s: &String) -> (r: String)
    ensures
        r@ == trim(s@),
{
    let v = chars_of(s.as_str());
    let t = trim_chars(v.as_slice());
    string_of(t.as_slice())
}

/// The settlement name (group 1) and alliance (group 2, or empty) of a name match, both
/// trimmed; `None` when there was no match or group 1 did not take part.
pub fn names_from_captures(caps: &Captures) -> (r: Option<(String, String)>)
    ensures
        pair_view(r) == names_from(captures_view(*caps)),
{
    match caps {
        Some((Some(name), alliance)) => {
            let n = trimmed_string(name);
            let a = match alliance {
                Some(a) => trimmed_string(a),
                None => String::new(),
            };
            Some((n, a))
        },
        _ => None,
    }
}

/// Settlement name and alliance name (empty when absent) from a point marker's tooltip.
pub fn parse_dynmap_tooltip(tooltip: &str) -> (r: Option<(String, String)>)
    ensures
        pair_view(r) == tooltip_names(tooltip@),
{
    let decoded = unescape_html_unicode(tooltip);
    let caps = first_captures(TOOLTIP_PATTERN, decoded.as_str());
    names_from_captures(&caps)
}

/// The attributes of a settlement read from a territory marker's popup.
#[derive(Debug)]
pub struct PopupInfo {
    pub name: String,
    pub nation: String,
    pub mayor: String,
    pub pvp: bool,
    pub assistants: Vec<String>,
    pub residents: Vec<String>,
}

/// A `PopupInfo` as character sequences.
pub struct PopupView {
    pub name: Seq<char>,
    pub nation: Seq<char>,
    pub mayor: Seq<char>,
    pub pvp: bool,
    pub assistants: Seq<Seq<char>>,
    pub residents: Seq<Seq<char>>,
}

impl View for PopupInfo {
    type V = PopupView;

    open spec fn view(&self) -> PopupView {
        PopupView {
            name: self.name@,
            nation: self.nation@,
            mayor: self.mayor@,
            pvp: self.pvp,
            assistants: strings_view(self.assistants@),
            residents: strings_view(self.residents@),
        }
    }
}

pub open spec fn popup_opt_view(o: Option<PopupInfo>) -> Option<PopupView> {
    match o {
        Some(p) => Some(p@),
        None => None,
    }
}

/// The attributes given by the captures of the five popup patterns; `None` unless each
/// pattern matched with its group 1. The assistant list is empty when it reads `none` in
/// any case; the flag is set when it reads `true` in any case.
pub open spec fn popup_from(
    town: CapturesView,
    mayor: CapturesView,
    pvp: CapturesView,
    assistants: CapturesView,
    residents: CapturesView,
) -> Option<PopupView> {
    if group1(town) is Some && group1(mayor) is Some && group1(pvp) is Some && group1(
        assistants,
    ) is Some && group1(residents) is Some {
        let a = trim(group1(assistants)->0);
        Some(
            PopupView {
                name: trim(group1(town)->0),
                nation: trimmed_group2(town),
                mayor: trim(group1(mayor)->0),
                pvp: eq_ascii_folded(trim(group1(pvp)->0), "true"@),
                assistants: if eq_ascii_folded(a, "none"@) {
                    Seq::empty()
                } else {
                    split_trimmed(a)
                },
                residents: split_trimmed(trim(group1(residents)->0)),
            },
        )
    } else {
        None
    }
}

/// The attributes in a territory popup, after undoing its escapes.
pub open spec fn popup_fields(popup: Seq<char>) -> Option<PopupView> {
    let d = unescape(popup);
    popup_from(
        regex_captures(TOWN_PATTERN@, d),
        regex_captures(MAYOR_PATTERN@, d),
        regex_captures(PVP_PATTERN@, d),
        regex_captures(ASSISTANTS_PATTERN@, d),
        regex_captures(RESIDENTS_PATTERN@, d),
    )
}

fn group1_chars(c: &Captures) -> (r: Option<Vec<char>>)
    ensures
        match r {
            Some(v) => group1(captures_view(*c)) is Some && v@ == trim(
                group1(captures_view(*c))->0,
            ),
            None => group1(captures_view(*c)) is None,
        },
{
    match c {
        Some((Some(g), _)) => {
            let v = chars_of(g.as_str());
            Some(trim_chars(v.as_slice()))
        },
        _ => None,
    }
}

/// Settlement attributes from the captures of the five popup patterns (name, leader, PVP
/// flag, assistants, residents); `None` when any of them failed.
pub fn popup_from_captures(
    town: &Captures,
    mayor: &Captures,
    pvp: &Captures,
    assistants: &Captures,
    residents: &Captures,
) -> (r: Option<PopupInfo>)
    ensures
        popup_opt_view(r) == popup_from(
            captures_view(*town),
            captures_view(*mayor),
            captures_view(*pvp),
            captures_view(*assistants),
            captures_view(*residents),
        ),
{
    let names = match names_from_captures(town) {
        Some(n) => n,
        None => return None,
    };
    let mayor_v = match group1_chars(mayor) {
        Some(v) => v,
        None => return None,
    };
    let pvp_v = match group1_chars(pvp) {
        Some(v) => v,
        None => return None,
    };
    let assistants_v = match group1_chars(assistants) {
        Some(v) => v,
        None => return None,
    };
    let residents_v = match group1_chars(residents) {
        Some(v) => v,
        None => return None,
    };
    let assistant_list = if eq_ignore_ascii_case(assistants_v.as_slice(), "none") {
        let none: Vec<String> = Vec::new();
        proof {
            assert(strings_view(none@) =~= Seq::<Seq<char>>::empty());
        }
        none
    } else {
        split_commas_trimmed(assistants_v.as_slice())
    };
    let (name, nation) = names;
    Some(
        PopupInfo {
            name,
            nation,
            mayor: string_of(mayor_v.as_slice()),
            pvp: eq_ignore_ascii_case(pvp_v.as_slice(), "true"),
            assistants: assistant_list,
            residents: split_commas_trimmed(residents_v.as_slice()),
        },
    )
}

/// Settlement attributes from a territory marker's popup; `None` when any of the five
/// fields is missing.
pub fn parse_dynmap_popup(popup: &str) -> (r: Option<PopupInfo>)
    ensures
        popup_opt_view(r) == popup_fields(popup@),
{
    let decoded = unescape_html_unicode(popup);
    let d = decoded.as_str();
    let town = first_captures(TOWN_PATTERN, d);
    let mayor = first_captures(MAYOR_PATTERN, d);
    let pvp = first_captures(PVP_PATTERN, d);
    let assistants = first_captures(ASSISTANTS_PATTERN, d);
    let residents = first_captures(RESIDENTS_PATTERN, d);
    popup_from_captures(&town, &mayor, &pvp, &assistants, &residents)
}

/// A popup yields nothing when any one of its five fields cannot be read, whatever the
/// other four hold.
pub proof fn lemma_popup_needs_every_field(popup: Seq<char>)
    ensures
        ({
            let d = unescape(popup);
            group1(regex_captures(TOWN_PATTERN@, d)) is None || group1(
                regex_captures(MAYOR_PATTERN@, d),
            ) is None || group1(regex_captures(PVP_PATTERN@, d)) is None || group1(
                regex_captures(ASSISTANTS_PATTERN@, d),
            ) is None || group1(regex_captures(RESIDENTS_PATTERN@, d)) is None
        }) ==> popup_fields(popup) is None,
{
}

} // verus!
