use towny_map::extract::{names_from_captures, parse_dynmap_popup, parse_dynmap_tooltip, popup_from_captures};

const TITLE: &str = r#"<span style="font-size:120%">Ashgrove (Ember)</span>"#;
const MAYOR: &str = r#"Mayor: <span style="font-weight:bold">Mara</span>"#;
const PVP: &str = r#"PVP: <span style="font-weight:bold">false</span>"#;
const ASSISTANTS: &str = r#"Assistants: <span style="font-weight:bold">none</span>"#;
const RESIDENTS: &str = r#"<bold>Residents: </bold><span>Mara, Jon</span>"#;

fn popup_without(skip: usize) -> String {
    let parts = [TITLE, MAYOR, PVP, ASSISTANTS, RESIDENTS];
    let mut s = String::from("<div>");
    for (i, p) in parts.iter().enumerate() {
        if i != skip {
            s.push_str(p);
            s.push_str("<br/>");
        }
    }
    s.push_str("</div>");
    s
}

#[test]
fn tooltip_with_alliance() {
    assert_eq!(
        parse_dynmap_tooltip("<bold>Ashgrove (Ember)</bold>"),
        Some(("Ashgrove".to_string(), "Ember".to_string()))
    );
}

#[test]
fn tooltip_without_alliance() {
    assert_eq!(
        parse_dynmap_tooltip("<bold>Ashgrove</bold>"),
        Some(("Ashgrove".to_string(), String::new()))
    );
}

#[test]
fn tooltip_without_bold_tag() {
    assert_eq!(parse_dynmap_tooltip("Ashgrove (Ember)"), None);
    assert_eq!(parse_dynmap_tooltip(""), None);
}

#[test]
fn tooltip_escaped_and_any_case() {
    assert_eq!(
        parse_dynmap_tooltip(r"\u003cBOLD\u003e  Ashgrove  ( Ember ) \u003c/BOLD\u003e"),
        Some(("Ashgrove".to_string(), "Ember".to_string()))
    );
}

#[test]
fn names_from_given_captures() {
    let caps = Some((Some("  Oak Hill ".to_string()), Some(" North ".to_string())));
    assert_eq!(names_from_captures(&caps), Some(("Oak Hill".to_string(), "North".to_string())));
    let caps = Some((Some("Oak".to_string()), None));
    assert_eq!(names_from_captures(&caps), Some(("Oak".to_string(), String::new())));
    assert_eq!(names_from_captures(&Some((None, Some("x".to_string())))), None);
    assert_eq!(names_from_captures(&None), None);
}

#[test]
fn popup_with_all_fields() {
    let p = parse_dynmap_popup(&popup_without(99)).unwrap();
    assert_eq!(p.name, "Ashgrove");
    assert_eq!(p.nation, "Ember");
    assert_eq!(p.mayor, "Mara");
    assert!(!p.pvp);
    assert!(p.assistants.is_empty());
    assert_eq!(p.residents, vec!["Mara", "Jon"]);
}

#[test]
fn popup_escaped() {
    let escaped = popup_without(99).replace('<', r"\u003c").replace('>', r"\u003e").replace('"', r"\u0022");
    let p = parse_dynmap_popup(&escaped).unwrap();
    assert_eq!(p.name, "Ashgrove");
    assert_eq!(p.residents, vec!["Mara", "Jon"]);
}

#[test]
fn popup_missing_any_field_fails() {
    for skip in 0..5 {
        assert!(parse_dynmap_popup(&popup_without(skip)).is_none(), "field {}", skip);
    }
}

#[test]
fn popup_from_given_captures() {
    let g = |s: &str| Some((Some(s.to_string()), None));
    let town = Some((Some("Oak ".to_string()), Some("North".to_string())));
    let p = popup_from_captures(&town, &g(" Ida "), &g("TRUE"), &g("Bo, Cy"), &g("Ida,Bo , Cy")).unwrap();
    assert_eq!(p.name, "Oak");
    assert_eq!(p.nation, "North");
    assert_eq!(p.mayor, "Ida");
    assert!(p.pvp);
    assert_eq!(p.assistants, vec!["Bo", "Cy"]);
    assert_eq!(p.residents, vec!["Ida", "Bo", "Cy"]);
    let none = popup_from_captures(&town, &g("Ida"), &g("false"), &g("NONE"), &g("Ida")).unwrap();
    assert!(none.assistants.is_empty());
    assert!(!none.pvp);
    assert!(popup_from_captures(&town, &None, &g("true"), &g("none"), &g("Ida")).is_none());
    assert!(popup_from_captures(&town, &g("Ida"), &g("true"), &g("none"), &None).is_none());
}

#[test]
fn popup_pvp_flag_in_any_case() {
    let text = "<span style='font-size:12px'>Ashgrove (Ember)</span>Mayor: <span>Mara</span>PVP: <span>TRUE</span>Assistants: <span>none</span><bold>Residents: </bold><span>Mara, Jon</span>";
    let p = parse_dynmap_popup(text).unwrap();
    assert!(p.pvp);
    assert_eq!(p.name, "Ashgrove");
    assert_eq!(p.residents, vec!["Mara", "Jon"]);
    let off = parse_dynmap_popup(&text.replace("TRUE", "False")).unwrap();
    assert!(!off.pvp);
}
