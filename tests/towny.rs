use towny_map::extract::PopupInfo;
use towny_map::geometry::Point;
use towny_map::markers::{IconMarker, Marker, MarkerGroup, PolygonMarker, PolylineMarker};
use towny_map::towny::{build_towny_info, Location, TownInfo, TownyInfo, World};

fn icon(icon: &str, tooltip: &str, x: i32, z: i32) -> Marker {
    Marker::Icon(IconMarker {
        tooltip_anchor: None,
        popup: None,
        size: None,
        anchor: None,
        tooltip: Some(tooltip.to_string()),
        icon: icon.to_string(),
        point: Point { x, z },
    })
}

fn popup(name: &str, nation: &str, mayor: &str, pvp: &str, assistants: &str, residents: &str) -> String {
    format!(
        r#"<div><span style="font-size:120%">{} ({})</span><br/>Mayor: <span style="font-weight:bold">{}</span><br/>PVP: <span style="font-weight:bold">{}</span><br/>Assistants: <span style="font-weight:bold">{}</span><br/><bold>Residents: </bold><span>{}</span></div>"#,
        name, nation, mayor, pvp, assistants, residents
    )
}

fn square(x0: i32, z0: i32, side: i32) -> Vec<Point> {
    vec![
        Point { x: x0, z: z0 },
        Point { x: x0 + side, z: z0 },
        Point { x: x0 + side, z: z0 + side },
        Point { x: x0, z: z0 + side },
    ]
}

fn polygon(text: String, points: Vec<Vec<Vec<Point>>>) -> Marker {
    Marker::Polygon(PolygonMarker { popup: Some(text), tooltip: None, fill_color: None, color: None, points })
}

fn group(markers: Vec<Marker>) -> MarkerGroup {
    MarkerGroup {
        hide: false,
        z_index: 0,
        name: "Towny".to_string(),
        control: true,
        id: "towny".to_string(),
        markers,
        order: 0,
        timestamp: 0,
    }
}

#[test]
fn capital_then_territory_end_to_end() {
    let groups = vec![group(vec![
        icon("towny_capital_icon", "<bold>Ashgrove (Ember)</bold>", 160, 320),
        polygon(popup("Ashgrove", "Ember", "Mara", "false", "none", "Mara, Jon"), vec![vec![square(0, 0, 256)]]),
    ])];
    let info = build_towny_info(&groups);
    let town = info.town("Ashgrove").unwrap();
    assert_eq!(town.spawn, Location { x: 160, y: 64, z: 320, world: World::Mainworld });
    assert!(town.is_capital);
    assert_eq!(town.size, 256);
    assert!(town.assistants.is_empty());
    assert_eq!(town.residents, vec!["Mara", "Jon"]);
    assert_eq!(town.name, "Ashgrove");
    assert_eq!(town.mayor, "Mara");
    assert!(!town.pvp);
    let nation = info.nation("Ember").unwrap();
    assert_eq!(nation.name, "Ember");
    assert_eq!(nation.capital, "Ashgrove");
    assert_eq!(nation.towns, vec!["Ashgrove"]);
    assert_eq!(info.town_count(), 1);
    assert_eq!(info.nation_count(), 1);
}

#[test]
fn member_before_capital_leaves_alliance_unnamed() {
    let mut info = TownyInfo::new();
    info.apply_marker(&icon("towny_town_icon", "<bold>Birchford (Ember)</bold>", 0, 0));
    let nation = info.nation("Ember").unwrap();
    assert_eq!(nation.name, "");
    assert_eq!(nation.capital, "");
    assert_eq!(nation.towns, vec!["Birchford"]);
    info.apply_marker(&icon("towny_town_icon", "<bold>Cedarwick (Ember)</bold>", 0, 0));
    assert_eq!(info.nation("Ember").unwrap().name, "");
    info.apply_marker(&icon("towny_capital_icon", "<bold>Ashgrove (Ember)</bold>", 0, 0));
    let nation = info.nation("Ember").unwrap();
    assert_eq!(nation.name, "Ember");
    assert_eq!(nation.capital, "Ashgrove");
    assert_eq!(nation.towns, vec!["Birchford", "Cedarwick", "Ashgrove"]);
    assert!(!info.town("Birchford").unwrap().is_capital);
}

#[test]
fn territory_then_icon_keeps_both_halves() {
    let groups = vec![
        group(vec![polygon(popup("Oakvale", "North", "Ida", "true", "Bo, Cy", "Ida, Bo, Cy"), vec![vec![square(0, 0, 64)], vec![square(160, 160, 32)]])]),
        group(vec![icon("towny_town_icon", "<bold>Oakvale (North)</bold>", -40, 12)]),
    ];
    let info = build_towny_info(&groups);
    let town = info.town("Oakvale").unwrap();
    assert_eq!(town.size, 20);
    assert_eq!(town.nation, "North");
    assert!(town.pvp);
    assert_eq!(town.assistants, vec!["Bo", "Cy"]);
    assert_eq!(town.spawn, Location { x: -40, y: 64, z: 12, world: World::Mainworld });
    assert!(!town.is_capital);
    assert_eq!(info.nation("North").unwrap().towns, vec!["Oakvale"]);
}

#[test]
fn icon_only_town_has_empty_popup_fields() {
    let info = build_towny_info(&vec![group(vec![icon("towny_town_icon", "<bold>Lone</bold>", 5, 6)])]);
    let town = info.town("Lone").unwrap();
    assert_eq!(town.name, "");
    assert_eq!(town.size, 0);
    assert!(town.residents.is_empty());
    assert_eq!(info.nation_count(), 0);
}

#[test]
fn territory_only_town_has_default_spawn() {
    let info = build_towny_info(&vec![group(vec![polygon(popup("Reed", "South", "Al", "false", "none", "Al"), vec![])])]);
    let town = info.town("Reed").unwrap();
    assert_eq!(town.spawn, Location { x: 0, y: 0, z: 0, world: World::Unknown });
    assert!(!town.is_capital);
    assert_eq!(town.size, 0);
    assert_eq!(info.nation_count(), 0);
}

#[test]
fn other_markers_are_skipped() {
    let groups = vec![group(vec![
        icon("shop_icon", "<bold>Ashgrove (Ember)</bold>", 1, 2),
        icon("towny_town_icon", "no tag here", 1, 2),
        polygon("Mayor: nobody".to_string(), vec![vec![square(0, 0, 64)]]),
        Marker::Polyline(PolylineMarker { tooltip: Some("<bold>Road</bold>".to_string()), color: None, points: vec![] }),
    ])];
    let info = build_towny_info(&groups);
    assert_eq!(info.town_count(), 0);
    assert_eq!(info.nation_count(), 0);
    assert!(info.town("Ashgrove").is_none());
    assert!(build_towny_info(&vec![]).town_count() == 0);
}

#[test]
fn later_icon_moves_spawn() {
    let mut info = TownyInfo::new();
    info.apply_marker(&icon("towny_capital_icon", "<bold>Ash (Ember)</bold>", 1, 2));
    info.apply_marker(&icon("towny_town_icon", "<bold>Ash (Ember)</bold>", 3, 4));
    let town = info.town("Ash").unwrap();
    assert_eq!(town.spawn, Location { x: 3, y: 64, z: 4, world: World::Mainworld });
    assert!(!town.is_capital);
    assert_eq!(info.town_count(), 1);
    let nation = info.nation("Ember").unwrap();
    assert_eq!(nation.capital, "Ash");
    assert_eq!(nation.towns, vec!["Ash", "Ash"]);
}

#[test]
fn town_info_from_popup() {
    let p = PopupInfo {
        name: "Ash".to_string(),
        nation: "Ember".to_string(),
        mayor: "Mara".to_string(),
        pvp: true,
        assistants: vec![],
        residents: vec!["Mara".to_string()],
    };
    let t = TownInfo::from(p);
    assert_eq!(t.name, "Ash");
    assert_eq!(t.spawn, Location { x: 0, y: 64, z: 0, world: World::Unknown });
    assert_eq!(t.size, 0);
    assert!(!t.is_capital);
    assert_eq!(World::default(), World::Unknown);
}
