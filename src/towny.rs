//! Settlement ("town") and alliance ("nation") records built from the marker feed.
//!
//! Both collections are kept as vectors of `(key, record)` pairs in the order in which
//! keys were first seen; no key occurs twice. `build_towny_info` folds every marker of
//! every group, in feed order, into them; `towny_of` is that fold over the records' views.
use crate::extract::{
    parse_dynmap_popup, parse_dynmap_tooltip, popup_fields, tooltip_names, PopupInfo, PopupView,
};
use crate::geometry::{multipolygon_area, multipolygon_area_of, Point};
use crate::markers::{Marker, MarkerGroup};
use crate::text::{chars_of, same_text, strings_view};
use vstd::prelude::*;

verus! {

/// Icon of a point marker that stands for an alliance's capital.
pub const CAPITAL_ICON: &'static str = "towny_capital_icon";

/// Icon of a point marker that stands for any other settlement.
pub const TOWN_ICON: &'static str = "towny_town_icon";

/// Height given to a spawn point read from a point marker.
pub const SPAWN_HEIGHT: i32 = 64;

/// The dimension a location lies in.
#[derive(Clone, Copy, Debug, PartialEq, Eq, Structural)]
pub enum World {
    Mainworld,
    Nether,
    Spawn,
    Resource,
    End,
    Dungeon,
    Unknown,
}

impl Default for World {
    fn default() -> (r: World)
        ensures
            r == World::Unknown,
    {
        World::Unknown
    }
}

/// A position in whole blocks.
#[derive(Clone, Copy, Debug, PartialEq, Eq, Structural)]
pub struct Location {
    pub x: i32,
    pub y: i32,
    pub z: i32,
    pub world: World,
}

pub open spec fn origin() -> Location {
    Location { x: 0, y: 0, z: 0, world: World::Unknown }
}

/// A player seen on the map.
#[derive(Debug)]
pub struct OnlinePlayer {
    pub armor: i8,
    pub health: i8,
    pub location: Location,
    pub name: String,
    pub uuid: String,
    pub yaw: i8,
}

/// A settlement: what its territory popup says, its spawn point and whether its point
/// marker shows it as a capital, and its territory size in chunks.
#[derive(Debug)]
pub struct TownInfo {
    pub name: String,
    pub nation: String,
    pub mayor: String,
    pub pvp: bool,
    pub assistants: Vec<String>,
    pub residents: Vec<String>,
    pub spawn: Location,
    pub is_capital: bool,
    pub size: i32,
}

pub struct TownView {
    pub name: Seq<char>,
    pub nation: Seq<char>,
    pub mayor: Seq<char>,
    pub pvp: bool,
    pub assistants: Seq<Seq<char>>,
    pub residents: Seq<Seq<char>>,
    pub spawn: Location,
    pub is_capital: bool,
    pub size: int,
}

impl View for TownInfo {
    type V = TownView;

    open spec fn view(&self) -> TownView {
        TownView {
            name: self.name@,
            nation: self.nation@,
            mayor: self.mayor@,
            pvp: self.pvp,
            assistants: strings_view(self.assistants@),
            residents: strings_view(self.residents@),
            spawn: self.spawn,
            is_capital: self.is_capital,
            size: self.size as int,
        }
    }
}

/// A settlement record holding what a popup says, with no spawn point read yet.
impl From<PopupInfo> for TownInfo {
    fn from(popup: PopupInfo) -> (r: TownInfo) {
        TownInfo {
            name: popup.name,
            nation: popup.nation,
            mayor: popup.mayor,
            pvp: popup.pvp,
            assistants: popup.assistants,
            residents: popup.residents,
            spawn: Location { x: 0, y: SPAWN_HEIGHT, z: 0, world: World::Unknown },
            is_capital: false,
            size: 0,
        }
    }
}

impl vstd::std_specs::convert::FromSpecImpl<PopupInfo> for TownInfo {
    open spec fn obeys_from_spec() -> bool {
        true
    }

    open spec fn from_spec(popup: PopupInfo) -> TownInfo {
        TownInfo {
            name: popup.name,
            nation: popup.nation,
            mayor: popup.mayor,
            pvp: popup.pvp,
            assistants: popup.assistants,
            residents: popup.residents,
            spawn: Location { x: 0, y: SPAWN_HEIGHT, z: 0, world: World::Unknown },
            is_capital: false,
            size: 0,
        }
    }
}

/// An alliance: its name and capital once its capital has been seen, and the settlements
/// seen for it, in feed order.
#[derive(Debug)]
pub struct NationInfo {
    pub name: String,
    pub capital: String,
    pub towns: Vec<String>,
}

pub struct NationView {
    pub name: Seq<char>,
    pub capital: Seq<char>,
    pub towns: Seq<Seq<char>>,
}

impl View for NationInfo {
    type V = NationView;

    open spec fn view(&self) -> NationView {
        NationView {
            name: self.name@,
            capital: self.capital@,
            towns: strings_view(self.towns@),
        }
    }
}

/// Settlements keyed by name and alliances keyed by name.
#[derive(Debug)]
pub struct TownyInfo {
    town_infos: Vec<(String, TownInfo)>,
    nation_infos: Vec<(String, NationInfo)>,
}

pub struct TownyView {
    pub towns: Seq<(Seq<char>, TownView)>,
    pub nations: Seq<(Seq<char>, NationView)>,
}

impl View for TownyInfo {
    type V = TownyView;

    closed spec fn view(&self) -> TownyView {
        TownyView {
            towns: self.town_infos@.map_values(|e: (String, TownInfo)| (e.0@, e.1@)),
            nations: self.nation_infos@.map_values(|e: (String, NationInfo)| (e.0@, e.1@)),
        }
    }
}

/// Index of the first entry from `i` on whose key is `key`, or -1.
pub open spec fn find_key<V>(entries: Seq<(Seq<char>, V)>, key: Seq<char>, i: nat) -> int
    decreases entries.len() - i,
{
    if i >= entries.len() {
        -1
    } else if entries[i as int].0 == key {
        i as int
    } else {
        find_key(entries, key, i + 1)
    }
}

/// No key occurs twice.
pub open spec fn keys_unique<V>(entries: Seq<(Seq<char>, V)>) -> bool {
    forall|i: int, j: int|
        0 <= i < j < entries.len() ==> #[trigger] entries[i].0 != #[trigger] entries[j].0
}

pub open spec fn empty_towny() -> TownyView {
    TownyView { towns: Seq::empty(), nations: Seq::empty() }
}

/// `Some(true)` for the capital icon, `Some(false)` for the settlement icon.
pub open spec fn icon_kind(icon: Seq<char>) -> Option<bool> {
    if icon == CAPITAL_ICON@ {
        Some(true)
    } else if icon == TOWN_ICON@ {
        Some(false)
    } else {
        None
    }
}

/// The records after a point marker at `p` named settlement `town` of alliance `nation`.
pub open spec fn icon_step(
    st: TownyView,
    town: Seq<char>,
    nation: Seq<char>,
    capital: bool,
    p: Point,
) -> TownyView {
    let spawn = Location { x: p.x, y: SPAWN_HEIGHT, z: p.z, world: World::Mainworld };
    let ti = find_key(st.towns, town, 0);
    let towns = if ti < 0 {
        st.towns.push(
            (
                town,
                TownView {
                    name: Seq::empty(),
                    nation: Seq::empty(),
                    mayor: Seq::empty(),
                    pvp: false,
                    assistants: Seq::empty(),
                    residents: Seq::empty(),
                    spawn: spawn,
                    is_capital: capital,
                    size: 0,
                },
            ),
        )
    } else {
        let old = st.towns[ti].1;
        st.towns.update(
            ti,
            (
                town,
                TownView {
                    name: old.name,
                    nation: old.nation,
                    mayor: old.mayor,
                    pvp: old.pvp,
                    assistants: old.assistants,
                    residents: old.residents,
                    spawn: spawn,
                    is_capital: capital,
                    size: old.size,
                },
            ),
        )
    };
    let ni = find_key(st.nations, nation, 0);
    let nations = if nation.len() == 0 {
        st.nations
    } else if ni < 0 {
        st.nations.push(
            (
                nation,
                NationView {
                    name: if capital {
                        nation
                    } else {
                        Seq::empty()
                    },
                    capital: if capital {
                        town
                    } else {
                        Seq::empty()
                    },
                    towns: seq![town],
                },
            ),
        )
    } else {
        let old = st.nations[ni].1;
        st.nations.update(
            ni,
            (
                nation,
                NationView {
                    name: if capital {
                        nation
                    } else {
                        old.name
                    },
                    capital: if capital {
                        town
                    } else {
                        old.capital
                    },
                    towns: old.towns.push(town),
                },
            ),
        )
    };
    TownyView { towns, nations }
}

/// The records after a territory marker whose popup reads `p` and whose area is `size`.
pub open spec fn polygon_step(st: TownyView, p: PopupView, size: int) -> TownyView {
    let ti = find_key(st.towns, p.name, 0);
    let (spawn, is_capital) = if ti < 0 {
        (origin(), false)
    } else {
        (st.towns[ti].1.spawn, st.towns[ti].1.is_capital)
    };
    let rec = TownView {
        name: p.name,
        nation: p.nation,
        mayor: p.mayor,
        pvp: p.pvp,
        assistants: p.assistants,
        residents: p.residents,
        spawn: spawn,
        is_capital: is_capital,
        size: size,
    };
    let towns = if ti < 0 {
        st.towns.push((p.name, rec))
    } else {
        st.towns.update(ti, (p.name, rec))
    };
    TownyView { towns, nations: st.nations }
}

/// The records after one marker.
pub open spec fn marker_step(st: TownyView, m: Marker) -> TownyView {
    match m {
        Marker::Icon(im) => match (icon_kind(im.icon@), im.tooltip) {
            (Some(capital), Some(t)) => match tooltip_names(t@) {
                Some((town, nation)) => icon_step(st, town, nation, capital, im.point),
                None => st,
            },
            _ => st,
        },
        Marker::Polygon(pm) => match pm.popup {
            Some(t) => match popup_fields(t@) {
                Some(p) => polygon_step(st, p, multipolygon_area_of(pm.points@)),
                None => st,
            },
            None => st,
        },
        Marker::Polyline(_) => st,
    }
}

/// The records after the markers `ms`, in order, starting from `st`.
pub open spec fn fold_markers(st: TownyView, ms: Seq<Marker>) -> TownyView
    decreases ms.len(),
{
    if ms.len() == 0 {
        st
    } else {
        marker_step(fold_markers(st, ms.drop_last()), ms.last())
    }
}

/// The records built from the groups `gs`, every marker of every group in order.
pub open spec fn towny_of(gs: Seq<MarkerGroup>) -> TownyView
    decreases gs.len(),
{
    if gs.len() == 0 {
        empty_towny()
    } else {
        fold_markers(towny_of(gs.drop_last()), gs.last().markers@)
    }
}

pub open spec fn entries_view<V: View>(entries: Seq<(String, V)>) -> Seq<(Seq<char>, V::V)> {
    entries.map_values(|e: (String, V)| (e.0@, e.1@))
}

proof fn lemma_find_key_absent<V>(entries: Seq<(Seq<char>, V)>, key: Seq<char>, i: nat)
    requires
        find_key(entries, key, i) == -1,
    ensures
        forall|j: int| i <= j < entries.len() ==> entries[j].0 != key,
    decreases entries.len() - i,
{
    if i < entries.len() {
        lemma_find_key_absent(entries, key, i + 1);
    }
}

proof fn lemma_find_key_found<V>(entries: Seq<(Seq<char>, V)>, key: Seq<char>, i: nat)
    requires
        find_key(entries, key, i) != -1,
    ensures
        i <= find_key(entries, key, i) < entries.len(),
        entries[find_key(entries, key, i)].0 == key,
    decreases entries.len() - i,
{
    if i < entries.len() && entries[i as int].0 != key {
        lemma_find_key_found(entries, key, i + 1);
    }
}

/// Keys stay unique when an absent key is added.
proof fn lemma_push_absent<V>(entries: Seq<(Seq<char>, V)>, key: Seq<char>, v: V)
    requires
        keys_unique(entries),
        find_key(entries, key, 0) == -1,
    ensures
        keys_unique(entries.push((key, v))),
{
    lemma_find_key_absent(entries, key, 0);
    let e = entries.push((key, v));
    assert forall|i: int, j: int| 0 <= i < j < e.len() implies #[trigger] e[i].0 != #[trigger] e[j].0 by {
        if j == entries.len() {
            assert(e[i] == entries[i]);
        } else {
            assert(e[i] == entries[i] && e[j] == entries[j]);
        }
    }
}

/// Keys stay unique when an entry is replaced by one with the same key.
proof fn lemma_update_same_key<V>(entries: Seq<(Seq<char>, V)>, i: int, v: V)
    requires
        keys_unique(entries),
        0 <= i < entries.len(),
    ensures
        keys_unique(entries.update(i, (entries[i].0, v))),
{
    let e = entries.update(i, (entries[i].0, v));
    assert forall|a: int, b: int| 0 <= a < b < e.len() implies #[trigger] e[a].0 != #[trigger] e[b].0 by {
        assert(e[a].0 == entries[a].0 && e[b].0 == entries[b].0);
    }
}

proof fn lemma_strings_view_push(v: Seq<String>, x: String)
    ensures
        strings_view(v.push(x)) == strings_view(v).push(x@),
{
    assert(strings_view(v.push(x)) =~= strings_view(v).push(x@));
}

/// Index of the entry keyed `key`, if any.
fn find_entry<V: View>(entries: &Vec<(String, V)>, key: &str) -> (r: Option<usize>)
    ensures
        match r {
            Some(i) => i == find_key(entries_view(entries@), key@, 0) && i < entries@.len(),
            None => find_key(entries_view(entries@), key@, 0) == -1,
        },
{
    let ghost ev = entries_view(entries@);
    let mut i: usize = 0;
    while i < entries.len()
        invariant
            i <= entries@.len(),
            ev == entries_view(entries@),
            find_key(ev, key@, 0) == find_key(ev, key@, i as nat),
        decreases entries@.len() - i,
    {
        if same_text(entries[i].0.as_str(), key) {
            return Some(i);
        }
        i = i + 1;
    }
    None
}

impl TownyInfo {
    /// Keys are unique in both collections.
    pub closed spec fn wf(&self) -> bool {
        keys_unique(self@.towns) && keys_unique(self@.nations)
    }

    /// No settlements and no alliances.
    pub fn new() -> (r: TownyInfo)
        ensures
            r@ == empty_towny(),
            r.wf(),
    {
        let r = TownyInfo { town_infos: Vec::new(), nation_infos: Vec::new() };
        proof {
            assert(r@.towns =~= Seq::<(Seq<char>, TownView)>::empty());
            assert(r@.nations =~= Seq::<(Seq<char>, NationView)>::empty());
        }
        r
    }

    /// Records a point marker at `p` for settlement `town` of alliance `nation` (none when
    /// empty), shown as a capital when `capital` holds.
    fn apply_icon(&mut self, town: String, nation: String, capital: bool, p: Point)
        requires
            old(self).wf(),
        ensures
            final(self).wf(),
            final(self)@ == icon_step(old(self)@, town@, nation@, capital, p),
    {
        let ghost st = self@;
        let spawn = Location { x: p.x, y: SPAWN_HEIGHT, z: p.z, world: World::Mainworld };
        match find_entry(&self.town_infos, town.as_str()) {
            Some(i) => {
                proof {
                    lemma_find_key_found(st.towns, town@, 0);
                    lemma_update_same_key(st.towns, i as int, icon_step(st, town@, nation@, capital, p).towns[i as int].1);
                }
                self.town_infos[i].1.spawn = spawn;
                self.town_infos[i].1.is_capital = capital;
                proof {
                    assert(self@.towns =~= icon_step(st, town@, nation@, capital, p).towns);
                }
            },
            None => {
                let rec = TownInfo {
                    name: String::new(),
                    nation: String::new(),
                    mayor: String::new(),
                    pvp: false,
                    assistants: Vec::new(),
                    residents: Vec::new(),
                    spawn,
                    is_capital: capital,
                    size: 0,
                };
                proof {
                    assert(strings_view(rec.assistants@) =~= Seq::<Seq<char>>::empty());
                    assert(strings_view(rec.residents@) =~= Seq::<Seq<char>>::empty());
                    lemma_push_absent(st.towns, town@, rec@);
                }
                self.town_infos.push((town.clone(), rec));
                proof {
                    assert(self@.towns =~= icon_step(st, town@, nation@, capital, p).towns);
                }
            },
        }
        if chars_of(nation.as_str()).len() == 0 {
            return;
        }
        match find_entry(&self.nation_infos, nation.as_str()) {
            Some(i) => {
                proof {
                    lemma_find_key_found(st.nations, nation@, 0);
                    lemma_update_same_key(st.nations, i as int, icon_step(st, town@, nation@, capital, p).nations[i as int].1);
                    lemma_strings_view_push(self.nation_infos@[i as int].1.towns@, town);
                }
                if capital {
                    self.nation_infos[i].1.name = nation.clone();
                    self.nation_infos[i].1.capital = town.clone();
                }
                self.nation_infos[i].1.towns.push(town);
                proof {
                    assert(self@.nations =~= icon_step(st, town@, nation@, capital, p).nations);
                }
            },
            None => {
                let mut towns: Vec<String> = Vec::new();
                towns.push(town.clone());
                let rec = NationInfo {
                    name: if capital {
                        nation.clone()
                    } else {
                        String::new()
                    },
                    capital: if capital {
                        town.clone()
                    } else {
                        String::new()
                    },
                    towns,
                };
                proof {
                    assert(strings_view(rec.towns@) =~= seq![town@]);
                    lemma_push_absent(st.nations, nation@, rec@);
                }
                self.nation_infos.push((nation, rec));
                proof {
                    assert(self@.nations =~= icon_step(st, town@, nation@, capital, p).nations);
                }
            },
        }
    }

    /// Records a territory marker whose popup reads `info` and whose area is `size`.
    fn apply_popup(&mut self, info: PopupInfo, size: i32)
        requires
            old(self).wf(),
        ensures
            final(self).wf(),
            final(self)@ == polygon_step(old(self)@, info@, size as int),
    {
        let ghost st = self@;
        let ghost target = polygon_step(st, info@, size as int);
        match find_entry(&self.town_infos, info.name.as_str()) {
            Some(i) => {
                proof {
                    lemma_find_key_found(st.towns, info@.name, 0);
                    lemma_update_same_key(st.towns, i as int, target.towns[i as int].1);
                }
                let PopupInfo { name, nation, mayor, pvp, assistants, residents } = info;
                self.town_infos[i].1.name = name;
                self.town_infos[i].1.nation = nation;
                self.town_infos[i].1.mayor = mayor;
                self.town_infos[i].1.pvp = pvp;
                self.town_infos[i].1.assistants = assistants;
                self.town_infos[i].1.residents = residents;
                self.town_infos[i].1.size = size;
                proof {
                    assert(self@.towns =~= target.towns);
                    assert(self@.nations =~= target.nations);
                }
            },
            None => {
                let key = info.name.clone();
                let PopupInfo { name, nation, mayor, pvp, assistants, residents } = info;
                let rec = TownInfo {
                    name,
                    nation,
                    mayor,
                    pvp,
                    assistants,
                    residents,
                    spawn: Location { x: 0, y: 0, z: 0, world: World::Unknown },
                    is_capital: false,
                    size,
                };
                proof {
                    lemma_push_absent(st.towns, key@, rec@);
                }
                self.town_infos.push((key, rec));
                proof {
                    assert(self@.towns =~= target.towns);
                    assert(self@.nations =~= target.nations);
                }
            },
        }
    }

    /// Folds one marker into the records: a point marker with one of the two settlement
    /// icons and a readable tooltip sets that settlement's spawn point and capital flag
    /// and adds it to its alliance; a territory marker with a readable popup sets the
    /// settlement's attributes and size; anything else changes nothing.
    pub fn apply_marker(&mut self, m: &Marker)
        requires
            old(self).wf(),
        ensures
            final(self).wf(),
            final(self)@ == marker_step(old(self)@, *m),
    {
        match m {
            Marker::Icon(im) => {
                let capital = if same_text(im.icon.as_str(), CAPITAL_ICON) {
                    true
                } else if same_text(im.icon.as_str(), TOWN_ICON) {
                    false
                } else {
                    return ;
                };
                if let Some(t) = &im.tooltip {
                    if let Some((town, nation)) = parse_dynmap_tooltip(t.as_str()) {
                        self.apply_icon(town, nation, capital, im.point);
                    }
                }
            },
            Marker::Polygon(pm) => {
                if let Some(t) = &pm.popup {
                    if let Some(info) = parse_dynmap_popup(t.as_str()) {
                        let size = multipolygon_area(pm.points.as_slice());
                        self.apply_popup(info, size);
                    }
                }
            },
            Marker::Polyline(_) => {},
        }
    }

    /// The settlement keyed `name`, if any.
    pub fn town(&self, name: &str) -> (r: Option<&TownInfo>)
        ensures
            match r {
                Some(t) => find_key(self@.towns, name@, 0) >= 0 && t@ == self@.towns[find_key(
                    self@.towns,
                    name@,
                    0,
                )].1,
                None => find_key(self@.towns, name@, 0) == -1,
            },
    {
        match find_entry(&self.town_infos, name) {
            Some(i) => Some(&self.town_infos[i].1),
            None => None,
        }
    }

    /// The alliance keyed `name`, if any.
    pub fn nation(&self, name: &str) -> (r: Option<&NationInfo>)
        ensures
            match r {
                Some(n) => find_key(self@.nations, name@, 0) >= 0 && n@ == self@.nations[find_key(
                    self@.nations,
                    name@,
                    0,
                )].1,
                None => find_key(self@.nations, name@, 0) == -1,
            },
    {
        match find_entry(&self.nation_infos, name) {
            Some(i) => Some(&self.nation_infos[i].1),
            None => None,
        }
    }

    /// Number of settlements.
    pub fn town_count(&self) -> (r: usize)
        ensures
            r == self@.towns.len(),
    {
        self.town_infos.len()
    }

    /// Number of alliances.
    pub fn nation_count(&self) -> (r: usize)
        ensures
            r == self@.nations.len(),
    {
        self.nation_infos.len()
    }
}

/// Builds the settlement and alliance records from the feed's groups, every marker of
/// every group in feed order.
pub fn build_towny_info(groups: &Vec<MarkerGroup>) -> (r: TownyInfo)
    ensures
        r.wf(),
        r@ == towny_of(groups@),
{
    let mut info = TownyInfo::new();
    let mut g: usize = 0;
    while g < groups.len()
        invariant
            g <= groups@.len(),
            info.wf(),
            info@ == towny_of(groups@.subrange(0, g as int)),
        decreases groups@.len() - g,
    {
        let ms = &groups[g].markers;
        let ghost start = info@;
        let mut k: usize = 0;
        while k < ms.len()
            invariant
                k <= ms@.len(),
                info.wf(),
                info@ == fold_markers(start, ms@.subrange(0, k as int)),
            decreases ms@.len() - k,
        {
            info.apply_marker(&ms[k]);
            proof {
                assert(ms@.subrange(0, k + 1).drop_last() =~= ms@.subrange(0, k as int));
            }
            k = k + 1;
        }
        proof {
            assert(groups@.subrange(0, g + 1).drop_last() =~= groups@.subrange(0, g as int));
            assert(ms@.subrange(0, ms@.len() as int) =~= ms@);
        }
        g = g + 1;
    }
    proof {
        assert(groups@.subrange(0, groups@.len() as int) =~= groups@);
    }
    info
}

proof fn lemma_find_key_push<V>(s: Seq<(Seq<char>, V)>, k: Seq<char>, v: V, a: Seq<char>, i: nat)
    requires
        i <= s.len(),
    ensures
        find_key(s.push((k, v)), a, i) == if find_key(s, a, i) != -1 {
            find_key(s, a, i)
        } else if k == a {
            s.len() as int
        } else {
            -1
        },
    decreases s.len() - i,
{
    let t = s.push((k, v));
    if i < s.len() {
        assert(t[i as int] == s[i as int]);
        lemma_find_key_push(s, k, v, a, i + 1);
    } else {
        assert(t[i as int] == (k, v));
        assert(find_key(t, a, i + 1) == -1);
    }
}

proof fn lemma_find_key_update<V>(s: Seq<(Seq<char>, V)>, j: int, v: V, a: Seq<char>, i: nat)
    requires
        0 <= j < s.len(),
    ensures
        find_key(s.update(j, (s[j].0, v)), a, i) == find_key(s, a, i),
    decreases s.len() - i,
{
    let t = s.update(j, (s[j].0, v));
    if i < s.len() {
        assert(t[i as int].0 == s[i as int].0);
        lemma_find_key_update(s, j, v, a, i + 1);
    }
}

/// The marker is a capital's point marker whose tooltip names alliance `a`.
pub open spec fn capital_marker_of(m: Marker, a: Seq<char>) -> bool {
    match m {
        Marker::Icon(im) => icon_kind(im.icon@) == Some(true) && match im.tooltip {
            Some(t) => match tooltip_names(t@) {
                Some((_, n)) => n == a,
                None => false,
            },
            None => false,
        },
        _ => false,
    }
}

/// Alliance `a` has no record yet, or one whose name and capital are still empty.
pub open spec fn nation_unnamed(st: TownyView, a: Seq<char>) -> bool {
    let i = find_key(st.nations, a, 0);
    i == -1 || (st.nations[i].1.name.len() == 0 && st.nations[i].1.capital.len() == 0)
}

proof fn lemma_step_keeps_unnamed(st: TownyView, m: Marker, a: Seq<char>)
    requires
        nation_unnamed(st, a),
        !capital_marker_of(m, a),
    ensures
        nation_unnamed(marker_step(st, m), a),
{
    let ia = find_key(st.nations, a, 0);
    if ia != -1 {
        lemma_find_key_found(st.nations, a, 0);
    }
    match m {
        Marker::Icon(im) => {
            if let (Some(capital), Some(t)) = (icon_kind(im.icon@), im.tooltip) {
                if let Some((town, n)) = tooltip_names(t@) {
                    let nx = icon_step(st, town, n, capital, im.point);
                    let ni = find_key(st.nations, n, 0);
                    if n.len() != 0 {
                        if ni < 0 {
                            let rec = nx.nations[st.nations.len() as int].1;
                            lemma_find_key_push(st.nations, n, rec, a, 0);
                        } else {
                            lemma_find_key_found(st.nations, n, 0);
                            let rec = nx.nations[ni].1;
                            lemma_find_key_update(st.nations, ni, rec, a, 0);
                        }
                    }
                }
            }
        },
        _ => {},
    }
}

/// Until a capital's point marker names an alliance, the alliance's name and capital stay
/// empty: folding markers none of which is such a marker for `a` keeps `a` unnamed.
pub proof fn lemma_alliance_unnamed_until_capital(st: TownyView, ms: Seq<Marker>, a: Seq<char>)
    requires
        nation_unnamed(st, a),
        forall|i: int| 0 <= i < ms.len() ==> !capital_marker_of(#[trigger] ms[i], a),
    ensures
        nation_unnamed(fold_markers(st, ms), a),
    decreases ms.len(),
{
    if ms.len() > 0 {
        let prefix = ms.drop_last();
        assert forall|i: int| 0 <= i < prefix.len() implies !capital_marker_of(
            #[trigger] prefix[i],
            a,
        ) by {
            assert(prefix[i] == ms[i]);
        }
        lemma_alliance_unnamed_until_capital(st, prefix, a);
        lemma_step_keeps_unnamed(fold_markers(st, prefix), ms.last(), a);
    }
}

} // verus!
