use vstd::prelude::*;

use super::ids::{PlayerId, TerritoryId};

verus! {

/// Number of territories on the built-in map.
pub const DEFAULT_TERRITORY_COUNT: usize = 42;

// Canonical territory order shared with frontend mapData.ts:
//
// 0  Alaska
// 1  Northwest Territory
// 2  Greenland
// 3  Alberta
// 4  Ontario
// 5  Eastern Canada
// 6  Western United States
// 7  Eastern United States
// 8  Central America
// 9  Venezuela
// 10 Peru
// 11 Brazil
// 12 Argentina
// 13 North Africa
// 14 Egypt
// 15 East Africa
// 16 Central Africa
// 17 South Africa
// 18 Madagascar
// 19 Iceland
// 20 Scandinavia
// 21 Russia
// 22 Great Britain
// 23 Northern Europe
// 24 Western Europe
// 25 Southern Europe
// 26 Ural
// 27 Siberia
// 28 Yakutsk
// 29 Irkutsk
// 30 Kamchatka
// 31 Afghanistan
// 32 Middle East
// 33 India
// 34 Mongolia
// 35 China
// 36 Japan
// 37 Southeast Asia
// 38 Indonesia
// 39 New Guinea
// 40 Western Australia
// 41 Eastern Australia

/// Undirected edge list for the built-in Risk map.
/// Each entry is a connection between two adjacent territories.
pub const DEFAULT_EDGES: [[TerritoryId; 2]; 83] = [
    // North America
    [0, 1], // Alaska to Northwest Territory
    [0, 3], // Alaska to Alberta
    [1, 2], // Northwest Territory to Greenland
    [1, 3], // Northwest Territory to Alberta
    [1, 4], // Northwest Territory to Ontario
    [2, 4], // Greenland to Ontario
    [2, 5], // Greenland to Eastern Canada
    [3, 4], // Alberta to Ontario
    [3, 6], // Alberta to Western US
    [4, 5], // Ontario to Eastern Canada
    [4, 6], // Ontario to Western US
    [4, 7], // Ontario to Eastern US
    [5, 7], // Eastern Canada to Eastern US
    [6, 7], // Western US to Eastern US
    [6, 8], // Western US to Central America
    [7, 8], // Eastern US to Central America

    // South America
    [9, 10],  // Venezuela to Peru
    [9, 11],  // Venezuela to Brazil
    [10, 11], // Peru to Brazil
    [10, 12], // Peru to Argentina
    [11, 12], // Brazil to Argentina

    // Africa
    [13, 14], // North Africa to Egypt
    [13, 15], // North Africa to East Africa
    [13, 16], // North Africa to Central Africa
    [14, 15], // Egypt to East Africa
    [15, 16], // East Africa to Central Africa
    [15, 17], // East Africa to South Africa
    [15, 18], // East Africa to Madagascar
    [16, 17], // Central Africa to South Africa
    [17, 18], // South Africa to Madagascar

    // Europe
    [19, 22], // Iceland to Great Britain
    [19, 20], // Iceland to Scandinavia
    [20, 22], // Scandinavia to Great Britain
    [20, 23], // Scandinavia to Northern Europe
    [20, 21], // Scandinavia to Russia
    [22, 23], // Great Britain to Northern Europe
    [22, 24], // Great Britain to Western Europe
    [23, 24], // Northern Europe to Western Europe
    [23, 25], // Northern Europe to Southern Europe
    [23, 21], // Northern Europe to Russia
    [24, 25], // Western Europe to Southern Europe
    [25, 21], // Southern Europe to Russia

    // Asia
    [26, 27], // Ural to Siberia
    [26, 35], // Ural to China
    [26, 31], // Ural to Afghanistan
    [27, 28], // Siberia to Yakutsk
    [27, 29], // Siberia to Irkutsk
    [27, 34], // Siberia to Mongolia
    [27, 35], // Siberia to China
    [28, 29], // Yakutsk to Irkutsk
    [28, 30], // Yakutsk to Kamchatka
    [29, 30], // Irkutsk to Kamchatka
    [29, 34], // Irkutsk to Mongolia
    [30, 34], // Kamchatka to Mongolia
    [30, 36], // Kamchatka to Japan
    [31, 32], // Afghanistan to Middle East
    [31, 35], // Afghanistan to China
    [31, 33], // Afghanistan to India
    [32, 33], // Middle East to India
    [33, 35], // India to China
    [33, 37], // India to Southeast Asia
    [34, 35], // Mongolia to China
    [34, 36], // Mongolia to Japan
    [35, 37], // China to Southeast Asia

    // Australia
    [38, 39], // Indonesia to New Guinea
    [38, 40], // Indonesia to Western Australia
    [39, 40], // New Guinea to Western Australia
    [39, 41], // New Guinea to Eastern Australia
    [40, 41], // Western Australia to Eastern Australia

    // Inter-continent connections
    [0, 30],  // Alaska to Kamchatka
    [2, 19],  // Greenland to Iceland
    [8, 9],   // Central America to Venezuela
    [11, 13], // Brazil to North Africa
    [13, 24], // North Africa to Western Europe
    [13, 25], // North Africa to Southern Europe
    [14, 25], // Egypt to Southern Europe
    [14, 32], // Egypt to Middle East
    [15, 32], // East Africa to Middle East
    [25, 32], // Southern Europe to Middle East
    [21, 32], // Russia to Middle East
    [21, 26], // Russia to Ural
    [21, 31], // Russia to Afghanistan
    [37, 38], // Southeast Asia to Indonesia
];

/// The board: which territories border which, and how they group into continents.
#[derive(Clone, Debug)]
pub struct GameMap {
    pub adjacency: Vec<Vec<TerritoryId>>,
    pub continents: Vec<Continent>,
}

/// A group of territories whose sole owner earns `bonus` extra troops per turn.
#[derive(Clone, Debug)]
pub struct Continent {
    pub territories: Vec<TerritoryId>,
    pub bonus: u32,
}

/// Who holds a territory and how many troops stand on it.
#[derive(Clone, Copy, Debug)]
pub struct TerritoryState {
    pub owner: PlayerId,
    pub troops: u32,
}

pub struct ContinentModel {
    pub territories: Seq<TerritoryId>,
    pub bonus: u32,
}

pub struct MapModel {
    pub adjacency: Seq<Seq<TerritoryId>>,
    pub continents: Seq<ContinentModel>,
}

impl View for Continent {
    type V = ContinentModel;

    open spec fn view(&self) -> ContinentModel {
        ContinentModel { territories: self.territories@, bonus: self.bonus }
    }
}

impl View for GameMap {
    type V = MapModel;

    open spec fn view(&self) -> MapModel {
        MapModel {
            adjacency: self.adjacency@.map_values(|row: Vec<TerritoryId>| row@),
            continents: self.continents@.map_values(|c: Continent| c@),
        }
    }
}

/// The built-in map has a border between `a` and `b` (listed either way round).
pub open spec fn default_border(a: int, b: int) -> bool {
    exists|k: int|
        0 <= k < 83 && ((DEFAULT_EDGES@[k]@[0] == a && DEFAULT_EDGES@[k]@[1] == b) || (
        DEFAULT_EDGES@[k]@[0] == b && DEFAULT_EDGES@[k]@[1] == a))
}

/// Listed in strictly increasing order (so without repeats).
pub open spec fn strictly_increasing(s: Seq<TerritoryId>) -> bool {
    forall|i: int, j: int| 0 <= i < j < s.len() ==> s[i] < s[j]
}

/// The continents of the built-in map: North America, South America, Africa,
/// Europe, Asia and Australia with their territories and bonuses.
pub open spec fn default_continents() -> Seq<ContinentModel> {
    seq![
        ContinentModel { territories: seq![0usize, 1, 2, 3, 4, 5, 6, 7, 8], bonus: 5u32 },
        ContinentModel { territories: seq![9usize, 10, 11, 12], bonus: 2u32 },
        ContinentModel { territories: seq![13usize, 14, 15, 16, 17, 18], bonus: 3u32 },
        ContinentModel { territories: seq![19usize, 20, 21, 22, 23, 24, 25], bonus: 5u32 },
        ContinentModel {
            territories: seq![26usize, 27, 28, 29, 30, 31, 32, 33, 34, 35, 36, 37],
            bonus: 7u32,
        },
        ContinentModel { territories: seq![38usize, 39, 40, 41], bonus: 2u32 },
    ]
}

/// Puts `x` into the strictly increasing list `row` unless it is already there.
fn insert_sorted_unique(row: &mut Vec<TerritoryId>, x: TerritoryId)
    requires
        strictly_increasing(old(row)@),
    ensures
        strictly_increasing(final(row)@),
        forall|u: TerritoryId| #[trigger] final(row)@.contains(u) <==> old(row)@.contains(u) || u == x,
{
    let mut p: usize = 0;
    while p < row.len() && row[p] < x
        invariant
            p <= row@.len(),
            forall|k: int| 0 <= k < p ==> row@[k] < x,
        decreases row@.len() - p,
    {
        p = p + 1;
    }
    if p < row.len() && row[p] == x {
        return;
    }
    let ghost before = row@;
    row.insert(p, x);
    proof {
        before.insert_ensures(p as int, x);
        assert forall|u: TerritoryId| #[trigger] row@.contains(u) <==> before.contains(u) || u == x by {
            if row@.contains(u) {
                let i = choose|i: int| 0 <= i < row@.len() && row@[i] == u;
                if i < p {
                    assert(before[i] == u);
                } else if i > p {
                    assert(before[i - 1] == u);
                }
            }
            if before.contains(u) {
                let i = choose|i: int| 0 <= i < before.len() && before[i] == u;
                if i < p {
                    assert(row@[i] == u);
                } else {
                    assert(row@[i + 1] == u);
                }
            }
            if u == x {
                assert(row@[p as int] == x);
            }
        }
    }
}

/// The map built into the game: 42 territories, each listing its neighbours in
/// increasing order exactly as the border list gives them (so the borders go both
/// ways and stay on the board), and the six standard continents.
pub open spec fn is_default_map(map: MapModel) -> bool {
    &&& map.adjacency.len() == DEFAULT_TERRITORY_COUNT
    &&& forall|t: int| 0 <= t < DEFAULT_TERRITORY_COUNT ==> strictly_increasing(#[trigger] map.adjacency[t])
    &&& forall|t: int, u: TerritoryId|
        0 <= t < DEFAULT_TERRITORY_COUNT ==> (#[trigger] map.adjacency[t].contains(u)
            <==> default_border(t, u as int))
    &&& map.continents == default_continents()
    &&& forall|t: int, u: int|
        0 <= t < DEFAULT_TERRITORY_COUNT && 0 <= u < DEFAULT_TERRITORY_COUNT ==> (
        #[trigger] map.adjacency[t].contains(u as usize) <==> #[trigger] map.adjacency[u].contains(
            t as usize,
        ))
    &&& forall|t: int, k: int|
        0 <= t < DEFAULT_TERRITORY_COUNT && 0 <= k < map.adjacency[t].len()
            ==> #[trigger] map.adjacency[t][k] < DEFAULT_TERRITORY_COUNT
}

impl GameMap {
    /// The built-in map: for each of the 42 territories the list of its neighbours
    /// in increasing order, and the six continents.
    pub fn default_static() -> (map: Self)
        ensures
            is_default_map(map@),
    {
        let mut adjacency: Vec<Vec<TerritoryId>> = Vec::new();
        let mut t: usize = 0;
        while t < DEFAULT_TERRITORY_COUNT
            invariant
                t <= DEFAULT_TERRITORY_COUNT,
                adjacency@.len() == t,
                forall|i: int| 0 <= i < t ==> strictly_increasing(#[trigger] adjacency@[i]@),
                forall|i: int, u: TerritoryId|
                    0 <= i < t ==> (#[trigger] adjacency@[i]@.contains(u) <==> default_border(
                        i,
                        u as int,
                    )),
            decreases DEFAULT_TERRITORY_COUNT - t,
        {
            let mut row: Vec<TerritoryId> = Vec::new();
            let mut k: usize = 0;
            while k < 83
                invariant
                    k <= 83,
                    strictly_increasing(row@),
                    forall|u: TerritoryId|
                        #[trigger] row@.contains(u) <==> exists|j: int|
                            0 <= j < k && ((DEFAULT_EDGES@[j]@[0] == t && DEFAULT_EDGES@[j]@[1] == u)
                                || (DEFAULT_EDGES@[j]@[0] == u && DEFAULT_EDGES@[j]@[1] == t)),
                decreases 83 - k,
            {
                let edge = DEFAULT_EDGES[k];
                let a = edge[0];
                let b = edge[1];
                let ghost before = row@;
                if a == t {
                    insert_sorted_unique(&mut row, b);
                }
                if b == t {
                    insert_sorted_unique(&mut row, a);
                }
                assert forall|u: TerritoryId| #[trigger] row@.contains(u) <==> exists|j: int|
                    0 <= j < k + 1 && ((DEFAULT_EDGES@[j]@[0] == t && DEFAULT_EDGES@[j]@[1] == u)
                        || (DEFAULT_EDGES@[j]@[0] == u && DEFAULT_EDGES@[j]@[1] == t)) by {
                    if row@.contains(u) && !before.contains(u) {
                        assert(0 <= k < k + 1 && ((DEFAULT_EDGES@[k as int]@[0] == t
                            && DEFAULT_EDGES@[k as int]@[1] == u) || (DEFAULT_EDGES@[k as int]@[0]
                            == u && DEFAULT_EDGES@[k as int]@[1] == t)));
                    }
                }
                k = k + 1;
            }
            adjacency.push(row);
            t = t + 1;
        }
        let continents = vec![
            Continent { territories: vec![0, 1, 2, 3, 4, 5, 6, 7, 8], bonus: 5 },
            Continent { territories: vec![9, 10, 11, 12], bonus: 2 },
            Continent { territories: vec![13, 14, 15, 16, 17, 18], bonus: 3 },
            Continent { territories: vec![19, 20, 21, 22, 23, 24, 25], bonus: 5 },
            Continent {
                territories: vec![26, 27, 28, 29, 30, 31, 32, 33, 34, 35, 36, 37],
                bonus: 7,
            },
            Continent { territories: vec![38, 39, 40, 41], bonus: 2 },
        ];
        let map = GameMap { adjacency, continents };
        assert(map@.adjacency.len() == DEFAULT_TERRITORY_COUNT);
        assert(map@.continents =~= default_continents());
        assert(forall|k: int| 0 <= k < 83 ==> #[trigger] DEFAULT_EDGES@[k]@[0] < 42 && DEFAULT_EDGES@[k]@[1] < 42);
        assert forall|t: int, k: int|
            0 <= t < DEFAULT_TERRITORY_COUNT && 0 <= k < map@.adjacency[t].len()
                implies #[trigger] map@.adjacency[t][k] < DEFAULT_TERRITORY_COUNT by {
            assert(map@.adjacency[t].contains(map@.adjacency[t][k]));
        }
        map
    }
}

} // verus!
