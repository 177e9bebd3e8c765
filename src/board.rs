//! The static topology of a city: its stations and subway lines.
use vstd::prelude::*;
use vstd::string::StringExecFns;

verus! {

/// The cities a game can be played in.
#[derive(Clone, Copy, Debug, PartialEq, Eq, Structural, Hash)]
pub enum City {
    Amsterdam,
    Berlin,
    Paris,
    Madrid,
}

/// The name of a subway line.
#[derive(Clone, Debug)]
pub struct LineId(pub String);

impl View for LineId {
    type V = Seq<char>;

    open spec fn view(&self) -> Seq<char> {
        self.0@
    }
}

impl LineId {
    /// A copy of the line name.
    pub fn duplicate(&self) -> (r: LineId)
        ensures
            r@ == self@,
    {
        LineId(self.0.clone())
    }

    /// Whether two line names are the same text.
    pub fn same(&self, other: &LineId) -> (r: bool)
        ensures
            r == (self@ == other@),
    {
        self.0 == other.0
    }
}

/// A station: its name, the lines through it, and whether it is a transfer hub.
#[derive(Clone, Debug)]
pub struct Station {
    pub id: String,
    pub lines: Vec<LineId>,
    pub is_transfer_hub: bool,
}

/// A subway line: its stations in order from the train's starting point.
#[derive(Debug)]
pub struct SubwayLine {
    pub id: LineId,
    pub color: String,
    pub stations: Vec<String>,
    pub is_ring: bool,
    /// Points for the first player to complete the line, and for later ones.
    pub completion_points: (u8, u8),
}

/// The stations and lines of one city, each keyed by its name.
#[derive(Debug)]
pub struct SubwayMap {
    pub city: City,
    pub stations: Vec<Station>,
    pub lines: Vec<SubwayLine>,
    pub special_stations: Vec<String>,
}

/// The station names of a line, as text.
pub open spec fn station_names(l: SubwayLine) -> Seq<Seq<char>> {
    l.stations@.map_values(|s: String| s@)
}

impl SubwayMap {
    /// Line names and station names are each unique.
    pub open spec fn wf(&self) -> bool {
        &&& forall|i: int, j: int|
            0 <= i < j < self.lines@.len() ==> self.lines@[i].id@ != self.lines@[j].id@
        &&& forall|i: int, j: int|
            0 <= i < j < self.stations@.len() ==> self.stations@[i].id@ != self.stations@[j].id@
    }

    pub open spec fn has_line(&self, id: Seq<char>) -> bool {
        exists|i: int| 0 <= i < self.lines@.len() && self.lines@[i].id@ == id
    }

    /// The line named `id` (meaningful where `has_line(id)`).
    pub open spec fn line(&self, id: Seq<char>) -> SubwayLine {
        self.lines@[choose|i: int| 0 <= i < self.lines@.len() && self.lines@[i].id@ == id]
    }

    pub open spec fn has_station(&self, id: Seq<char>) -> bool {
        exists|i: int| 0 <= i < self.stations@.len() && self.stations@[i].id@ == id
    }

    /// The station named `id` (meaningful where `has_station(id)`).
    pub open spec fn station(&self, id: Seq<char>) -> Station {
        self.stations@[choose|i: int|
            0 <= i < self.stations@.len() && self.stations@[i].id@ == id]
    }

    /// The number of lines through station `id`, as the game records it.
    pub open spec fn connections(&self, id: Seq<char>) -> u8 {
        self.station(id).lines@.len() as u8
    }

    /// The number of station slots over all lines.
    pub open spec fn total_stations(&self) -> int {
        sum_line_lengths(self.lines@)
    }

    /// Whether the number of station slots over all lines fits in `u32`.
    pub fn station_count_fits(&self) -> (r: bool)
        ensures
            r == (self.total_stations() <= u32::MAX),
    {
        let cap: u64 = 0x1_0000_0000;
        let mut stations: u64 = 0;
        let mut l: usize = 0;
        assert(self.lines@.take(0) =~= seq![]);
        while l < self.lines.len()
            invariant
                l <= self.lines@.len(),
                cap == 0x1_0000_0000,
                stations == vstd::math::min(sum_line_lengths(self.lines@.take(l as int)), cap as int),
            decreases self.lines@.len() - l,
        {
            proof {
                assert(self.lines@.take(l + 1).drop_last() =~= self.lines@.take(l as int));
                lemma_line_lengths_prefix(self.lines@, l as int);
            }
            let len = self.lines[l].stations.len();
            stations = if len as u64 >= cap - stations { cap } else { stations + len as u64 };
            l = l + 1;
        }
        assert(self.lines@.take(l as int) =~= self.lines@);
        stations < cap
    }

    /// Finds the position of the line named `id`.
    pub fn find_line(&self, id: &LineId) -> (r: Option<usize>)
        requires
            self.wf(),
        ensures
            r.is_some() == self.has_line(id@),
            r matches Some(i) ==> i < self.lines@.len() && self.lines@[i as int] == self.line(id@),
    {
        let mut i: usize = 0;
        while i < self.lines.len()
            invariant
                self.wf(),
                i <= self.lines@.len(),
                forall|k: int| 0 <= k < i ==> self.lines@[k].id@ != id@,
            decreases self.lines@.len() - i,
        {
            if self.lines[i].id.same(id) {
                proof {
                    assert(self.has_line(id@));
                    let c = choose|k: int| 0 <= k < self.lines@.len() && self.lines@[k].id@ == id@;
                    if c < i as int {
                        assert(self.lines@[c].id@ != self.lines@[i as int].id@);
                    } else if c > i as int {
                        assert(self.lines@[i as int].id@ != self.lines@[c].id@);
                    }
                }
                return Some(i);
            }
            i = i + 1;
        }
        None
    }

    /// Finds the position of the station named `id`.
    pub fn find_station(&self, id: &String) -> (r: Option<usize>)
        requires
            self.wf(),
        ensures
            r.is_some() == self.has_station(id@),
            r matches Some(i) ==> i < self.stations@.len() && self.stations@[i as int]
                == self.station(id@),
    {
        let mut i: usize = 0;
        while i < self.stations.len()
            invariant
                self.wf(),
                i <= self.stations@.len(),
                forall|k: int| 0 <= k < i ==> self.stations@[k].id@ != id@,
            decreases self.stations@.len() - i,
        {
            if self.stations[i].id == *id {
                proof {
                    assert(self.has_station(id@));
                    let c = choose|k: int| 0 <= k < self.stations@.len() && self.stations@[k].id@ == id@;
                    if c < i as int {
                        assert(self.stations@[c].id@ != self.stations@[i as int].id@);
                    } else if c > i as int {
                        assert(self.stations@[i as int].id@ != self.stations@[c].id@);
                    }
                }
                return Some(i);
            }
            i = i + 1;
        }
        None
    }
}

/// The sum of the station counts of `lines`.
pub open spec fn sum_line_lengths(lines: Seq<SubwayLine>) -> int
    decreases lines.len(),
{
    if lines.len() == 0 {
        0
    } else {
        sum_line_lengths(lines.drop_last()) + lines.last().stations@.len()
    }
}

fn text(s: &str) -> (r: String)
    ensures
        r@ == s@,
{
    String::from_str(s)
}

fn line_name(s: &str) -> (r: LineId)
    ensures
        r@ == s@,
{
    LineId(String::from_str(s))
}

/// The map of `city`: Amsterdam's red and blue lines; a one-station test line elsewhere.
pub fn create_subway_map(city: City) -> (r: SubwayMap)
    ensures
        r.wf(),
        r.city == city,
        city == City::Amsterdam ==> r.lines@.len() == 2 && r.stations@.len() == 3 && r.total_stations() == 4,
        city != City::Amsterdam ==> r.lines@.len() == 1 && r.stations@.len() == 1 && r.total_stations() == 1,
{
    let mut stations: Vec<Station> = Vec::new();
    let mut lines: Vec<SubwayLine> = Vec::new();
    match city {
        City::Amsterdam => {
            proof {
                reveal_strlit("central");
                reveal_strlit("dam");
                reveal_strlit("museum");
                reveal_strlit("red");
                reveal_strlit("blue");
            }
            let mut central_lines: Vec<LineId> = Vec::new();
            central_lines.push(line_name("red"));
            central_lines.push(line_name("blue"));
            stations.push(Station { id: text("central"), lines: central_lines, is_transfer_hub: true });
            let mut dam_lines: Vec<LineId> = Vec::new();
            dam_lines.push(line_name("red"));
            stations.push(Station { id: text("dam"), lines: dam_lines, is_transfer_hub: false });
            let mut museum_lines: Vec<LineId> = Vec::new();
            museum_lines.push(line_name("red"));
            stations.push(Station { id: text("museum"), lines: museum_lines, is_transfer_hub: false });
            let mut red: Vec<String> = Vec::new();
            red.push(text("central"));
            red.push(text("dam"));
            red.push(text("museum"));
            lines.push(
                SubwayLine {
                    id: line_name("red"),
                    color: text("#FF0000"),
                    stations: red,
                    is_ring: false,
                    completion_points: (6, 3),
                },
            );
            let mut blue: Vec<String> = Vec::new();
            blue.push(text("central"));
            lines.push(
                SubwayLine {
                    id: line_name("blue"),
                    color: text("#0000FF"),
                    stations: blue,
                    is_ring: false,
                    completion_points: (4, 2),
                },
            );
            proof {
                assert(lines@.take(1).drop_last() =~= lines@.take(0));
                assert(lines@.take(2).drop_last() =~= lines@.take(1));
                assert(lines@.take(2) =~= lines@);
                assert(lines@.take(0).len() == 0);
                assert(lines@.take(1).last() == lines@[0]);
                assert(lines@[0].stations@.len() == 3);
                assert(sum_line_lengths(lines@.take(0)) == 0);
                assert(sum_line_lengths(lines@.take(1)) == 3);
                assert(lines@[0].id@.len() != lines@[1].id@.len());
                assert(stations@[0].id@.len() != stations@[1].id@.len());
                assert(stations@[0].id@.len() != stations@[2].id@.len());
                assert(stations@[1].id@.len() != stations@[2].id@.len());
                assert(lines@.drop_last() =~= lines@.take(1));
            }
        },
        _ => {
            let mut test_lines: Vec<LineId> = Vec::new();
            test_lines.push(line_name("test"));
            stations.push(Station { id: text("test"), lines: test_lines, is_transfer_hub: false });
            let mut test: Vec<String> = Vec::new();
            test.push(text("test"));
            lines.push(
                SubwayLine {
                    id: line_name("test"),
                    color: text("#000000"),
                    stations: test,
                    is_ring: false,
                    completion_points: (1, 1),
                },
            );
            proof {
                assert(lines@.drop_last() =~= Seq::<SubwayLine>::empty());
                assert(lines@.last().stations@.len() == 1);
                assert(sum_line_lengths(lines@.drop_last()) == 0);
                assert(sum_line_lengths(lines@) == 1);
            }
        },
    }
    SubwayMap { city, stations, lines, special_stations: Vec::new() }
}

/// A prefix of the lines has no more station slots than all of them.
pub proof fn lemma_line_lengths_prefix(lines: Seq<SubwayLine>, i: int)
    requires
        0 <= i <= lines.len(),
    ensures
        0 <= sum_line_lengths(lines.take(i)) <= sum_line_lengths(lines),
    decreases lines.len(),
{
    if lines.len() > 0 {
        if i == lines.len() {
            assert(lines.take(i) =~= lines);
            lemma_line_lengths_prefix(lines.drop_last(), i - 1);
            assert(lines.drop_last().take(i - 1) =~= lines.take(i - 1));
        } else {
            lemma_line_lengths_prefix(lines.drop_last(), i);
            assert(lines.drop_last().take(i) =~= lines.take(i));
        }
    }
}

} // verus!
