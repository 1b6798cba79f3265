use georuggine::double::Double;
use georuggine::graph::{Graph, Place};
use georuggine::rng::{Rng, DRAWS};
use georuggine::simulator::{BuildError, Calc, Simulator, Stage, MAX_STEPS};

fn d(x: f64) -> Double {
    Double { bits: x.to_bits() }
}

fn f(x: Double) -> f64 {
    f64::from_bits(x.bits)
}

fn haversine_m(lat1: f64, lon1: f64, lat2: f64, lon2: f64) -> f64 {
    let (p1, p2) = (lat1.to_radians(), lat2.to_radians());
    let dphi = (lat2 - lat1).to_radians();
    let dlmb = (lon2 - lon1).to_radians();
    let a = (dphi / 2.0).sin().powi(2) + p1.cos() * p2.cos() * (dlmb / 2.0).sin().powi(2);
    2.0 * 6_371_000.0 * a.sqrt().asin()
}

fn eval(calc: Calc) -> Double {
    d(match calc {
        Calc::Sum(a, b) => f(a) + f(b),
        Calc::Difference(a, b) => f(a) - f(b),
        Calc::Product(a, b) => f(a) * f(b),
        Calc::Quotient(a, b) => f(a) / f(b),
        Calc::Within { lo, hi, draw } => {
            let unit = draw as f64 / DRAWS as f64;
            f(lo) + (f(hi) - f(lo)) * unit
        }
        Calc::Along { start, end, share } => f(start) + (f(end) - f(start)) * f(share),
        Calc::Length { from, to } => haversine_m(f(from.lat), f(from.lon), f(to.lat), f(to.lon)),
    })
}

fn settle(s: &mut Simulator) -> usize {
    let mut n = 0;
    while let Some(calc) = s.wanted() {
        s.supply(eval(calc));
        n += 1;
    }
    n
}

fn advance(s: &mut Simulator, dt: f64) -> usize {
    s.advance(d(dt));
    settle(s)
}

fn parse(json: &str) -> Option<Graph> {
    let v: serde_json::Value = serde_json::from_str(json).ok()?;
    let mut nodes = Vec::new();
    for p in v.get("nodes")?.as_array()? {
        nodes.push(Place { lat: d(p.get(0)?.as_f64()?), lon: d(p.get(1)?.as_f64()?) });
    }
    let mut adj = Vec::new();
    for row in v.get("adj")?.as_array()? {
        let mut to = Vec::new();
        for x in row.as_array()? {
            to.push(x.as_u64()? as u32);
        }
        adj.push(to);
    }
    Some(Graph { nodes, adj })
}

fn build(json: &str, seed: f64) -> Result<Simulator, String> {
    let graph = parse(json).ok_or("grafo JSON non valido".to_string())?;
    assert!(graph.is_well_formed());
    let mut s = Simulator::build(graph, seed as u64).map_err(|e| e.explain())?;
    settle(&mut s);
    Ok(s)
}

// A line 0-1-2-3-4, its places about 127 m apart in longitude.
fn line_graph_json() -> String {
    let nodes: Vec<String> =
        (0..5).map(|i| format!("[45.07,{:.6}]", 7.68 + i as f64 * 0.00127)).collect();
    let adj = ["[1]", "[0,2]", "[1,3]", "[2,4]", "[3]"];
    format!("{{\"nodes\":[{}],\"adj\":[{}]}}", nodes.join(","), adj.join(","))
}

#[test]
fn parses_and_starts_on_a_node() {
    let s = build(&line_graph_json(), 1.0).expect("costruzione");
    assert!((f(s.lat()) - 45.07).abs() < 1e-6);
}

#[test]
fn rejects_bad_json() {
    assert!(build("non-json", 1.0).is_err());
}

#[test]
fn deterministic_with_same_seed() {
    let mut a = build(&line_graph_json(), 999.0).unwrap();
    let mut b = build(&line_graph_json(), 999.0).unwrap();
    for _ in 0..300 {
        advance(&mut a, 0.5);
        advance(&mut b, 0.5);
    }
    assert_eq!(a.lat(), b.lat());
    assert_eq!(a.lon(), b.lon());
}

#[test]
fn stays_on_the_road_line() {
    let mut s = build(&line_graph_json(), 7.0).unwrap();
    for _ in 0..1000 {
        advance(&mut s, 0.3);
        assert!((f(s.lat()) - 45.07).abs() < 1e-6);
        assert!(f(s.lon()) >= 7.68 - 1e-3);
        assert!(f(s.lon()) <= 7.68 + 4.0 * 0.00127 + 1e-3);
    }
}

#[test]
fn small_steps_move_smoothly() {
    let mut s = build(&line_graph_json(), 3.0).unwrap();
    s.car.pause_secs_left = d(0.0);
    s.car.drive_secs_left = d(1000.0);
    let (lat0, lon0) = (f(s.lat()), f(s.lon()));
    advance(&mut s, 0.1);
    let moved = haversine_m(lat0, lon0, f(s.lat()), f(s.lon()));
    assert!(moved < 5.0, "spostamento per step troppo grande: {moved} m");
    assert!(moved > 0.0);
}

#[test]
fn speed_zero_while_paused() {
    let mut s = build(&line_graph_json(), 42.0).unwrap();
    s.car.pause_secs_left = d(100.0);
    let (lat0, lon0) = (s.lat(), s.lon());
    advance(&mut s, 1.0);
    assert_eq!(f(s.speed_kmh()), 0.0);
    assert!(!s.moving());
    assert_eq!(s.lat(), lat0);
    assert_eq!(s.lon(), lon0);
    assert_eq!(f(s.car.pause_secs_left), 99.0);
}

// The same walk, written with plain doubles.
struct Walker {
    nodes: Vec<(f64, f64)>,
    adj: Vec<Vec<u32>>,
    state: u64,
    from: usize,
    to: usize,
    offset: f64,
    speed: f64,
    drive: f64,
    pause: f64,
    shown: f64,
    lat: f64,
    lon: f64,
}

impl Walker {
    fn next(&mut self) -> u64 {
        let mut x = self.state;
        x ^= x << 13;
        x ^= x >> 7;
        x ^= x << 17;
        self.state = x;
        x.wrapping_mul(0x2545_F491_4F6C_DD1D)
    }

    fn range(&mut self, lo: f64, hi: f64) -> f64 {
        lo + (hi - lo) * ((self.next() >> 11) as f64 / (1u64 << 53) as f64)
    }

    fn below(&mut self, n: usize) -> usize {
        (self.next() % n as u64) as usize
    }

    fn new(nodes: Vec<(f64, f64)>, adj: Vec<Vec<u32>>, seed: u64) -> Walker {
        let mut w = Walker {
            nodes,
            adj,
            state: seed ^ 0x9E37_79B9_7F4A_7C15 | 1,
            from: 0,
            to: 0,
            offset: 0.0,
            speed: 0.0,
            drive: 0.0,
            pause: 0.0,
            shown: 0.0,
            lat: 0.0,
            lon: 0.0,
        };
        let n = w.nodes.len();
        w.from = w.below(n);
        while w.adj[w.from].is_empty() {
            w.from = (w.from + 1) % n;
        }
        let k = w.adj[w.from].len();
        let i = w.below(k);
        w.to = w.adj[w.from][i] as usize;
        (w.lat, w.lon) = w.nodes[w.from];
        w.speed = w.range(30.0, 70.0) / 3.6;
        w.drive = w.range(90.0, 600.0);
        w
    }

    fn len(&self) -> f64 {
        let (a, b) = (self.nodes[self.from], self.nodes[self.to]);
        haversine_m(a.0, a.1, b.0, b.1)
    }

    fn advance(&mut self, dt: f64) {
        if dt <= 0.0 {
            return;
        }
        if self.pause > 0.0 {
            self.pause -= dt;
            if self.pause > 0.0 {
                self.shown = 0.0;
                return;
            }
            self.pause = 0.0;
            self.speed = self.range(30.0, 70.0) / 3.6;
        }
        self.drive -= dt;
        if self.drive <= 0.0 {
            self.pause = self.range(10.0, 240.0);
            self.drive = self.range(90.0, 600.0);
            self.shown = 0.0;
            return;
        }
        self.shown = self.speed * 3.6;
        let mut budget = self.speed * dt;
        let mut steps = 0;
        loop {
            steps += 1;
            if steps > 10_000 {
                break;
            }
            let remain = self.len() - self.offset;
            if budget < remain {
                self.offset += budget;
                break;
            }
            budget -= remain.max(0.0);
            let (node, before) = (self.to, self.from);
            let ways: Vec<usize> = self.adj[node]
                .iter()
                .map(|&x| x as usize)
                .filter(|&x| x != before)
                .collect();
            let next = if ways.is_empty() { before } else { ways[self.below(ways.len())] };
            self.from = node;
            self.to = next;
            self.offset = 0.0;
            if self.adj[node].len() != 2 {
                self.speed = self.range(30.0, 70.0) / 3.6;
            }
        }
        let (a, b) = (self.nodes[self.from], self.nodes[self.to]);
        let seg = self.len();
        let frac = if seg > 0.0 { (self.offset / seg).clamp(0.0, 1.0) } else { 0.0 };
        self.lat = a.0 + (b.0 - a.0) * frac;
        self.lon = a.1 + (b.1 - a.1) * frac;
    }
}

fn town() -> (Vec<(f64, f64)>, Vec<Vec<u32>>) {
    // A star with a loop, a dead end and a lonely node.
    let nodes = vec![
        (45.070, 7.680),
        (45.071, 7.681),
        (45.072, 7.680),
        (45.071, 7.679),
        (45.073, 7.683),
        (45.060, 7.660),
    ];
    let adj = vec![vec![1, 3], vec![0, 2, 4], vec![1, 3], vec![2, 0], vec![1], vec![]];
    (nodes, adj)
}

#[test]
fn drives_like_a_plain_walker() {
    for seed in [0u64, 1, 5, 77, 1_700_000_000_000] {
        let (nodes, adj) = town();
        let graph = Graph {
            nodes: nodes.iter().map(|p| Place { lat: d(p.0), lon: d(p.1) }).collect(),
            adj: adj.clone(),
        };
        let mut w = Walker::new(nodes, adj, seed);
        let mut s = Simulator::build(graph, seed).unwrap();
        settle(&mut s);
        for i in 0..3000 {
            let dt = [0.1, 1.0, 7.5, 30.0, -1.0, 0.0][i % 6];
            w.advance(dt);
            advance(&mut s, dt);
            assert_eq!(f(s.lat()), w.lat);
            assert_eq!(f(s.lon()), w.lon);
            assert_eq!(f(s.speed_kmh()), w.shown);
            assert_eq!(s.moving(), w.pause <= 0.0);
            assert_eq!((s.car.from, s.car.to), (w.from, w.to));
            assert_eq!(s.car.rng.state, w.state);
        }
    }
}

#[test]
fn no_time_changes_nothing() {
    let mut s = build(&line_graph_json(), 4.0).unwrap();
    let before = s.car;
    for dt in [0.0, -0.0, -5.0, f64::NEG_INFINITY] {
        assert_eq!(advance(&mut s, dt), 0);
        assert_eq!(s.car, before);
    }
}

#[test]
fn roads_without_length_end_the_advance() {
    let at = Place { lat: d(45.0), lon: d(7.0) };
    let graph = Graph { nodes: vec![at, at], adj: vec![vec![1], vec![0]] };
    let mut s = Simulator::build(graph, 9).unwrap();
    settle(&mut s);
    s.car.drive_secs_left = d(1000.0);
    let n = advance(&mut s, 1.0);
    assert!(n as u32 >= 3 * MAX_STEPS);
    assert!(n <= 50_010);
    assert_eq!(s.car.stage, Stage::Ready);
    assert_eq!(s.lat(), at.lat);
}

#[test]
fn refuses_what_cannot_be_driven_on() {
    let empty = Graph { nodes: vec![], adj: vec![] };
    let e = Simulator::build(empty, 1).err().unwrap();
    assert_eq!(e, BuildError::Empty);
    assert_eq!(e.explain(), "grafo vuoto");
    let at = Place { lat: d(45.0), lon: d(7.0) };
    let bare = Graph { nodes: vec![at, at, at], adj: vec![vec![], vec![], vec![]] };
    let e = Simulator::build(bare, 1).err().unwrap();
    assert_eq!(e, BuildError::NoRoads);
    assert_eq!(e.explain(), "grafo senza archi");
}

#[test]
fn start_skips_nodes_without_roads() {
    let at = Place { lat: d(45.0), lon: d(7.0) };
    for seed in 0..50 {
        let graph = Graph {
            nodes: vec![at; 5],
            adj: vec![vec![], vec![], vec![4], vec![], vec![2]],
        };
        let s = Simulator::build(graph, seed).unwrap();
        assert!(s.car.from == 2 || s.car.from == 4);
        assert_eq!(s.car.from + s.car.to, 6);
    }
}

#[test]
fn unsound_graphs_are_seen() {
    let at = Place { lat: d(45.0), lon: d(7.0) };
    assert!(Graph { nodes: vec![at, at], adj: vec![vec![1], vec![0]] }.is_well_formed());
    assert!(!Graph { nodes: vec![at, at], adj: vec![vec![1]] }.is_well_formed());
    assert!(!Graph { nodes: vec![at, at], adj: vec![vec![1], vec![2]] }.is_well_formed());
}

#[test]
fn turns_back_only_in_a_dead_end() {
    let at = Place { lat: d(45.0), lon: d(7.0) };
    let graph = Graph { nodes: vec![at; 4], adj: vec![vec![1], vec![0, 2, 3], vec![1], vec![1]] };
    let mut seen = [false; 4];
    let mut rng = Rng::new(3);
    for _ in 0..100 {
        let before = rng;
        assert_eq!(graph.pick_next(&mut rng, 0, 1), 1);
        assert_eq!(rng, before);
        let next = graph.pick_next(&mut rng, 1, 0);
        assert!(rng != before);
        assert!(next == 2 || next == 3);
        seen[next] = true;
    }
    assert!(seen[2] && seen[3]);
    assert!(graph.is_intersection(0) && graph.is_intersection(1));
}

#[test]
fn generator_gives_known_numbers() {
    let mut rng = Rng::new(0);
    assert_eq!(rng.state, 0x9e37_79b9_7f4a_7c15);
    let mut x: u64 = 0x9e37_79b9_7f4a_7c15;
    for _ in 0..1000 {
        x ^= x << 13;
        x ^= x >> 7;
        x ^= x << 17;
        assert_eq!(rng.next_u64(), x.wrapping_mul(0x2545_f491_4f6c_dd1d));
        assert_eq!(rng.state, x);
        assert!(x != 0);
    }
    let mut copy = rng;
    assert_eq!(copy.draw(), rng.next_u64() >> 11);
    let mut copy = rng;
    assert_eq!(copy.below(7) as u64, rng.next_u64() % 7);
}

#[test]
fn stands_in_place_and_moves_at_city_speed() {
    let (nodes, adj) = town();
    let graph = Graph {
        nodes: nodes.iter().map(|n| Place { lat: d(n.0), lon: d(n.1) }).collect(),
        adj,
    };
    let mut s = Simulator::build(graph, 11).unwrap();
    settle(&mut s);
    let (mut begun, mut stood) = (0, 0);
    for i in 0..20_000 {
        let (lat, lon, moving) = (s.lat(), s.lon(), s.moving());
        advance(&mut s, 0.3 + (i % 7) as f64 * 0.1);
        if s.moving() {
            let kmh = f(s.speed_kmh());
            assert!((30.0 - 1e-9..=70.0 + 1e-9).contains(&kmh), "{kmh}");
        } else {
            assert_eq!((s.lat(), s.lon()), (lat, lon));
            assert_eq!(f(s.speed_kmh()), 0.0);
            if moving {
                begun += 1;
            } else {
                stood += 1;
            }
        }
        // The place is on the road between the two nodes.
        let (a, b) = (s.graph.coord(s.car.from), s.graph.coord(s.car.to));
        assert!(s.graph.adj[s.car.from].contains(&(s.car.to as u32)));
        for (x, p, q) in [(s.lat(), a.lat, b.lat), (s.lon(), a.lon, b.lon)] {
            let (lo, hi) = (f(p).min(f(q)), f(p).max(f(q)));
            assert!(lo - 1e-12 <= f(x) && f(x) <= hi + 1e-12);
        }
    }
    assert!(begun > 0 && stood > 0);
}

#[test]
fn a_missing_node_is_noticed_on_the_way() {
    let at = |lon: f64| Place { lat: d(45.0), lon: d(lon) };
    let graph = || Graph { nodes: vec![at(7.0), at(7.001)], adj: vec![vec![1], vec![0, 2]] };
    for seed in 0..20 {
        let mut s = Simulator::build(graph(), seed).unwrap();
        let mut steps = 0;
        // The third node is not there, and nothing else leads on from the second.
        loop {
            if !s.is_on_map() {
                assert_eq!(s.car.to, 2);
                break;
            }
            match s.wanted() {
                Some(calc) => s.supply(eval(calc)),
                None => s.advance(d(1.0)),
            }
            steps += 1;
            assert!(steps < 100_000);
        }
    }
}

#[test]
fn doubles_compute_as_the_laws_take_it() {
    let xs = [
        f64::NAN,
        f64::NEG_INFINITY,
        -f64::MAX,
        -1.5,
        -5e-324,
        -0.0,
        0.0,
        5e-324,
        f64::MIN_POSITIVE,
        1e-9,
        1.0,
        3.6,
        70.0,
        999.9,
        1e300,
        f64::MAX,
        f64::INFINITY,
    ];
    let inf = f64::INFINITY;
    for a in xs {
        for b in xs {
            let sum = f(eval(Calc::Sum(d(a), d(b))));
            let difference = f(eval(Calc::Difference(d(a), d(b))));
            let product = f(eval(Calc::Product(d(a), d(b))));
            let quotient = f(eval(Calc::Quotient(d(a), d(b))));
            assert!(!(a >= 0.0 && b >= 0.0) || sum >= 0.0);
            assert!(!(a != inf && b >= 0.0) || difference != inf);
            let enough = b >= 0.0 && b < inf && (a.is_nan() || b <= a);
            assert!(!enough || difference.is_nan() || difference >= 0.0);
            let scaled = a > 0.0 && (b.is_nan() || b > 0.0);
            assert!(!scaled || product.is_nan() || product >= 0.0);
            assert!(!(a >= 0.0 && b > 0.0 && b < inf) || quotient >= 0.0);
            let there = Place { lat: d(a), lon: d(b) };
            let here = Place { lat: d(45.0), lon: d(7.0) };
            assert_ne!(f(eval(Calc::Length { from: here, to: there })), inf);
        }
    }
    for draw in [0, 1, 2, DRAWS / 3, DRAWS / 2, DRAWS - 2, DRAWS - 1] {
        for (lo, hi) in [(30.0, 70.0), (90.0, 600.0), (10.0, 240.0)] {
            let x = f(eval(Calc::Within { lo: d(lo), hi: d(hi), draw }));
            assert!(lo <= x && x <= hi);
        }
    }
}
