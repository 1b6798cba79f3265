//! A vehicle that drives along a road graph: at city speeds, choosing its way
//! at intersections, with a pause now and then.
//!
//! The simulator decides; it does no arithmetic on doubles. Where it needs a
//! sum, a product or a length, it says which (`Simulator::wanted`) and goes on
//! when it is given the value (`Simulator::supply`).

use crate::double::{number, Double, ONE, ZERO};
use crate::graph::{Graph, Place, Roads};
use crate::rng::Rng;
use vstd::prelude::*;

verus! {

/// The pattern of 30: the lowest speed, in km/h.
pub const SPEED_MIN_KMH: u64 = 0x403e_0000_0000_0000;

/// The pattern of 70: the highest speed, in km/h.
pub const SPEED_MAX_KMH: u64 = 0x4051_8000_0000_0000;

/// The pattern of 90: the shortest drive between two pauses, in seconds.
pub const DRIVE_MIN_SECS: u64 = 0x4056_8000_0000_0000;

/// The pattern of 600: the longest drive between two pauses, in seconds.
pub const DRIVE_MAX_SECS: u64 = 0x4082_c000_0000_0000;

/// The pattern of 10: the shortest pause, in seconds.
pub const PAUSE_MIN_SECS: u64 = 0x4024_0000_0000_0000;

/// The pattern of 240: the longest pause, in seconds.
pub const PAUSE_MAX_SECS: u64 = 0x406e_0000_0000_0000;

/// The pattern of 3.6: km/h to the metre per second.
pub const KMH_PER_MPS: u64 = 0x400c_cccc_cccc_cccd;

/// Two to the power of fifty-three: a rounded result is off by at most one part
/// in as many.
pub const PRECISION: u64 = 0x20_0000_0000_0000;

/// The most nodes that one advance passes.
pub const MAX_STEPS: u32 = 10_000;

/// A value that the simulator needs.
#[derive(Debug, Clone, Copy, PartialEq, Eq, Structural)]
pub enum Calc {
    /// `a + b`.
    Sum(Double, Double),
    /// `a - b`.
    Difference(Double, Double),
    /// `a * b`.
    Product(Double, Double),
    /// `a / b`.
    Quotient(Double, Double),
    /// `lo + (hi - lo) * u`, where `u` is `draw` parts in `rng::DRAWS`.
    Within { lo: Double, hi: Double, draw: u64 },
    /// `start + (end - start) * share`.
    Along { start: Double, end: Double, share: Double },
    /// The distance between two places, in metres.
    Length { from: Place, to: Place },
}

/// Which value the vehicle waits for.
#[derive(Debug, Clone, Copy, PartialEq, Eq, Structural)]
pub enum Stage {
    /// None: it can be advanced.
    Ready,
    /// At the start: a speed in km/h, the same in m/s, and the time to drive.
    StartRange { draw: u64 },
    StartSpeed { kmh: Double },
    StartDrive { draw: u64 },
    /// What is left of the pause.
    PauseLeft { dt: Double },
    /// After a pause: a speed in km/h, and the same in m/s.
    RestartRange { dt: Double, draw: u64 },
    RestartSpeed { dt: Double, kmh: Double },
    /// What is left of the drive.
    DriveLeft { dt: Double },
    /// At the end of a drive: the time to pause, and the time to drive then.
    NextPause { draw: u64 },
    NextDrive { draw: u64 },
    /// The speed in km/h, and the metres to go at that speed.
    Gauge { dt: Double },
    Reach { dt: Double },
    /// The length of the road ahead, and what remains of it.
    Stretch { budget: Double, steps: u32 },
    Remainder { budget: Double, steps: u32, seg: Double },
    /// How far along the road the vehicle stops.
    Stop { budget: Double },
    /// What is left to go at the next node.
    Spend { budget: Double, steps: u32, remain: Double },
    /// At an intersection: a speed in km/h, and the same in m/s.
    TurnRange { budget: Double, steps: u32, draw: u64 },
    TurnSpeed { budget: Double, steps: u32, kmh: Double },
    /// The length of the road, the share of it that is behind, and the place.
    Span,
    Share { seg: Double },
    Latitude { share: Double },
    Longitude { share: Double },
}

/// The vehicle.
#[derive(Debug, Clone, Copy, PartialEq, Eq, Structural)]
pub struct Car {
    pub rng: Rng,
    /// The node that the vehicle comes from.
    pub from: usize,
    /// The node that it goes to.
    pub to: usize,
    /// How far it is along the road, in metres.
    pub offset_m: Double,
    /// Its speed in m/s.
    pub speed_mps: Double,
    /// The seconds left to drive before the next pause.
    pub drive_secs_left: Double,
    /// The seconds left to pause; more than zero in a pause.
    pub pause_secs_left: Double,
    /// The speed it shows, in km/h.
    pub last_speed_kmh: Double,
    pub lat: Double,
    pub lon: Double,
    pub stage: Stage,
}

/// The vehicle and the roads it drives on.
#[derive(Debug)]
pub struct Simulator {
    pub graph: Graph,
    pub car: Car,
}

/// Why there is nothing to drive on.
#[derive(Debug, Clone, Copy, PartialEq, Eq, Structural)]
pub enum BuildError {
    /// The graph has no node.
    Empty,
    /// The graph has no road.
    NoRoads,
}

impl BuildError {
    /// What is told of it.
    pub fn explain(&self) -> (t: String)
        ensures
            t@ == (match self {
                BuildError::Empty => "grafo vuoto"@,
                BuildError::NoRoads => "grafo senza archi"@,
            }),
    {
        match self {
            BuildError::Empty => crate::text::copy_text("grafo vuoto"),
            BuildError::NoRoads => crate::text::copy_text("grafo senza archi"),
        }
    }
}

/// The node at which a vehicle starts.
pub open spec fn start_node(g: Roads, rng: Rng) -> int {
    g.search(rng.output() as int % g.nodes.len() as int, g.nodes.len())
}

/// The vehicle of a generator, at its start: on a road that leaves the start
/// node, not yet moving, and waiting for its first speed.
pub open spec fn start(g: Roads, rng: Rng) -> Car {
    let from = start_node(g, rng);
    let roads = g.adj[from];
    let to = roads[rng.next().output() as int % roads.len() as int];
    Car {
        rng: rng.next().next().next(),
        from: from as usize,
        to: to as usize,
        offset_m: number(ZERO),
        speed_mps: number(ZERO),
        drive_secs_left: number(ZERO),
        pause_secs_left: number(ZERO),
        last_speed_kmh: number(ZERO),
        lat: g.nodes[from].lat,
        lon: g.nodes[from].lon,
        stage: Stage::StartRange { draw: rng.next().next().fraction() },
    }
}

/// The vehicle when it is told to advance by `dt` seconds: nothing changes for
/// a time that is not positive; else the pause, or the drive, goes on.
pub open spec fn advanced(car: Car, dt: Double) -> Car {
    if dt.le(number(ZERO)) {
        car
    } else if number(ZERO).lt(car.pause_secs_left) {
        Car { stage: Stage::PauseLeft { dt }, ..car }
    } else {
        Car { stage: Stage::DriveLeft { dt }, ..car }
    }
}

/// The value that the vehicle waits for.
pub open spec fn wanted(g: Roads, car: Car) -> Option<Calc> {
    match car.stage {
        Stage::Ready => None,
        Stage::StartRange { draw } => Some(speed_within(draw)),
        Stage::StartSpeed { kmh } => Some(Calc::Quotient(kmh, number(KMH_PER_MPS))),
        Stage::StartDrive { draw } => Some(drive_within(draw)),
        Stage::PauseLeft { dt } => Some(Calc::Difference(car.pause_secs_left, dt)),
        Stage::RestartRange { dt, draw } => Some(speed_within(draw)),
        Stage::RestartSpeed { dt, kmh } => Some(Calc::Quotient(kmh, number(KMH_PER_MPS))),
        Stage::DriveLeft { dt } => Some(Calc::Difference(car.drive_secs_left, dt)),
        Stage::NextPause { draw } => Some(pause_within(draw)),
        Stage::NextDrive { draw } => Some(drive_within(draw)),
        Stage::Gauge { dt } => Some(Calc::Product(car.speed_mps, number(KMH_PER_MPS))),
        Stage::Reach { dt } => Some(Calc::Product(car.speed_mps, dt)),
        Stage::Stretch { budget, steps } => Some(road(g, car)),
        Stage::Remainder { budget, steps, seg } => Some(Calc::Difference(seg, car.offset_m)),
        Stage::Stop { budget } => Some(Calc::Sum(car.offset_m, budget)),
        Stage::Spend { budget, steps, remain } => Some(Calc::Difference(budget, remain)),
        Stage::TurnRange { budget, steps, draw } => Some(speed_within(draw)),
        Stage::TurnSpeed { budget, steps, kmh } => Some(
            Calc::Quotient(kmh, number(KMH_PER_MPS)),
        ),
        Stage::Span => Some(road(g, car)),
        Stage::Share { seg } => Some(Calc::Quotient(car.offset_m, seg)),
        Stage::Latitude { share } => Some(
            Calc::Along {
                start: g.nodes[car.from as int].lat,
                end: g.nodes[car.to as int].lat,
                share,
            },
        ),
        Stage::Longitude { share } => Some(
            Calc::Along {
                start: g.nodes[car.from as int].lon,
                end: g.nodes[car.to as int].lon,
                share,
            },
        ),
    }
}

/// A speed between the lowest and the highest.
pub open spec fn speed_within(draw: u64) -> Calc {
    Calc::Within { lo: number(SPEED_MIN_KMH), hi: number(SPEED_MAX_KMH), draw }
}

/// A time to drive between the shortest and the longest.
pub open spec fn drive_within(draw: u64) -> Calc {
    Calc::Within { lo: number(DRIVE_MIN_SECS), hi: number(DRIVE_MAX_SECS), draw }
}

/// A time to pause between the shortest and the longest.
pub open spec fn pause_within(draw: u64) -> Calc {
    Calc::Within { lo: number(PAUSE_MIN_SECS), hi: number(PAUSE_MAX_SECS), draw }
}

/// The length of the road that the vehicle is on.
pub open spec fn road(g: Roads, car: Car) -> Calc {
    Calc::Length { from: g.nodes[car.from as int], to: g.nodes[car.to as int] }
}

/// `x`, but zero in place of a negative number or of none.
pub open spec fn not_below_zero(x: Double) -> Double {
    if number(ZERO).lt(x) {
        x
    } else {
        number(ZERO)
    }
}

/// `x`, held between zero and one.
pub open spec fn clamped(x: Double) -> Double {
    if x.lt(number(ZERO)) {
        number(ZERO)
    } else if number(ONE).lt(x) {
        number(ONE)
    } else {
        x
    }
}

/// Look at the road ahead with `budget` metres to go, unless `steps` nodes are
/// enough for one advance.
pub open spec fn look_ahead(car: Car, budget: Double, steps: u32) -> Car {
    if steps < MAX_STEPS {
        Car { stage: Stage::Stretch { budget, steps: (steps + 1) as u32 }, ..car }
    } else {
        Car { stage: Stage::Span, ..car }
    }
}

/// The vehicle has reached the node ahead, with `budget` metres to go: it turns
/// into the next road, and at an intersection takes a new speed.
pub open spec fn arrived(g: Roads, car: Car, budget: Double, steps: u32) -> Car {
    let (node, before) = (car.to as int, car.from as int);
    let rng = g.after_choice(car.rng, node, before);
    let turned = Car {
        rng,
        from: car.to,
        to: g.onward(car.rng, node, before) as usize,
        offset_m: number(ZERO),
        ..car
    };
    if g.intersection(node) {
        Car {
            rng: rng.next(),
            stage: Stage::TurnRange { budget, steps, draw: rng.fraction() },
            ..turned
        }
    } else {
        look_ahead(turned, budget, steps)
    }
}

/// The vehicle when it is given the value that it waits for.
pub open spec fn supplied(g: Roads, car: Car, value: Double) -> Car {
    match car.stage {
        Stage::Ready => car,
        Stage::StartRange { draw } => Car { stage: Stage::StartSpeed { kmh: value }, ..car },
        Stage::StartSpeed { kmh } => Car {
            speed_mps: value,
            rng: car.rng.next(),
            stage: Stage::StartDrive { draw: car.rng.fraction() },
            ..car
        },
        Stage::StartDrive { draw } => Car { drive_secs_left: value, stage: Stage::Ready, ..car },
        Stage::PauseLeft { dt } => if number(ZERO).lt(value) {
            Car {
                pause_secs_left: value,
                last_speed_kmh: number(ZERO),
                stage: Stage::Ready,
                ..car
            }
        } else {
            Car {
                pause_secs_left: number(ZERO),
                rng: car.rng.next(),
                stage: Stage::RestartRange { dt, draw: car.rng.fraction() },
                ..car
            }
        },
        Stage::RestartRange { dt, draw } => Car {
            stage: Stage::RestartSpeed { dt, kmh: value },
            ..car
        },
        Stage::RestartSpeed { dt, kmh } => Car {
            speed_mps: value,
            stage: Stage::DriveLeft { dt },
            ..car
        },
        Stage::DriveLeft { dt } => if value.le(number(ZERO)) {
            Car {
                drive_secs_left: value,
                rng: car.rng.next(),
                stage: Stage::NextPause { draw: car.rng.fraction() },
                ..car
            }
        } else {
            Car { drive_secs_left: value, stage: Stage::Gauge { dt }, ..car }
        },
        Stage::NextPause { draw } => Car {
            pause_secs_left: value,
            rng: car.rng.next(),
            stage: Stage::NextDrive { draw: car.rng.fraction() },
            ..car
        },
        Stage::NextDrive { draw } => Car {
            drive_secs_left: value,
            last_speed_kmh: number(ZERO),
            stage: Stage::Ready,
            ..car
        },
        Stage::Gauge { dt } => Car { last_speed_kmh: value, stage: Stage::Reach { dt }, ..car },
        Stage::Reach { dt } => look_ahead(car, value, 0),
        Stage::Stretch { budget, steps } => Car {
            stage: Stage::Remainder { budget, steps, seg: value },
            ..car
        },
        Stage::Remainder { budget, steps, seg } => if budget.lt(value) {
            Car { stage: Stage::Stop { budget }, ..car }
        } else {
            Car { stage: Stage::Spend { budget, steps, remain: not_below_zero(value) }, ..car }
        },
        Stage::Stop { budget } => Car { offset_m: value, stage: Stage::Span, ..car },
        Stage::Spend { budget, steps, remain } => arrived(g, car, value, steps),
        Stage::TurnRange { budget, steps, draw } => Car {
            stage: Stage::TurnSpeed { budget, steps, kmh: value },
            ..car
        },
        Stage::TurnSpeed { budget, steps, kmh } => look_ahead(
            Car { speed_mps: value, ..car },
            budget,
            steps,
        ),
        Stage::Span => if number(ZERO).lt(value) {
            Car { stage: Stage::Share { seg: value }, ..car }
        } else {
            Car { stage: Stage::Latitude { share: number(ZERO) }, ..car }
        },
        Stage::Share { seg } => Car {
            stage: Stage::Latitude { share: clamped(value) },
            ..car
        },
        Stage::Latitude { share } => Car { lat: value, stage: Stage::Longitude { share }, ..car },
        Stage::Longitude { share } => Car { lon: value, stage: Stage::Ready, ..car },
    }
}

/// The vehicle is on a road of the graph.
pub open spec fn on_road(g: Roads, car: Car) -> bool {
    &&& car.from < g.nodes.len()
    &&& car.to < g.nodes.len()
    &&& g.joined(car.from as int, car.to as int)
}

/// The next step of the vehicle looks at the graph.
pub open spec fn reads_map(stage: Stage) -> bool {
    match stage {
        Stage::Stretch { .. } => true,
        Stage::Spend { .. } => true,
        Stage::Span => true,
        Stage::Latitude { .. } => true,
        Stage::Longitude { .. } => true,
        _ => false,
    }
}

/// What the next step of the vehicle looks at is there: the ends of its road,
/// and the roads at the one ahead.
pub open spec fn on_map(g: Roads, car: Car) -> bool {
    reads_map(car.stage) ==> {
        &&& car.from < g.nodes.len()
        &&& car.to < g.nodes.len()
        &&& car.to < g.adj.len()
    }
}

impl Simulator {
    /// The graph is sound and the vehicle is on one of its roads.
    pub open spec fn wf(&self) -> bool {
        self.graph@.wf() && on_road(self.graph@, self.car)
    }

    /// Puts a vehicle on a graph, at a node with a road that the seed chooses.
    pub fn build(graph: Graph, seed: u64) -> (r: Result<Simulator, BuildError>)
        requires
            graph@.listed(),
        ensures
            match r {
                Ok(s) => {
                    &&& graph@.nodes.len() > 0
                    &&& !graph@.barren()
                    &&& s.graph == graph
                    &&& s.car == start(
                        graph@,
                        (Rng { state: (seed ^ crate::rng::SEED_MIX) | 1 }),
                    )
                    &&& graph@.wf() ==> s.wf()
                },
                Err(BuildError::Empty) => graph@.nodes.len() == 0,
                Err(BuildError::NoRoads) => graph@.nodes.len() > 0 && graph@.barren(),
            },
    {
        let n: usize = graph.nodes.len();
        if n == 0 {
            return Err(BuildError::Empty);
        }
        let mut rng = Rng::new(seed);
        let ghost seeded = rng;
        let mut from: usize = rng.below(n);
        let ghost first = from as int;
        let mut tries: usize = n;
        while tries > 0 && graph.adj[from].len() == 0
            invariant
                n == graph@.nodes.len(),
                n > 0,
                graph@.listed(),
                tries <= n,
                from < n,
                graph@.search(from as int, tries as nat) == graph@.search(first, n as nat),
            decreases tries,
        {
            assert(graph@.adj[from as int] == graph.adj@[from as int]@);
            from = (from + 1) % n;
            tries = tries - 1;
        }
        assert(graph@.adj[from as int] == graph.adj@[from as int]@);
        proof {
            crate::graph::law_search_finds_a_road(graph@, first);
        }
        let m: usize = graph.adj[from].len();
        if m == 0 {
            return Err(BuildError::NoRoads);
        }
        let k: usize = rng.below(m);
        let to: usize = graph.adj[from][k] as usize;
        let at: Place = graph.coord(from);
        let draw: u64 = rng.draw();
        let car = Car {
            rng,
            from,
            to,
            offset_m: number(ZERO),
            speed_mps: number(ZERO),
            drive_secs_left: number(ZERO),
            pause_secs_left: number(ZERO),
            last_speed_kmh: number(ZERO),
            lat: at.lat,
            lon: at.lon,
            stage: Stage::StartRange { draw },
        };
        proof {
            assert(graph@.adj[from as int][k as int] == to as u32);
            assert(car == start(graph@, seeded));
        }
        Ok(Simulator { graph, car })
    }

    /// Tells the vehicle to advance by a number of seconds. It has advanced
    /// once it has been given every value that it then wants.
    pub fn advance(&mut self, dt_secs: Double)
        requires
            old(self).car.stage is Ready,
        ensures
            final(self).graph == old(self).graph,
            final(self).car == advanced(old(self).car, dt_secs),
            old(self).wf() ==> final(self).wf(),
    {
        if dt_secs.at_most(number(ZERO)) {
            return;
        }
        if number(ZERO).less_than(self.car.pause_secs_left) {
            self.car.stage = Stage::PauseLeft { dt: dt_secs };
        } else {
            self.car.stage = Stage::DriveLeft { dt: dt_secs };
        }
    }

    /// Whether what the next step looks at is there. It always is on a sound
    /// graph; on another, a road may lead to a node that is missing.
    pub fn is_on_map(&self) -> (b: bool)
        ensures
            b == on_map(self.graph@, self.car),
            self.wf() ==> b,
    {
        let reads: bool = match self.car.stage {
            Stage::Stretch { budget: _, steps: _ } => true,
            Stage::Spend { budget: _, steps: _, remain: _ } => true,
            Stage::Span => true,
            Stage::Latitude { share: _ } => true,
            Stage::Longitude { share: _ } => true,
            _ => false,
        };
        let n: usize = self.graph.nodes.len();
        !reads || (self.car.from < n && self.car.to < n && self.car.to < self.graph.adj.len())
    }

    /// The value that the vehicle waits for; none, when it can be advanced.
    pub fn wanted(&self) -> (calc: Option<Calc>)
        requires
            on_map(self.graph@, self.car),
        ensures
            calc == wanted(self.graph@, self.car),
            calc is None <==> self.car.stage is Ready,
    {
        let car = self.car;
        let kmh_per_mps = number(KMH_PER_MPS);
        match car.stage {
            Stage::Ready => None,
            Stage::StartRange { draw } => Some(speed_calc(draw)),
            Stage::StartSpeed { kmh } => Some(Calc::Quotient(kmh, kmh_per_mps)),
            Stage::StartDrive { draw } => Some(drive_calc(draw)),
            Stage::PauseLeft { dt } => Some(Calc::Difference(car.pause_secs_left, dt)),
            Stage::RestartRange { dt: _, draw } => Some(speed_calc(draw)),
            Stage::RestartSpeed { dt: _, kmh } => Some(Calc::Quotient(kmh, kmh_per_mps)),
            Stage::DriveLeft { dt } => Some(Calc::Difference(car.drive_secs_left, dt)),
            Stage::NextPause { draw } => Some(
                Calc::Within { lo: number(PAUSE_MIN_SECS), hi: number(PAUSE_MAX_SECS), draw },
            ),
            Stage::NextDrive { draw } => Some(drive_calc(draw)),
            Stage::Gauge { dt: _ } => Some(Calc::Product(car.speed_mps, kmh_per_mps)),
            Stage::Reach { dt } => Some(Calc::Product(car.speed_mps, dt)),
            Stage::Stretch { budget: _, steps: _ } => Some(self.road()),
            Stage::Remainder { budget: _, steps: _, seg } => Some(
                Calc::Difference(seg, car.offset_m),
            ),
            Stage::Stop { budget } => Some(Calc::Sum(car.offset_m, budget)),
            Stage::Spend { budget, steps: _, remain } => Some(Calc::Difference(budget, remain)),
            Stage::TurnRange { budget: _, steps: _, draw } => Some(speed_calc(draw)),
            Stage::TurnSpeed { budget: _, steps: _, kmh } => Some(
                Calc::Quotient(kmh, kmh_per_mps),
            ),
            Stage::Span => Some(self.road()),
            Stage::Share { seg } => Some(Calc::Quotient(car.offset_m, seg)),
            Stage::Latitude { share } => Some(
                Calc::Along {
                    start: self.graph.coord(car.from).lat,
                    end: self.graph.coord(car.to).lat,
                    share,
                },
            ),
            Stage::Longitude { share } => Some(
                Calc::Along {
                    start: self.graph.coord(car.from).lon,
                    end: self.graph.coord(car.to).lon,
                    share,
                },
            ),
        }
    }

    fn road(&self) -> (calc: Calc)
        requires
            self.car.from < self.graph@.nodes.len(),
            self.car.to < self.graph@.nodes.len(),
        ensures
            calc == road(self.graph@, self.car),
    {
        Calc::Length {
            from: self.graph.coord(self.car.from),
            to: self.graph.coord(self.car.to),
        }
    }

    fn look_ahead(&mut self, budget: Double, steps: u32)
        ensures
            final(self).graph == old(self).graph,
            final(self).car == look_ahead(old(self).car, budget, steps),
    {
        if steps < MAX_STEPS {
            self.car.stage = Stage::Stretch { budget, steps: steps + 1 };
        } else {
            self.car.stage = Stage::Span;
        }
    }

    fn arrive(&mut self, budget: Double, steps: u32)
        requires
            old(self).car.to < old(self).graph@.adj.len(),
        ensures
            final(self).graph == old(self).graph,
            final(self).car == arrived(old(self).graph@, old(self).car, budget, steps),
            old(self).wf() ==> final(self).wf(),
    {
        let node: usize = self.car.to;
        let before: usize = self.car.from;
        proof {
            if self.wf() {
                crate::graph::law_onward_follows_a_road(
                    self.graph@,
                    self.car.rng,
                    node as int,
                    before as int,
                );
            }
        }
        let mut rng = self.car.rng;
        let next: usize = self.graph.pick_next(&mut rng, node, before);
        self.car.from = node;
        self.car.to = next;
        self.car.offset_m = number(ZERO);
        if self.graph.is_intersection(node) {
            let draw: u64 = rng.draw();
            self.car.rng = rng;
            self.car.stage = Stage::TurnRange { budget, steps, draw };
        } else {
            self.car.rng = rng;
            self.look_ahead(budget, steps);
        }
    }

    /// Gives the vehicle the value that it waits for.
    pub fn supply(&mut self, value: Double)
        requires
            on_map(old(self).graph@, old(self).car),
            !(old(self).car.stage is Ready),
        ensures
            final(self).graph == old(self).graph,
            final(self).car == supplied(old(self).graph@, old(self).car, value),
            old(self).wf() ==> final(self).wf(),
    {
        match self.car.stage {
            Stage::Ready => {},
            Stage::StartRange { draw: _ } => {
                self.car.stage = Stage::StartSpeed { kmh: value };
            },
            Stage::StartSpeed { kmh: _ } => {
                self.car.speed_mps = value;
                let draw: u64 = self.car.rng.draw();
                self.car.stage = Stage::StartDrive { draw };
            },
            Stage::StartDrive { draw: _ } => {
                self.car.drive_secs_left = value;
                self.car.stage = Stage::Ready;
            },
            Stage::PauseLeft { dt } => {
                if number(ZERO).less_than(value) {
                    self.car.pause_secs_left = value;
                    self.car.last_speed_kmh = number(ZERO);
                    self.car.stage = Stage::Ready;
                } else {
                    self.car.pause_secs_left = number(ZERO);
                    let draw: u64 = self.car.rng.draw();
                    self.car.stage = Stage::RestartRange { dt, draw };
                }
            },
            Stage::RestartRange { dt, draw: _ } => {
                self.car.stage = Stage::RestartSpeed { dt, kmh: value };
            },
            Stage::RestartSpeed { dt, kmh: _ } => {
                self.car.speed_mps = value;
                self.car.stage = Stage::DriveLeft { dt };
            },
            Stage::DriveLeft { dt } => {
                self.car.drive_secs_left = value;
                if value.at_most(number(ZERO)) {
                    let draw: u64 = self.car.rng.draw();
                    self.car.stage = Stage::NextPause { draw };
                } else {
                    self.car.stage = Stage::Gauge { dt };
                }
            },
            Stage::NextPause { draw: _ } => {
                self.car.pause_secs_left = value;
                let draw: u64 = self.car.rng.draw();
                self.car.stage = Stage::NextDrive { draw };
            },
            Stage::NextDrive { draw: _ } => {
                self.car.drive_secs_left = value;
                self.car.last_speed_kmh = number(ZERO);
                self.car.stage = Stage::Ready;
            },
            Stage::Gauge { dt } => {
                self.car.last_speed_kmh = value;
                self.car.stage = Stage::Reach { dt };
            },
            Stage::Reach { dt: _ } => {
                self.look_ahead(value, 0);
            },
            Stage::Stretch { budget, steps } => {
                self.car.stage = Stage::Remainder { budget, steps, seg: value };
            },
            Stage::Remainder { budget, steps, seg: _ } => {
                if budget.less_than(value) {
                    self.car.stage = Stage::Stop { budget };
                } else {
                    let remain = if number(ZERO).less_than(value) {
                        value
                    } else {
                        number(ZERO)
                    };
                    self.car.stage = Stage::Spend { budget, steps, remain };
                }
            },
            Stage::Stop { budget: _ } => {
                self.car.offset_m = value;
                self.car.stage = Stage::Span;
            },
            Stage::Spend { budget: _, steps, remain: _ } => {
                self.arrive(value, steps);
            },
            Stage::TurnRange { budget, steps, draw: _ } => {
                self.car.stage = Stage::TurnSpeed { budget, steps, kmh: value };
            },
            Stage::TurnSpeed { budget, steps, kmh: _ } => {
                self.car.speed_mps = value;
                self.look_ahead(budget, steps);
            },
            Stage::Span => {
                if number(ZERO).less_than(value) {
                    self.car.stage = Stage::Share { seg: value };
                } else {
                    self.car.stage = Stage::Latitude { share: number(ZERO) };
                }
            },
            Stage::Share { seg: _ } => {
                self.car.stage = Stage::Latitude { share: clamp(value) };
            },
            Stage::Latitude { share } => {
                self.car.lat = value;
                self.car.stage = Stage::Longitude { share };
            },
            Stage::Longitude { share: _ } => {
                self.car.lon = value;
                self.car.stage = Stage::Ready;
            },
        }
    }

    /// The latitude of the vehicle.
    pub fn lat(&self) -> (x: Double)
        ensures
            x == self.car.lat,
    {
        self.car.lat
    }

    /// The longitude of the vehicle.
    pub fn lon(&self) -> (x: Double)
        ensures
            x == self.car.lon,
    {
        self.car.lon
    }

    /// Whether the vehicle is not in a pause.
    pub fn moving(&self) -> (b: bool)
        ensures
            b == self.car.pause_secs_left.le(number(ZERO)),
    {
        self.car.pause_secs_left.at_most(number(ZERO))
    }

    /// The speed of the vehicle in km/h; zero in a pause.
    pub fn speed_kmh(&self) -> (x: Double)
        ensures
            x == self.car.last_speed_kmh,
    {
        self.car.last_speed_kmh
    }
}

fn speed_calc(draw: u64) -> (calc: Calc)
    ensures
        calc == speed_within(draw),
{
    Calc::Within { lo: number(SPEED_MIN_KMH), hi: number(SPEED_MAX_KMH), draw }
}

fn drive_calc(draw: u64) -> (calc: Calc)
    ensures
        calc == drive_within(draw),
{
    Calc::Within { lo: number(DRIVE_MIN_SECS), hi: number(DRIVE_MAX_SECS), draw }
}

fn clamp(x: Double) -> (y: Double)
    ensures
        y == clamped(x),
{
    if x.less_than(number(ZERO)) {
        number(ZERO)
    } else if number(ONE).less_than(x) {
        number(ONE)
    } else {
        x
    }
}

/// How many values an advance can still want, at most.
pub open spec fn still_wanted(stage: Stage) -> nat {
    let per_node: int = 5;
    let placing: int = 4;
    match stage {
        Stage::Ready => 0,
        Stage::StartRange { .. } => 3,
        Stage::StartSpeed { .. } => 2,
        Stage::StartDrive { .. } => 1,
        Stage::Longitude { .. } => 1,
        Stage::Latitude { .. } => 2,
        Stage::Share { .. } => 3,
        Stage::Span => 4,
        Stage::Stop { .. } => 5,
        Stage::NextDrive { .. } => 1,
        Stage::NextPause { .. } => 2,
        Stage::TurnSpeed { steps, .. } => (placing + per_node * (MAX_STEPS - steps) + 1) as nat,
        Stage::TurnRange { steps, .. } => (placing + per_node * (MAX_STEPS - steps) + 2) as nat,
        Stage::Spend { steps, .. } => (placing + per_node * (MAX_STEPS - steps) + 3) as nat,
        Stage::Remainder { steps, .. } => (placing + per_node * (MAX_STEPS - steps) + 4) as nat,
        Stage::Stretch { steps, .. } => (placing + per_node * (MAX_STEPS - steps) + 5) as nat,
        Stage::Reach { .. } => (placing + per_node * MAX_STEPS + 1) as nat,
        Stage::Gauge { .. } => (placing + per_node * MAX_STEPS + 2) as nat,
        Stage::DriveLeft { .. } => (placing + per_node * MAX_STEPS + 3) as nat,
        Stage::RestartSpeed { .. } => (placing + per_node * MAX_STEPS + 4) as nat,
        Stage::RestartRange { .. } => (placing + per_node * MAX_STEPS + 5) as nat,
        Stage::PauseLeft { .. } => (placing + per_node * MAX_STEPS + 6) as nat,
    }
}

/// No stage counts more nodes than one advance passes.
pub open spec fn counted(stage: Stage) -> bool {
    match stage {
        Stage::Stretch { steps, .. } => steps <= MAX_STEPS,
        Stage::Remainder { steps, .. } => steps <= MAX_STEPS,
        Stage::Spend { steps, .. } => steps <= MAX_STEPS,
        Stage::TurnRange { steps, .. } => steps <= MAX_STEPS,
        Stage::TurnSpeed { steps, .. } => steps <= MAX_STEPS,
        _ => true,
    }
}

/// Every advance comes to an end, whatever values the vehicle is given: each of
/// them leaves fewer to be wanted. Even where all roads have no length, it
/// passes no more than `MAX_STEPS` nodes.
pub proof fn law_advance_ends(g: Roads, car: Car, value: Double, dt: Double)
    requires
        counted(car.stage),
    ensures
        counted(supplied(g, car, value).stage),
        car.stage is Ready ==> counted(advanced(car, dt).stage),
        !(car.stage is Ready) ==> still_wanted(supplied(g, car, value).stage) < still_wanted(
            car.stage,
        ),
        still_wanted(car.stage) == 0 <==> car.stage is Ready,
        still_wanted(car.stage) <= 50_010,
{
}

/// The vehicle stays on the roads of the graph, whatever values it is given.
pub proof fn law_vehicle_stays_on_the_road(g: Roads, car: Car, value: Double, dt: Double)
    requires
        g.wf(),
        on_road(g, car),
    ensures
        on_road(g, supplied(g, car, value)),
        on_road(g, advanced(car, dt)),
{
    crate::graph::law_onward_follows_a_road(g, car.rng, car.to as int, car.from as int);
}

/// In a pause that is not over, the vehicle does not move and shows no speed:
/// one value is wanted, what is left of the pause, and the place stays.
pub proof fn law_vehicle_stands_in_a_pause(g: Roads, car: Car, dt: Double, left: Double)
    requires
        car.stage is Ready,
        number(ZERO).lt(car.pause_secs_left),
        !dt.is_nan(),
        dt.value() > 0,
        number(ZERO).lt(left),
    ensures
        wanted(g, advanced(car, dt)) == Some(Calc::Difference(car.pause_secs_left, dt)),
        supplied(g, advanced(car, dt), left) == (Car {
            pause_secs_left: left,
            last_speed_kmh: number(ZERO),
            ..car
        }),
        !left.le(number(ZERO)),
{
    crate::double::lemma_constants();
}

/// The share of the road that is behind the vehicle is between none and all of
/// it, wherever it is a number.
pub proof fn law_share_is_a_share(x: Double)
    ensures
        clamped(x).is_nan() <==> x.is_nan(),
        !x.is_nan() ==> 0 <= clamped(x).value() <= crate::double::units(1),
{
    crate::double::lemma_constants();
}

/// The vehicle once it has been given every value that it wants, each as `eval`
/// gives it.
pub open spec fn settled(g: Roads, car: Car, eval: spec_fn(Calc) -> Double) -> Car
    decreases still_wanted(car.stage),
    when counted(car.stage)
    via settled_ends
{
    match wanted(g, car) {
        None => car,
        Some(calc) => settled(g, supplied(g, car, eval(calc)), eval),
    }
}

#[via_fn]
proof fn settled_ends(g: Roads, car: Car, eval: spec_fn(Calc) -> Double) {
    match wanted(g, car) {
        None => {},
        Some(calc) => {
            law_advance_ends(g, car, eval(calc), eval(calc));
        },
    }
}

/// The vehicle after one advance by `dt` seconds.
pub open spec fn gone_on(g: Roads, car: Car, dt: Double, eval: spec_fn(Calc) -> Double) -> Car {
    settled(g, advanced(car, dt), eval)
}

/// The vehicle of a generator after advances by the given seconds.
pub open spec fn drive(
    g: Roads,
    rng: Rng,
    dts: Seq<Double>,
    eval: spec_fn(Calc) -> Double,
) -> Car
    decreases dts.len(),
{
    if dts.len() == 0 {
        settled(g, start(g, rng), eval)
    } else {
        gone_on(g, drive(g, rng, dts.drop_last(), eval), dts.last(), eval)
    }
}

/// A share: between none and all.
pub open spec fn is_share(share: Double) -> bool {
    !share.is_nan() && 0 <= share.value() <= crate::double::units(1)
}

/// The latitude that is `share` of the way along the vehicle's road.
pub open spec fn lat_along(
    g: Roads,
    car: Car,
    share: Double,
    eval: spec_fn(Calc) -> Double,
) -> Double {
    eval(
        Calc::Along {
            start: g.nodes[car.from as int].lat,
            end: g.nodes[car.to as int].lat,
            share,
        },
    )
}

/// The longitude that is `share` of the way along the vehicle's road.
pub open spec fn lon_along(
    g: Roads,
    car: Car,
    share: Double,
    eval: spec_fn(Calc) -> Double,
) -> Double {
    eval(
        Calc::Along {
            start: g.nodes[car.from as int].lon,
            end: g.nodes[car.to as int].lon,
            share,
        },
    )
}

/// The vehicle is shown at the node that it comes from.
pub open spec fn shown_at_node(g: Roads, car: Car) -> bool {
    car.lat == g.nodes[car.from as int].lat && car.lon == g.nodes[car.from as int].lon
}

/// The vehicle is shown `share` of the way along its road.
pub open spec fn shown_along(
    g: Roads,
    car: Car,
    share: Double,
    eval: spec_fn(Calc) -> Double,
) -> bool {
    car.lat == lat_along(g, car, share, eval) && car.lon == lon_along(g, car, share, eval)
}

/// The vehicle is shown on its road: at the node that it comes from, or some
/// share of the way from there to the node that it goes to.
pub open spec fn shown_on_road(g: Roads, car: Car, eval: spec_fn(Calc) -> Double) -> bool {
    ||| shown_at_node(g, car)
    ||| exists|share: Double| is_share(share) && #[trigger] shown_along(g, car, share, eval)
}

/// The vehicle is shown on the line of its road: as `shown_on_road` says, but
/// for a share that the arithmetic made no number.
pub open spec fn shown_on_line(g: Roads, car: Car, eval: spec_fn(Calc) -> Double) -> bool {
    ||| shown_at_node(g, car)
    ||| exists|share: Double|
        (is_share(share) || share.is_nan()) && #[trigger] shown_along(g, car, share, eval)
}

/// The facts of double-precision arithmetic that the vehicle rests on: `eval`
/// gives numbers, and numbers of the right sign, where IEEE 754 does.
pub open spec fn keeps_signs(eval: spec_fn(Calc) -> Double) -> bool {
    // What is not negative adds up to what is not negative.
    &&& forall|a: Double, b: Double|
        a.at_least_zero() && b.at_least_zero() ==> (#[trigger] eval(
            Calc::Sum(a, b),
        )).at_least_zero()
    // Taking something away from what is not infinite makes nothing infinite.
    &&& forall|a: Double, b: Double|
        a.bits != crate::double::INFINITY && b.at_least_zero() ==> (#[trigger] eval(
            Calc::Difference(a, b),
        )).bits != crate::double::INFINITY
    // Taking away no more than there is leaves nothing negative.
    &&& forall|a: Double, b: Double|
        b.at_least_zero() && b.is_finite() && (a.is_nan() || b.le(a)) ==> not_negative(
            #[trigger] eval(Calc::Difference(a, b)),
        )
    // A positive number times what is not below or at zero is not negative.
    &&& forall|a: Double, b: Double|
        number(ZERO).lt(a) && !b.le(number(ZERO)) ==> not_negative(
            #[trigger] eval(Calc::Product(a, b)),
        )
    // What is not negative, divided by a positive finite number, is not
    // negative.
    &&& forall|a: Double, b: Double|
        a.at_least_zero() && number(ZERO).lt(b) && b.is_finite() ==> (#[trigger] eval(
            Calc::Quotient(a, b),
        )).at_least_zero()
    // No road is infinitely long.
    &&& forall|from: Place, to: Place|
        (#[trigger] eval(Calc::Length { from, to })).bits != crate::double::INFINITY
}

/// No number, or one that is not negative.
pub open spec fn not_negative(x: Double) -> bool {
    x.is_nan() || x.value() >= 0
}

/// Numbers drawn between two bounds lie between them.
pub open spec fn keeps_bounds(eval: spec_fn(Calc) -> Double) -> bool {
    forall|draw: u64|
        #![trigger eval(speed_within(draw))]
        #![trigger eval(pause_within(draw))]
        #![trigger eval(drive_within(draw))]
        draw < crate::rng::DRAWS ==> {
            &&& number(SPEED_MIN_KMH).le(eval(speed_within(draw)))
            &&& eval(speed_within(draw)).le(number(SPEED_MAX_KMH))
            &&& number(PAUSE_MIN_SECS).le(eval(pause_within(draw)))
            &&& eval(pause_within(draw)).le(number(PAUSE_MAX_SECS))
            &&& number(DRIVE_MIN_SECS).le(eval(drive_within(draw)))
            &&& eval(drive_within(draw)).le(number(DRIVE_MAX_SECS))
        }
}

/// A number from one to a thousand.
pub open spec fn ordinary(x: Double) -> bool {
    !x.is_nan() && crate::double::units(1) <= x.value() <= crate::double::units(1000)
}

/// `x` is `y`, but for the error of rounding to the nearest double: at most one
/// part in `PRECISION`.
pub open spec fn rounded(x: int, y: int) -> bool {
    &&& (x - y) * PRECISION <= y
    &&& (y - x) * PRECISION <= y
}

/// Products and quotients of ordinary numbers are rounded to the nearest double.
pub open spec fn keeps_precision(eval: spec_fn(Calc) -> Double) -> bool {
    &&& forall|a: Double, b: Double|
        ordinary(a) && ordinary(b) ==> {
            let p = #[trigger] eval(Calc::Product(a, b));
            &&& !p.is_nan()
            &&& rounded(p.value() * crate::double::units(1), a.value() * b.value())
        }
    &&& forall|a: Double, b: Double|
        ordinary(a) && ordinary(b) ==> {
            let q = #[trigger] eval(Calc::Quotient(a, b));
            &&& !q.is_nan()
            &&& rounded(q.value() * b.value(), a.value() * crate::double::units(1))
        }
}

/// `eval` computes as IEEE 754 says.
pub open spec fn computes(eval: spec_fn(Calc) -> Double) -> bool {
    keeps_signs(eval) && keeps_bounds(eval) && keeps_precision(eval)
}

/// What the vehicle's constants stand for.
proof fn lemma_bounds()
    ensures
        number(SPEED_MIN_KMH).value() == crate::double::units(30),
        number(SPEED_MAX_KMH).value() == crate::double::units(70),
        !number(SPEED_MIN_KMH).is_nan(),
        !number(SPEED_MAX_KMH).is_nan(),
        0 < number(PAUSE_MIN_SECS).value(),
        !number(PAUSE_MIN_SECS).is_nan(),
        crate::double::units(1) < number(KMH_PER_MPS).value() < crate::double::units(4),
        !number(KMH_PER_MPS).is_nan(),
        crate::double::units(1) > 0,
        forall|n: nat| #[trigger] crate::double::units(n) == n * crate::double::units(1),
{
    vstd::arithmetic::power2::lemma2_to64_rest();
    vstd::arithmetic::power2::lemma_pow2_pos(1074);
    crate::double::lemma_constants();
    let four = number(0x4010_0000_0000_0000);
    crate::double::lemma_whole(number(SPEED_MIN_KMH).magnitude(), 1027, 30, 48);
    crate::double::lemma_whole(number(SPEED_MAX_KMH).magnitude(), 1029, 70, 46);
    crate::double::lemma_whole(four.magnitude(), 1025, 4, 50);
    crate::double::lemma_patterns(number(ZERO), number(PAUSE_MIN_SECS));
    crate::double::lemma_patterns(number(ONE), number(KMH_PER_MPS));
    crate::double::lemma_patterns(number(KMH_PER_MPS), four);
}

/// The speeds of a draw are numbers: in m/s it is positive, and shown in km/h
/// it is what was drawn, but for the rounding.
proof fn lemma_speed_of_draw(draw: u64, eval: spec_fn(Calc) -> Double)
    requires
        computes(eval),
        draw < crate::rng::DRAWS,
    ensures
        number(ZERO).lt(mps_of(draw, eval)),
        ordinary(mps_of(draw, eval)),
        city_speed(speed_shown(draw, eval)),
{
    lemma_bounds();
    crate::double::lemma_constants();
    let u = crate::double::units(1) as int;
    let (kmh, k) = (kmh_of(draw, eval), number(KMH_PER_MPS));
    let (a, b) = (kmh.value(), k.value());
    assert(eval(speed_within(draw)) == kmh);
    assert(crate::double::units(30) == 30 * u && crate::double::units(70) == 70 * u);
    assert(crate::double::units(4) == 4 * u && crate::double::units(1000) == 1000 * u);
    assert(ordinary(kmh) && ordinary(k));
    let mps = mps_of(draw, eval);
    let q = mps.value();
    assert(rounded(q * b, a * u));
    lemma_quotient(q, a, b, u);
    assert(ordinary(mps));
    let shown = speed_shown(draw, eval);
    let p = shown.value();
    assert(rounded(p * u, q * b));
    lemma_product(p, q * b, a, u);
}

proof fn lemma_quotient(q: int, a: int, b: int, u: int)
    requires
        0 < u < b < 4 * u,
        30 * u <= a <= 70 * u,
        rounded(q * b, a * u),
    ensures
        u <= q <= 1000 * u,
{
    assert(0 < a * u) by (nonlinear_arith)
        requires
            0 < u,
            30 * u <= a,
    ;
    assert(2 * (q * b) >= a * u && q * b <= 2 * (a * u));
    assert(q >= u) by (nonlinear_arith)
        requires
            2 * (q * b) >= a * u,
            0 < u < b < 4 * u,
            30 * u <= a,
    ;
    assert(q <= 1000 * u) by (nonlinear_arith)
        requires
            q * b <= 2 * (a * u),
            0 < u < b,
            a <= 70 * u,
            q >= u,
    ;
}

proof fn lemma_product(p: int, x: int, a: int, u: int)
    requires
        0 < u,
        30 * u <= a <= 70 * u,
        rounded(x, a * u),
        rounded(p * u, x),
    ensures
        (p - a) * PRECISION <= 3 * a,
        (a - p) * PRECISION <= 3 * a,
{
    let y = a * u;
    assert(0 < y) by (nonlinear_arith)
        requires
            0 < u,
            30 * u <= a,
            y == a * u,
    ;
    assert((p * u - y) * PRECISION <= 3 * y);
    assert((y - p * u) * PRECISION <= 3 * y);
    assert((p - a) * PRECISION <= 3 * a) by (nonlinear_arith)
        requires
            (p * u - y) * PRECISION <= 3 * y,
            y == a * u,
            0 < u,
    ;
    assert((a - p) * PRECISION <= 3 * a) by (nonlinear_arith)
        requires
            (y - p * u) * PRECISION <= 3 * y,
            y == a * u,
            0 < u,
    ;
}

/// A speed between 30 and 70 km/h, give or take a billionth of one.
pub open spec fn city_speed(x: Double) -> bool {
    &&& !x.is_nan()
    &&& 1_000_000_000 * x.value() >= 29_999_999_999 * crate::double::units(1)
    &&& 1_000_000_000 * x.value() <= 70_000_000_001 * crate::double::units(1)
}

/// While the vehicle settles, what it counts with is not negative.
spec fn signs_kept(car: Car) -> bool {
    &&& car.offset_m.at_least_zero()
    &&& match car.stage {
        Stage::Ready => number(ZERO).lt(car.speed_mps),
        Stage::StartRange { .. } => true,
        Stage::StartSpeed { .. } => true,
        Stage::RestartRange { dt, .. } => !dt.le(number(ZERO)),
        Stage::RestartSpeed { dt, .. } => !dt.le(number(ZERO)),
        Stage::PauseLeft { dt } => !dt.le(number(ZERO)) && number(ZERO).lt(car.speed_mps),
        Stage::DriveLeft { dt } => !dt.le(number(ZERO)) && number(ZERO).lt(car.speed_mps),
        Stage::Gauge { dt } => !dt.le(number(ZERO)) && number(ZERO).lt(car.speed_mps),
        Stage::Reach { dt } => !dt.le(number(ZERO)) && number(ZERO).lt(car.speed_mps),
        Stage::Stretch { budget, .. } => not_negative(budget) && number(ZERO).lt(car.speed_mps),
        Stage::Remainder { budget, seg, .. } => not_negative(budget) && seg.bits
            != crate::double::INFINITY && number(ZERO).lt(car.speed_mps),
        Stage::Stop { budget } => budget.at_least_zero() && number(ZERO).lt(car.speed_mps),
        Stage::Spend { budget, remain, .. } => remain.at_least_zero() && remain.is_finite() && (
        budget.is_nan() || remain.le(budget)) && number(ZERO).lt(car.speed_mps),
        Stage::TurnRange { budget, .. } => not_negative(budget),
        Stage::TurnSpeed { budget, .. } => not_negative(budget),
        Stage::Share { seg } => number(ZERO).lt(seg) && seg.is_finite() && number(ZERO).lt(
            car.speed_mps,
        ),
        _ => number(ZERO).lt(car.speed_mps),
    }
}

/// The speed that the vehicle is about to take is that of a draw.
spec fn draws_kept(car: Car, eval: spec_fn(Calc) -> Double) -> bool {
    match car.stage {
        Stage::StartRange { draw } => draw < crate::rng::DRAWS,
        Stage::StartSpeed { kmh } => kmh_drawn(kmh, eval),
        Stage::RestartRange { draw, .. } => draw < crate::rng::DRAWS,
        Stage::RestartSpeed { kmh, .. } => kmh_drawn(kmh, eval),
        Stage::TurnRange { draw, .. } => draw < crate::rng::DRAWS,
        Stage::TurnSpeed { kmh, .. } => kmh_drawn(kmh, eval),
        _ => true,
    }
}

proof fn lemma_signs(g: Roads, car: Car, eval: spec_fn(Calc) -> Double)
    requires
        computes(eval),
        !(car.stage is Ready),
        signs_kept(car),
        draws_kept(car, eval),
    ensures
        ({
            let calc = wanted(g, car)->0;
            let next = supplied(g, car, eval(calc));
            &&& signs_kept(next)
            &&& draws_kept(next, eval)
            &&& car.stage is Share ==> eval(calc).at_least_zero()
        }),
{
    let calc = wanted(g, car)->0;
    let value = eval(calc);
    let next = supplied(g, car, value);
    crate::double::lemma_constants();
    crate::rng::lemma_fraction(car.rng);
    crate::rng::lemma_fraction(g.after_choice(car.rng, car.to as int, car.from as int));
    match car.stage {
        Stage::StartRange { draw } => {
            assert(value == kmh_of(draw, eval));
        },
        Stage::RestartRange { draw, .. } => {
            assert(value == kmh_of(draw, eval));
        },
        Stage::TurnRange { draw, .. } => {
            assert(value == kmh_of(draw, eval));
        },
        Stage::StartSpeed { kmh } => {
            lemma_kmh_drawn(kmh, eval);
        },
        Stage::RestartSpeed { kmh, .. } => {
            lemma_kmh_drawn(kmh, eval);
        },
        Stage::TurnSpeed { kmh, .. } => {
            lemma_kmh_drawn(kmh, eval);
        },
        Stage::Span => {
            assert(value.bits != crate::double::INFINITY);
            lemma_positive(value);
        },
        Stage::Remainder { budget, .. } => {
            assert(value.bits != crate::double::INFINITY);
            lemma_positive(value);
        },
        _ => {},
    }
}

/// A positive number other than infinity is finite.
proof fn lemma_positive(x: Double)
    ensures
        number(ZERO).lt(x) && x.bits != crate::double::INFINITY ==> x.is_finite(),
{
    crate::double::lemma_constants();
}

proof fn lemma_kmh_drawn(kmh: Double, eval: spec_fn(Calc) -> Double)
    requires
        computes(eval),
        kmh_drawn(kmh, eval),
    ensures
        number(ZERO).lt(eval(Calc::Quotient(kmh, number(KMH_PER_MPS)))),
{
    let draw = choose|draw: u64| draw < crate::rng::DRAWS && kmh == #[trigger] kmh_of(draw, eval);
    lemma_speed_of_draw(draw, eval);
}

/// A share, or where the arithmetic is not vouched for, no number.
spec fn share_kept(share: Double, vouched: bool) -> bool {
    is_share(share) || (!vouched && share.is_nan())
}

spec fn shown_kept(g: Roads, car: Car, eval: spec_fn(Calc) -> Double, vouched: bool) -> bool {
    ||| shown_at_node(g, car)
    ||| exists|share: Double|
        share_kept(share, vouched) && #[trigger] shown_along(g, car, share, eval)
}

/// While the vehicle settles, it is shown on its road or about to be.
spec fn place_kept(g: Roads, car: Car, eval: spec_fn(Calc) -> Double, vouched: bool) -> bool {
    match car.stage {
        Stage::Gauge { .. } => true,
        Stage::Reach { .. } => true,
        Stage::Stretch { .. } => true,
        Stage::Remainder { .. } => true,
        Stage::Stop { .. } => true,
        Stage::Spend { .. } => true,
        Stage::TurnRange { .. } => true,
        Stage::TurnSpeed { .. } => true,
        Stage::Span => true,
        Stage::Share { .. } => true,
        Stage::Latitude { share } => share_kept(share, vouched),
        Stage::Longitude { share } => share_kept(share, vouched) && car.lat == lat_along(
            g,
            car,
            share,
            eval,
        ),
        _ => shown_kept(g, car, eval, vouched),
    }
}

/// A vehicle with the same road and place as one that is shown on its road is
/// shown there too.
proof fn lemma_same_place(
    g: Roads,
    car: Car,
    next: Car,
    eval: spec_fn(Calc) -> Double,
    vouched: bool,
)
    requires
        shown_kept(g, car, eval, vouched),
        next.from == car.from,
        next.to == car.to,
        next.lat == car.lat,
        next.lon == car.lon,
    ensures
        shown_kept(g, next, eval, vouched),
{
    if !shown_at_node(g, car) {
        let share = choose|share: Double|
            share_kept(share, vouched) && #[trigger] shown_along(g, car, share, eval);
        assert(shown_along(g, next, share, eval));
    }
}

proof fn lemma_place(g: Roads, car: Car, eval: spec_fn(Calc) -> Double, vouched: bool)
    requires
        g.wf(),
        on_road(g, car),
        counted(car.stage),
        place_kept(g, car, eval, vouched),
        vouched ==> computes(eval) && signs_kept(car) && draws_kept(car, eval),
    ensures
        ({
            let end = settled(g, car, eval);
            &&& end.stage is Ready
            &&& on_road(g, end)
            &&& shown_kept(g, end, eval, vouched)
            &&& vouched ==> signs_kept(end)
        }),
    decreases still_wanted(car.stage),
{
    if let Some(calc) = wanted(g, car) {
        let value = eval(calc);
        let next = supplied(g, car, value);
        law_advance_ends(g, car, value, value);
        law_vehicle_stays_on_the_road(g, car, value, value);
        law_share_is_a_share(value);
        crate::double::lemma_constants();
        if vouched {
            lemma_signs(g, car, eval);
        }
        match car.stage {
            Stage::Longitude { share } => {
                assert(shown_along(g, next, share, eval));
            },
            Stage::Latitude { share } => {},
            _ => {
                if shown_kept(g, car, eval, vouched) && next.from == car.from && next.to == car.to
                    && next.lat == car.lat && next.lon == car.lon {
                    lemma_same_place(g, car, next, eval, vouched);
                }
            },
        }
        lemma_place(g, next, eval, vouched);
    }
}

proof fn lemma_start(g: Roads, rng: Rng)
    requires
        g.wf(),
        0 < g.nodes.len() <= usize::MAX,
        !g.barren(),
    ensures
        on_road(g, start(g, rng)),
{
    let first = rng.output() as int % g.nodes.len() as int;
    crate::graph::law_search_finds_a_road(g, first);
    let from = start_node(g, rng);
    let k = rng.next().output() as int % g.adj[from].len() as int;
    assert(0 <= k < g.adj[from].len());
    assert(g.adj[from][k] < g.nodes.len());
    assert(g.adj[from].contains(g.adj[from][k]));
}

proof fn lemma_drive(
    g: Roads,
    rng: Rng,
    dts: Seq<Double>,
    eval: spec_fn(Calc) -> Double,
    vouched: bool,
)
    requires
        g.wf(),
        0 < g.nodes.len() <= usize::MAX,
        !g.barren(),
        vouched ==> computes(eval),
    ensures
        ({
            let car = drive(g, rng, dts, eval);
            &&& car.stage is Ready
            &&& on_road(g, car)
            &&& shown_kept(g, car, eval, vouched)
            &&& vouched ==> signs_kept(car)
        }),
    decreases dts.len(),
{
    crate::double::lemma_constants();
    if dts.len() == 0 {
        lemma_start(g, rng);
        crate::graph::law_search_finds_a_road(
            g,
            rng.output() as int % g.nodes.len() as int,
        );
        crate::rng::lemma_fraction(rng.next().next());
        lemma_place(g, start(g, rng), eval, vouched);
    } else {
        lemma_drive(g, rng, dts.drop_last(), eval, vouched);
        let car = drive(g, rng, dts.drop_last(), eval);
        let told = advanced(car, dts.last());
        law_vehicle_stays_on_the_road(g, car, dts.last(), dts.last());
        lemma_same_place(g, car, told, eval, vouched);
        lemma_place(g, told, eval, vouched);
    }
}

/// Every advance comes to an end, and the vehicle is then on a road of the graph
/// and shown on it: at the node that it comes from, or a share of the way to the
/// other, between none and all. So it is from the start, whatever the roads and
/// the times, on IEEE 754 arithmetic. On any other arithmetic it is on a road
/// all the same, and shown on its line. Where roads can be driven both ways,
/// that road leads from each of its ends to the other.
pub proof fn law_vehicle_is_shown_on_its_road(
    g: Roads,
    rng: Rng,
    dts: Seq<Double>,
    eval: spec_fn(Calc) -> Double,
)
    requires
        g.wf(),
        0 < g.nodes.len() <= usize::MAX,
        !g.barren(),
    ensures
        drive(g, rng, dts, eval).stage is Ready,
        on_road(g, drive(g, rng, dts, eval)),
        shown_on_line(g, drive(g, rng, dts, eval), eval),
        computes(eval) ==> shown_on_road(g, drive(g, rng, dts, eval), eval),
        g.undirected() ==> {
            let car = drive(g, rng, dts, eval);
            g.leads(car.from as int, car.to as int) && g.leads(car.to as int, car.from as int)
        },
{
    let car = drive(g, rng, dts, eval);
    lemma_drive(g, rng, dts, eval, false);
    if !shown_at_node(g, car) {
        let share = choose|share: Double|
            share_kept(share, false) && #[trigger] shown_along(g, car, share, eval);
        assert(is_share(share) || share.is_nan());
    }
    if computes(eval) {
        lemma_drive(g, rng, dts, eval, true);
        if !shown_at_node(g, car) {
            let share = choose|share: Double|
                share_kept(share, true) && #[trigger] shown_along(g, car, share, eval);
            assert(is_share(share));
        }
    }
}

/// The vehicle moves: its pause is over.
pub open spec fn moves(car: Car) -> bool {
    car.pause_secs_left.le(number(ZERO))
}

/// While the vehicle settles: unless it moves in the end, it is where it was.
spec fn still(car: Car, lat: Double, lon: Double) -> bool {
    let here = car.lat == lat && car.lon == lon;
    match car.stage {
        Stage::Ready => !moves(car) ==> here && car.last_speed_kmh == number(ZERO),
        Stage::PauseLeft { .. } => here,
        Stage::RestartRange { .. } => here && moves(car),
        Stage::RestartSpeed { .. } => here && moves(car),
        Stage::DriveLeft { .. } => here && moves(car),
        Stage::NextPause { .. } => here,
        Stage::NextDrive { .. } => here,
        _ => moves(car),
    }
}

proof fn lemma_still(
    g: Roads,
    car: Car,
    lat: Double,
    lon: Double,
    eval: spec_fn(Calc) -> Double,
)
    requires
        counted(car.stage),
        still(car, lat, lon),
    ensures
        settled(g, car, eval).stage is Ready,
        still(settled(g, car, eval), lat, lon),
    decreases still_wanted(car.stage),
{
    if let Some(calc) = wanted(g, car) {
        law_advance_ends(g, car, eval(calc), eval(calc));
        crate::double::lemma_constants();
        lemma_still(g, supplied(g, car, eval(calc)), lat, lon, eval);
    }
}

/// A vehicle that does not move after an advance is where it was before and
/// shows no speed, whether its pause went on or has just begun. No time changes
/// nothing at all.
pub proof fn law_standing_vehicle_keeps_its_place(
    g: Roads,
    car: Car,
    dt: Double,
    eval: spec_fn(Calc) -> Double,
)
    requires
        car.stage is Ready,
        !car.pause_secs_left.is_nan(),
    ensures
        ({
            let end = gone_on(g, car, dt, eval);
            &&& end.stage is Ready
            &&& !moves(end) ==> end.lat == car.lat && end.lon == car.lon
            &&& !moves(end) && !dt.le(number(ZERO)) ==> end.last_speed_kmh == number(ZERO)
            &&& dt.le(number(ZERO)) ==> end == car
        }),
{
    crate::double::lemma_constants();
    if !dt.le(number(ZERO)) {
        lemma_still(g, advanced(car, dt), car.lat, car.lon, eval);
    }
}

/// The speed of a draw, in km/h.
pub open spec fn kmh_of(draw: u64, eval: spec_fn(Calc) -> Double) -> Double {
    eval(speed_within(draw))
}

/// The speed of a draw, in m/s.
pub open spec fn mps_of(draw: u64, eval: spec_fn(Calc) -> Double) -> Double {
    eval(Calc::Quotient(kmh_of(draw, eval), number(KMH_PER_MPS)))
}

/// The speed that a vehicle shows at the speed of a draw.
pub open spec fn speed_shown(draw: u64, eval: spec_fn(Calc) -> Double) -> Double {
    eval(Calc::Product(mps_of(draw, eval), number(KMH_PER_MPS)))
}

spec fn kmh_drawn(kmh: Double, eval: spec_fn(Calc) -> Double) -> bool {
    exists|draw: u64| draw < crate::rng::DRAWS && kmh == #[trigger] kmh_of(draw, eval)
}

/// The speed of the vehicle is that of some draw.
pub open spec fn speed_drawn(car: Car, eval: spec_fn(Calc) -> Double) -> bool {
    exists|draw: u64| draw < crate::rng::DRAWS && car.speed_mps == #[trigger] mps_of(draw, eval)
}

/// The vehicle shows the speed of some draw.
pub open spec fn shows_drawn_speed(car: Car, eval: spec_fn(Calc) -> Double) -> bool {
    exists|draw: u64|
        draw < crate::rng::DRAWS && car.last_speed_kmh == #[trigger] speed_shown(draw, eval)
}

/// While the vehicle settles after it was told to advance, its speed and the
/// one that it shows are drawn, or about to be.
spec fn speed_kept(car: Car, eval: spec_fn(Calc) -> Double) -> bool {
    match car.stage {
        Stage::Ready => speed_drawn(car, eval) && !car.pause_secs_left.is_nan() && (moves(car)
            ==> shows_drawn_speed(car, eval)),
        Stage::StartRange { .. } => false,
        Stage::StartSpeed { .. } => false,
        Stage::StartDrive { .. } => false,
        Stage::PauseLeft { .. } => speed_drawn(car, eval),
        Stage::RestartRange { draw, .. } => draw < crate::rng::DRAWS && moves(car),
        Stage::RestartSpeed { kmh, .. } => kmh_drawn(kmh, eval) && moves(car),
        Stage::DriveLeft { .. } => speed_drawn(car, eval) && moves(car),
        Stage::NextPause { draw } => draw < crate::rng::DRAWS && speed_drawn(car, eval),
        Stage::NextDrive { .. } => speed_drawn(car, eval) && number(ZERO).lt(car.pause_secs_left),
        Stage::Gauge { .. } => speed_drawn(car, eval) && moves(car),
        Stage::TurnRange { draw, .. } => draw < crate::rng::DRAWS && moves(car)
            && shows_drawn_speed(car, eval),
        Stage::TurnSpeed { kmh, .. } => kmh_drawn(kmh, eval) && moves(car) && shows_drawn_speed(
            car,
            eval,
        ),
        _ => speed_drawn(car, eval) && moves(car) && shows_drawn_speed(car, eval),
    }
}

proof fn lemma_speed(g: Roads, car: Car, eval: spec_fn(Calc) -> Double)
    requires
        counted(car.stage),
        speed_kept(car, eval),
        keeps_bounds(eval),
    ensures
        settled(g, car, eval).stage is Ready,
        speed_kept(settled(g, car, eval), eval),
    decreases still_wanted(car.stage),
{
    if let Some(calc) = wanted(g, car) {
        let value = eval(calc);
        let next = supplied(g, car, value);
        law_advance_ends(g, car, value, value);
        crate::double::lemma_constants();
        crate::rng::lemma_fraction(car.rng);
        crate::rng::lemma_fraction(g.after_choice(car.rng, car.to as int, car.from as int));
        match car.stage {
            Stage::RestartRange { draw, .. } => {
                assert(value == kmh_of(draw, eval));
            },
            Stage::TurnRange { draw, .. } => {
                assert(value == kmh_of(draw, eval));
            },
            Stage::RestartSpeed { kmh, .. } => {
                let draw = choose|draw: u64|
                    draw < crate::rng::DRAWS && kmh == #[trigger] kmh_of(draw, eval);
                assert(next.speed_mps == mps_of(draw, eval));
            },
            Stage::TurnSpeed { kmh, .. } => {
                let draw = choose|draw: u64|
                    draw < crate::rng::DRAWS && kmh == #[trigger] kmh_of(draw, eval);
                assert(next.speed_mps == mps_of(draw, eval));
            },
            Stage::NextPause { draw } => {
                lemma_bounds();
                assert(value == eval(pause_within(draw)));
            },
            Stage::Gauge { .. } => {
                let draw = choose|draw: u64|
                    draw < crate::rng::DRAWS && car.speed_mps == #[trigger] mps_of(draw, eval);
                assert(next.last_speed_kmh == speed_shown(draw, eval));
            },
            _ => {},
        }
        lemma_speed(g, next, eval);
    }
}

proof fn lemma_start_speed(g: Roads, rng: Rng, eval: spec_fn(Calc) -> Double)
    ensures
        ({
            let car = settled(g, start(g, rng), eval);
            &&& car.stage is Ready
            &&& speed_drawn(car, eval)
            &&& moves(car)
            &&& !car.pause_secs_left.is_nan()
        }),
{
    crate::double::lemma_constants();
    let a = start(g, rng);
    let draw = rng.next().next().fraction();
    crate::rng::lemma_fraction(rng.next().next());
    let b = supplied(g, a, kmh_of(draw, eval));
    let c = supplied(g, b, mps_of(draw, eval));
    let d = supplied(g, c, eval(drive_within(a.rng.fraction())));
    assert(settled(g, a, eval) == settled(g, b, eval));
    assert(settled(g, b, eval) == settled(g, c, eval));
    assert(settled(g, c, eval) == settled(g, d, eval));
    assert(settled(g, d, eval) == d);
    assert(d.speed_mps == mps_of(draw, eval));
}

/// Whatever the times by which a vehicle has been advanced, one more advance
/// leaves it standing or moving. If it stands, it is where it was before, and
/// after some time shows no speed. If it moves, then after some time it shows a
/// speed between 30 and 70 km/h, to within a billionth. No time changes nothing
/// at all. This holds on IEEE 754 arithmetic.
pub proof fn law_vehicle_stands_or_moves_at_city_speed(
    g: Roads,
    rng: Rng,
    dts: Seq<Double>,
    dt: Double,
    eval: spec_fn(Calc) -> Double,
)
    requires
        computes(eval),
    ensures
        ({
            let before = drive(g, rng, dts, eval);
            let car = drive(g, rng, dts.push(dt), eval);
            &&& car.stage is Ready
            &&& !car.pause_secs_left.is_nan()
            &&& dt.le(number(ZERO)) ==> car == before
            &&& !moves(car) ==> car.lat == before.lat && car.lon == before.lon
            &&& !dt.le(number(ZERO)) ==> if moves(car) {
                city_speed(car.last_speed_kmh)
            } else {
                car.last_speed_kmh == number(ZERO)
            }
        }),
{
    lemma_drawn(g, rng, dts, eval);
    lemma_drawn(g, rng, dts.push(dt), eval);
    assert(dts.push(dt).drop_last() =~= dts);
    let before = drive(g, rng, dts, eval);
    let car = drive(g, rng, dts.push(dt), eval);
    law_standing_vehicle_keeps_its_place(g, before, dt, eval);
    if !dt.le(number(ZERO)) && moves(car) {
        let draw = choose|draw: u64|
            draw < crate::rng::DRAWS && car.last_speed_kmh == #[trigger] speed_shown(draw, eval);
        lemma_speed_of_draw(draw, eval);
    }
}

proof fn lemma_drawn(g: Roads, rng: Rng, dts: Seq<Double>, eval: spec_fn(Calc) -> Double)
    requires
        keeps_bounds(eval),
    ensures
        ({
            let car = drive(g, rng, dts, eval);
            &&& car.stage is Ready
            &&& speed_drawn(car, eval)
            &&& !car.pause_secs_left.is_nan()
            &&& dts.len() > 0 && !dts.last().le(number(ZERO)) && moves(car) ==> shows_drawn_speed(
                car,
                eval,
            )
        }),
    decreases dts.len(),
{
    if dts.len() == 0 {
        lemma_start_speed(g, rng, eval);
    } else {
        lemma_drawn(g, rng, dts.drop_last(), eval);
        let before = drive(g, rng, dts.drop_last(), eval);
        let told = advanced(before, dts.last());
        crate::double::lemma_constants();
        law_standing_vehicle_keeps_its_place(g, before, dts.last(), eval);
        if !dts.last().le(number(ZERO)) {
            assert(speed_drawn(told, eval)) by {
                let draw = choose|draw: u64|
                    draw < crate::rng::DRAWS && before.speed_mps == #[trigger] mps_of(draw, eval);
                assert(told.speed_mps == mps_of(draw, eval));
            }
            lemma_speed(g, told, eval);
        }
    }
}

/// The bounds of speeds in km/h, of drives and of pauses in seconds, and the
/// factor from m/s to km/h, which is 3.6 to the last place.
pub proof fn law_bounds_of_the_drive()
    ensures
        number(SPEED_MIN_KMH).value() == 30 * crate::double::units(1),
        number(SPEED_MAX_KMH).value() == 70 * crate::double::units(1),
        number(DRIVE_MIN_SECS).value() == 90 * crate::double::units(1),
        number(DRIVE_MAX_SECS).value() == 600 * crate::double::units(1),
        number(PAUSE_MIN_SECS).value() == 10 * crate::double::units(1),
        number(PAUSE_MAX_SECS).value() == 240 * crate::double::units(1),
        MAX_STEPS == 10_000,
        0 < 5 * number(KMH_PER_MPS).value() - 18 * crate::double::units(1) <= number(
            (KMH_PER_MPS + 1) as u64,
        ).value() - number(KMH_PER_MPS).value(),
{
    use_whole_numbers();
    let p = vstd::arithmetic::power2::pow2(1023) as int;
    vstd::arithmetic::power2::lemma_pow2_adds(51, 1023);
    vstd::arithmetic::power2::lemma2_to64();
    vstd::arithmetic::power2::lemma2_to64_rest();
    assert(crate::double::units(1) == 0x8_0000_0000_0000 * p);
    assert(number(KMH_PER_MPS).magnitude() / crate::double::FRACTION as nat == 1024);
    assert(number((KMH_PER_MPS + 1) as u64).magnitude() / crate::double::FRACTION as nat == 1024);
    assert(number(KMH_PER_MPS).value() == 0x1c_cccc_cccc_cccd * p);
    assert(number((KMH_PER_MPS + 1) as u64).value() == 0x1c_cccc_cccc_ccce * p);
    vstd::arithmetic::power2::lemma_pow2_pos(1023);
}

proof fn use_whole_numbers()
    ensures
        number(SPEED_MIN_KMH).value() == 30 * crate::double::units(1),
        number(SPEED_MAX_KMH).value() == 70 * crate::double::units(1),
        number(DRIVE_MIN_SECS).value() == 90 * crate::double::units(1),
        number(DRIVE_MAX_SECS).value() == 600 * crate::double::units(1),
        number(PAUSE_MIN_SECS).value() == 10 * crate::double::units(1),
        number(PAUSE_MAX_SECS).value() == 240 * crate::double::units(1),
{
    lemma_bounds();
    vstd::arithmetic::power2::lemma2_to64();
    vstd::arithmetic::power2::lemma2_to64_rest();
    crate::double::lemma_whole(number(DRIVE_MIN_SECS).magnitude(), 1029, 90, 46);
    crate::double::lemma_whole(number(DRIVE_MAX_SECS).magnitude(), 1032, 600, 43);
    crate::double::lemma_whole(number(PAUSE_MIN_SECS).magnitude(), 1026, 10, 49);
    crate::double::lemma_whole(number(PAUSE_MAX_SECS).magnitude(), 1030, 240, 45);
}

/// A time drawn between two bounds.
pub open spec fn drawn_between(lo: u64, hi: u64, r: Rng, eval: spec_fn(Calc) -> Double) -> Double {
    eval(Calc::Within { lo: number(lo), hi: number(hi), draw: r.fraction() })
}

/// A speed in m/s, drawn in km/h between the lowest and the highest.
pub open spec fn drawn_speed(r: Rng, eval: spec_fn(Calc) -> Double) -> Double {
    eval(
        Calc::Quotient(
            drawn_between(SPEED_MIN_KMH, SPEED_MAX_KMH, r, eval),
            number(KMH_PER_MPS),
        ),
    )
}

/// A vehicle starts at a node with a road, on the road that the second number of
/// the generator picks there, with a speed and a time to drive drawn by the next
/// two; it is shown at the node, moves, and shows no speed yet.
pub proof fn law_vehicle_starts(g: Roads, rng: Rng, eval: spec_fn(Calc) -> Double)
    requires
        0 < g.nodes.len() <= usize::MAX,
        !g.barren(),
    ensures
        ({
            let from = g.search(rng.output() as int % g.nodes.len() as int, g.nodes.len());
            let r1 = rng.next();
            let r2 = r1.next();
            let r3 = r2.next();
            settled(g, start(g, rng), eval) == (Car {
                rng: r3.next(),
                from: from as usize,
                to: g.adj[from][r1.output() as int % g.adj[from].len() as int] as usize,
                offset_m: number(0),
                speed_mps: drawn_speed(r2, eval),
                drive_secs_left: drawn_between(DRIVE_MIN_SECS, DRIVE_MAX_SECS, r3, eval),
                pause_secs_left: number(0),
                last_speed_kmh: number(0),
                lat: g.nodes[from].lat,
                lon: g.nodes[from].lon,
                stage: Stage::Ready,
            })
        }),
{
    let a = start(g, rng);
    let b = supplied(g, a, eval(wanted(g, a)->0));
    let c = supplied(g, b, eval(wanted(g, b)->0));
    let d = supplied(g, c, eval(wanted(g, c)->0));
    assert(settled(g, a, eval) == settled(g, b, eval));
    assert(settled(g, b, eval) == settled(g, c, eval));
    assert(settled(g, c, eval) == settled(g, d, eval));
    assert(settled(g, d, eval) == d);
}

/// In a pause, the seconds that pass are taken off what is left of it. While
/// some is left, nothing else changes but that no speed is shown. Otherwise the
/// vehicle goes on as one whose pause is over, with a newly drawn speed and all
/// of those seconds to drive.
pub proof fn law_pause_runs_down(g: Roads, car: Car, dt: Double, eval: spec_fn(Calc) -> Double)
    requires
        car.stage is Ready,
        !dt.le(number(0)),
        number(0).lt(car.pause_secs_left),
    ensures
        ({
            let left = eval(Calc::Difference(car.pause_secs_left, dt));
            if number(0).lt(left) {
                gone_on(g, car, dt, eval) == (Car {
                    pause_secs_left: left,
                    last_speed_kmh: number(0),
                    ..car
                })
            } else {
                gone_on(g, car, dt, eval) == gone_on(
                    g,
                    Car {
                        pause_secs_left: number(0),
                        speed_mps: drawn_speed(car.rng, eval),
                        rng: car.rng.next(),
                        ..car
                    },
                    dt,
                    eval,
                )
            }
        }),
{
    crate::double::lemma_constants();
    let a = advanced(car, dt);
    let b = supplied(g, a, eval(wanted(g, a)->0));
    assert(settled(g, a, eval) == settled(g, b, eval));
    if b.stage is Ready {
        assert(settled(g, b, eval) == b);
    } else {
        let c = supplied(g, b, eval(wanted(g, b)->0));
        let d = supplied(g, c, eval(wanted(g, c)->0));
        assert(settled(g, b, eval) == settled(g, c, eval));
        assert(settled(g, c, eval) == settled(g, d, eval));
    }
}

/// Out of a pause, the seconds that pass are taken off the time left to drive.
/// When none is left, a pause of a drawn length begins, the next time to drive is
/// drawn after it, no speed is shown, and nothing else changes.
pub proof fn law_drive_runs_down(g: Roads, car: Car, dt: Double, eval: spec_fn(Calc) -> Double)
    requires
        car.stage is Ready,
        !dt.le(number(0)),
        !number(0).lt(car.pause_secs_left),
        eval(Calc::Difference(car.drive_secs_left, dt)).le(number(0)),
    ensures
        gone_on(g, car, dt, eval) == (Car {
            pause_secs_left: drawn_between(PAUSE_MIN_SECS, PAUSE_MAX_SECS, car.rng, eval),
            drive_secs_left: drawn_between(
                DRIVE_MIN_SECS,
                DRIVE_MAX_SECS,
                car.rng.next(),
                eval,
            ),
            rng: car.rng.next().next(),
            last_speed_kmh: number(0),
            ..car
        }),
{
    let a = advanced(car, dt);
    let b = supplied(g, a, eval(wanted(g, a)->0));
    let c = supplied(g, b, eval(wanted(g, b)->0));
    let d = supplied(g, c, eval(wanted(g, c)->0));
    assert(settled(g, a, eval) == settled(g, b, eval));
    assert(settled(g, b, eval) == settled(g, c, eval));
    assert(settled(g, c, eval) == settled(g, d, eval));
    assert(settled(g, d, eval) == d);
}

/// What becomes of a vehicle that has `budget` metres to go, at the `steps`-th
/// road of an advance.
pub open spec fn rolled(
    g: Roads,
    car: Car,
    budget: Double,
    steps: u32,
    eval: spec_fn(Calc) -> Double,
) -> Car {
    settled(g, Car { stage: Stage::Stretch { budget, steps }, ..car }, eval)
}

/// The length of the road that the vehicle is on, in metres.
pub open spec fn road_length(g: Roads, car: Car, eval: spec_fn(Calc) -> Double) -> Double {
    eval(Calc::Length { from: g.nodes[car.from as int], to: g.nodes[car.to as int] })
}

/// While there is time left to drive, the vehicle shows its speed in km/h, and
/// has as many metres to go as its speed makes in the seconds that pass.
pub proof fn law_drive_goes_on(g: Roads, car: Car, dt: Double, eval: spec_fn(Calc) -> Double)
    requires
        car.stage is Ready,
        !dt.le(number(0)),
        !number(0).lt(car.pause_secs_left),
        !eval(Calc::Difference(car.drive_secs_left, dt)).le(number(0)),
    ensures
        gone_on(g, car, dt, eval) == rolled(
            g,
            Car {
                drive_secs_left: eval(Calc::Difference(car.drive_secs_left, dt)),
                last_speed_kmh: eval(Calc::Product(car.speed_mps, number(KMH_PER_MPS))),
                ..car
            },
            eval(Calc::Product(car.speed_mps, dt)),
            1,
            eval,
        ),
{
    let a = advanced(car, dt);
    let b = supplied(g, a, eval(wanted(g, a)->0));
    let c = supplied(g, b, eval(wanted(g, b)->0));
    let d = supplied(g, c, eval(wanted(g, c)->0));
    assert(settled(g, a, eval) == settled(g, b, eval));
    assert(settled(g, b, eval) == settled(g, c, eval));
    assert(settled(g, c, eval) == settled(g, d, eval));
}

/// `end` is `car`, shown where it is along its road: the share of the road that
/// is behind it, held between none and all, on the way from the one node to the
/// other; at the first of them, where the road has no length.
pub open spec fn put_in_place(
    g: Roads,
    car: Car,
    end: Car,
    eval: spec_fn(Calc) -> Double,
) -> bool {
    let length = road_length(g, car, eval);
    let quotient = eval(Calc::Quotient(car.offset_m, length));
    let share = if !number(0).lt(length) || quotient.lt(number(0)) {
        number(0)
    } else if number(0x3ff0_0000_0000_0000).lt(quotient) {
        number(0x3ff0_0000_0000_0000)
    } else {
        quotient
    };
    end == (Car {
        lat: eval(
            Calc::Along {
                start: g.nodes[car.from as int].lat,
                end: g.nodes[car.to as int].lat,
                share,
            },
        ),
        lon: eval(
            Calc::Along {
                start: g.nodes[car.from as int].lon,
                end: g.nodes[car.to as int].lon,
                share,
            },
        ),
        stage: Stage::Ready,
        ..car
    })
}

proof fn lemma_span(g: Roads, car: Car, eval: spec_fn(Calc) -> Double)
    requires
        car.stage is Span,
    ensures
        put_in_place(g, car, settled(g, car, eval), eval),
{
    let b = supplied(g, car, eval(wanted(g, car)->0));
    assert(settled(g, car, eval) == settled(g, b, eval));
    let c = if b.stage is Share {
        supplied(g, b, eval(wanted(g, b)->0))
    } else {
        b
    };
    assert(settled(g, b, eval) == settled(g, c, eval));
    let d = supplied(g, c, eval(wanted(g, c)->0));
    let e = supplied(g, d, eval(wanted(g, d)->0));
    assert(settled(g, c, eval) == settled(g, d, eval));
    assert(settled(g, d, eval) == settled(g, e, eval));
    assert(settled(g, e, eval) == e);
}

/// Where fewer metres are to go than remain of the road, the vehicle goes that
/// far along it and is shown there.
pub proof fn law_vehicle_stops_along_its_road(
    g: Roads,
    car: Car,
    budget: Double,
    steps: u32,
    eval: spec_fn(Calc) -> Double,
)
    requires
        steps <= 10_000,
        budget.lt(eval(Calc::Difference(road_length(g, car, eval), car.offset_m))),
    ensures
        put_in_place(
            g,
            Car { offset_m: eval(Calc::Sum(car.offset_m, budget)), ..car },
            rolled(g, car, budget, steps, eval),
            eval,
        ),
{
    let a = Car { stage: Stage::Stretch { budget, steps }, ..car };
    let b = supplied(g, a, eval(wanted(g, a)->0));
    let c = supplied(g, b, eval(wanted(g, b)->0));
    let d = supplied(g, c, eval(wanted(g, c)->0));
    assert(settled(g, a, eval) == settled(g, b, eval));
    assert(settled(g, b, eval) == settled(g, c, eval));
    assert(settled(g, c, eval) == settled(g, d, eval));
    lemma_span(g, d, eval);
}

/// Otherwise the vehicle comes to the node ahead. What remained of the road, if
/// anything, is taken off the metres to go. It turns into the way on that the
/// generator picks, at its beginning, and takes a newly drawn speed where not
/// exactly two roads leave the node. Then it goes on, unless this was the ten
/// thousandth road of the advance: in that case it is shown where it is.
pub proof fn law_vehicle_passes_a_node(
    g: Roads,
    car: Car,
    budget: Double,
    steps: u32,
    remain: Double,
    taken: Double,
    eval: spec_fn(Calc) -> Double,
)
    requires
        1 <= steps <= 10_000,
        remain == eval(Calc::Difference(road_length(g, car, eval), car.offset_m)),
        !budget.lt(remain),
        taken == (if number(0).lt(remain) {
            remain
        } else {
            number(0)
        }),
    ensures
        ({
            let (node, before) = (car.to as int, car.from as int);
            let r = g.after_choice(car.rng, node, before);
            let left = eval(Calc::Difference(budget, taken));
            let straight = Car {
                from: car.to,
                to: g.onward(car.rng, node, before) as usize,
                offset_m: number(0),
                rng: r,
                ..car
            };
            let turned = if g.adj[node].len() == 2 {
                straight
            } else {
                Car { speed_mps: drawn_speed(r, eval), rng: r.next(), ..straight }
            };
            let end = rolled(g, car, budget, steps, eval);
            if steps < 10_000 {
                end == rolled(g, turned, left, (steps + 1) as u32, eval)
            } else {
                put_in_place(g, turned, end, eval)
            }
        }),
{
    let a = Car { stage: Stage::Stretch { budget, steps }, ..car };
    let b = supplied(g, a, eval(wanted(g, a)->0));
    let c = supplied(g, b, eval(wanted(g, b)->0));
    let d = supplied(g, c, eval(wanted(g, c)->0));
    assert(settled(g, a, eval) == settled(g, b, eval));
    assert(settled(g, b, eval) == settled(g, c, eval));
    assert(c.stage == (Stage::Spend { budget, steps, remain: taken }));
    assert(settled(g, c, eval) == settled(g, d, eval));
    let f = if d.stage is TurnRange {
        let e = supplied(g, d, eval(wanted(g, d)->0));
        let f = supplied(g, e, eval(wanted(g, e)->0));
        assert(settled(g, d, eval) == settled(g, e, eval));
        assert(settled(g, e, eval) == settled(g, f, eval));
        f
    } else {
        d
    };
    if steps == 10_000 {
        lemma_span(g, f, eval);
    }
}

}
