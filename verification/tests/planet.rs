use astro_parrot::planet::ai::{AstroParrotPlanetAI, PlanetReply, PlanetRequest};
use astro_parrot::planet::create::{combination_rules, generation_rules};
use astro_parrot::resource::{BasicKind, ComplexKind};
use common_game::components::asteroid::Asteroid;
use common_game::components::planet::{DummyPlanetState, Planet, PlanetAI, PlanetState, PlanetType};
use common_game::components::resource::{BasicResourceType, Combinator, ComplexResourceType, Generator};
use common_game::components::rocket::Rocket;
use common_game::components::sunray::Sunray;
use common_game::protocols::orchestrator_planet::{OrchestratorToPlanet, PlanetToOrchestrator};
use common_game::protocols::planet_explorer::{ExplorerToPlanet, PlanetToExplorer};
use crossbeam_channel::unbounded;

/// Drives the library's planet AI through `common-game`'s planet.
struct Ai(AstroParrotPlanetAI);

impl PlanetAI for Ai {
    fn handle_sunray(&mut self, state: &mut PlanetState, generator: &Generator, combinator: &Combinator, sunray: Sunray) {
        self.0.handle_sunray(state, generator, combinator, sunray);
    }

    fn handle_asteroid(&mut self, state: &mut PlanetState, generator: &Generator, combinator: &Combinator) -> Option<Rocket> {
        self.0.handle_asteroid(state, generator, combinator)
    }

    fn handle_internal_state_req(
        &mut self,
        state: &mut PlanetState,
        generator: &Generator,
        combinator: &Combinator,
    ) -> DummyPlanetState {
        self.0.handle_internal_state_req(state, generator, combinator)
    }

    fn handle_explorer_msg(
        &mut self,
        state: &mut PlanetState,
        generator: &Generator,
        combinator: &Combinator,
        msg: ExplorerToPlanet,
    ) -> Option<PlanetToExplorer> {
        let request = match msg {
            ExplorerToPlanet::SupportedResourceRequest { .. } => PlanetRequest::SupportedResources,
            ExplorerToPlanet::SupportedCombinationRequest { .. } => PlanetRequest::SupportedCombinations,
            ExplorerToPlanet::AvailableEnergyCellRequest { .. } => PlanetRequest::AvailableEnergyCells,
            _ => return None,
        };
        match self.0.handle_explorer_msg(state, generator, combinator, request)? {
            PlanetReply::AvailableEnergyCells(n) => {
                Some(PlanetToExplorer::AvailableEnergyCellResponse { available_cells: n })
            }
            _ => None,
        }
    }
}

/// Runs an AstroParrot planet through `messages` (after starting it, before
/// killing it) and returns what it answered.
fn run_planet(messages: Vec<OrchestratorToPlanet>) -> Vec<PlanetToOrchestrator> {
    let (to_planet, from_orchestrator) = unbounded();
    let (to_orchestrator, from_planet) = unbounded();
    let (_to_planet_from_explorers, from_explorers) = unbounded();
    let gen_rules: Vec<BasicResourceType> = generation_rules()
        .into_iter()
        .map(|b| match b {
            BasicKind::Oxygen => BasicResourceType::Oxygen,
            BasicKind::Hydrogen => BasicResourceType::Hydrogen,
            BasicKind::Carbon => BasicResourceType::Carbon,
            BasicKind::Silicon => BasicResourceType::Silicon,
        })
        .collect();
    let comb_rules: Vec<ComplexResourceType> = combination_rules()
        .into_iter()
        .map(|c| match c {
            ComplexKind::Diamond => ComplexResourceType::Diamond,
            ComplexKind::Water => ComplexResourceType::Water,
            ComplexKind::Life => ComplexResourceType::Life,
            ComplexKind::Robot => ComplexResourceType::Robot,
            ComplexKind::Dolphin => ComplexResourceType::Dolphin,
            ComplexKind::AIPartner => ComplexResourceType::AIPartner,
        })
        .collect();
    let mut planet = Planet::new(
        3,
        PlanetType::C,
        Box::new(Ai(AstroParrotPlanetAI::new())),
        gen_rules,
        comb_rules,
        (from_orchestrator, to_orchestrator),
        from_explorers,
    )
    .expect("a valid type C planet");
    to_planet.send(OrchestratorToPlanet::StartPlanetAI).unwrap();
    for m in messages {
        to_planet.send(m).unwrap();
    }
    to_planet.send(OrchestratorToPlanet::KillPlanet).unwrap();
    assert!(planet.run().is_ok());
    from_planet.try_iter().collect()
}

#[test]
fn the_planet_generates_carbon_and_combines_partners_and_diamonds() {
    assert_eq!(generation_rules(), vec![BasicKind::Carbon]);
    assert_eq!(combination_rules(), vec![ComplexKind::AIPartner, ComplexKind::Diamond]);
}

#[test]
fn a_sunray_keeps_a_rocket_ready_for_the_next_asteroid() {
    let replies = run_planet(vec![
        OrchestratorToPlanet::Sunray(Sunray::default()),
        OrchestratorToPlanet::InternalStateRequest,
        OrchestratorToPlanet::Asteroid(Asteroid::default()),
        OrchestratorToPlanet::Asteroid(Asteroid::default()),
    ]);
    assert_eq!(replies.len(), 6);
    assert!(matches!(replies[1], PlanetToOrchestrator::SunrayAck { planet_id: 3 }));
    match &replies[2] {
        PlanetToOrchestrator::InternalStateResponse { planet_state, .. } => {
            // The cell charged by the sunray went into the rocket.
            assert!(planet_state.has_rocket);
            assert_eq!(planet_state.charged_cells_count, 0);
        }
        other => panic!("unexpected reply: {other:?}"),
    }
    assert!(matches!(replies[3], PlanetToOrchestrator::AsteroidAck { rocket: Some(_), .. }));
    // No charged cell left to build another rocket.
    assert!(matches!(replies[4], PlanetToOrchestrator::AsteroidAck { rocket: None, .. }));
}

#[test]
fn an_asteroid_without_energy_finds_no_rocket() {
    let replies = run_planet(vec![OrchestratorToPlanet::Asteroid(Asteroid::default())]);
    assert!(matches!(replies[1], PlanetToOrchestrator::AsteroidAck { rocket: None, .. }));
}

#[test]
fn two_sunrays_leave_a_rocket_and_a_charged_cell() {
    let replies = run_planet(vec![
        OrchestratorToPlanet::Sunray(Sunray::default()),
        OrchestratorToPlanet::Sunray(Sunray::default()),
        OrchestratorToPlanet::InternalStateRequest,
        OrchestratorToPlanet::Asteroid(Asteroid::default()),
        OrchestratorToPlanet::Asteroid(Asteroid::default()),
    ]);
    match &replies[3] {
        PlanetToOrchestrator::InternalStateResponse { planet_state, .. } => {
            assert!(planet_state.has_rocket);
            assert_eq!(planet_state.charged_cells_count, 1);
        }
        other => panic!("unexpected reply: {other:?}"),
    }
    assert!(matches!(replies[4], PlanetToOrchestrator::AsteroidAck { rocket: Some(_), .. }));
    // The charged cell builds a rocket on the spot.
    assert!(matches!(replies[5], PlanetToOrchestrator::AsteroidAck { rocket: Some(_), .. }));
}

/// What a probe asks the library's planet AI for, one request per internal
/// state request of the orchestrator.
#[derive(Clone, Copy)]
enum Ask {
    Supported,
    Combinations,
    Cells,
    Carbon,
    Diamond,
}

/// Runs the library's AI for sunrays and asteroids, and on each internal
/// state request hands it the next explorer request of its script, on the
/// planet's real state, and writes down the answer.
struct Probe {
    ai: AstroParrotPlanetAI,
    script: Vec<Ask>,
    carried: Vec<common_game::components::resource::BasicResource>,
    log: std::sync::Arc<std::sync::Mutex<Vec<String>>>,
}

impl Probe {
    fn answer(&mut self, state: &mut PlanetState, generator: &Generator, combinator: &Combinator, ask: Ask) -> String {
        let request = match ask {
            Ask::Supported => PlanetRequest::SupportedResources,
            Ask::Combinations => PlanetRequest::SupportedCombinations,
            Ask::Cells => PlanetRequest::AvailableEnergyCells,
            Ask::Carbon => PlanetRequest::Generate(BasicKind::Carbon),
            Ask::Diamond => {
                let b = self.carried.pop().unwrap().to_carbon().unwrap();
                let a = self.carried.pop().unwrap().to_carbon().unwrap();
                PlanetRequest::Combine(common_game::components::resource::ComplexResourceRequest::Diamond(a, b))
            }
        };
        match self.ai.handle_explorer_msg(state, generator, combinator, request) {
            Some(PlanetReply::SupportedResources(s)) => format!(
                "basics {}{}",
                s.len(),
                if s.contains(BasicKind::Carbon) { " with carbon" } else { "" }
            ),
            Some(PlanetReply::SupportedCombinations(s)) => format!(
                "combinations {}{}{}",
                s.len(),
                if s.contains(ComplexKind::Diamond) { " diamond" } else { "" },
                if s.contains(ComplexKind::AIPartner) { " partner" } else { "" }
            ),
            Some(PlanetReply::AvailableEnergyCells(n)) => format!("cells {n}"),
            Some(PlanetReply::Generated(Some(r))) => {
                let text = format!("generated {:?}", r.get_type());
                self.carried.push(r);
                text
            }
            Some(PlanetReply::Generated(None)) => "generated nothing".to_string(),
            Some(PlanetReply::Combined(Ok(c))) => format!("combined {:?}", c.get_type()),
            Some(PlanetReply::Combined(Err(_))) => "refused".to_string(),
            None => "no answer".to_string(),
        }
    }
}

impl PlanetAI for Probe {
    fn handle_sunray(&mut self, state: &mut PlanetState, generator: &Generator, combinator: &Combinator, sunray: Sunray) {
        self.ai.handle_sunray(state, generator, combinator, sunray);
    }

    fn handle_asteroid(&mut self, state: &mut PlanetState, generator: &Generator, combinator: &Combinator) -> Option<Rocket> {
        self.ai.handle_asteroid(state, generator, combinator)
    }

    fn handle_internal_state_req(
        &mut self,
        state: &mut PlanetState,
        generator: &Generator,
        combinator: &Combinator,
    ) -> DummyPlanetState {
        if !self.script.is_empty() {
            let ask = self.script.remove(0);
            let text = self.answer(state, generator, combinator, ask);
            self.log.lock().unwrap().push(text);
        }
        self.ai.handle_internal_state_req(state, generator, combinator)
    }

    fn handle_explorer_msg(
        &mut self,
        _state: &mut PlanetState,
        _generator: &Generator,
        _combinator: &Combinator,
        _msg: ExplorerToPlanet,
    ) -> Option<PlanetToExplorer> {
        None
    }
}

/// Runs a probe planet: `sunrays[i]` sunrays before the `i`-th request of
/// `script`; returns the answers.
fn probe(script: Vec<Ask>, sunrays: Vec<usize>) -> Vec<String> {
    let log = std::sync::Arc::new(std::sync::Mutex::new(Vec::new()));
    let (to_planet, from_orchestrator) = unbounded();
    let (to_orchestrator, _from_planet) = unbounded();
    let (_to_planet_from_explorers, from_explorers) = unbounded();
    let mut planet = Planet::new(
        3,
        PlanetType::C,
        Box::new(Probe { ai: AstroParrotPlanetAI::new(), script, carried: Vec::new(), log: log.clone() }),
        vec![BasicResourceType::Carbon],
        vec![ComplexResourceType::AIPartner, ComplexResourceType::Diamond],
        (from_orchestrator, to_orchestrator),
        from_explorers,
    )
    .expect("a valid type C planet");
    to_planet.send(OrchestratorToPlanet::StartPlanetAI).unwrap();
    for n in sunrays {
        for _ in 0..n {
            to_planet.send(OrchestratorToPlanet::Sunray(Sunray::default())).unwrap();
        }
        to_planet.send(OrchestratorToPlanet::InternalStateRequest).unwrap();
    }
    to_planet.send(OrchestratorToPlanet::KillPlanet).unwrap();
    assert!(planet.run().is_ok());
    let answers = log.lock().unwrap().clone();
    answers
}

#[test]
fn explorers_learn_what_the_planet_makes() {
    let answers = probe(vec![Ask::Supported, Ask::Combinations, Ask::Cells], vec![0, 0, 0]);
    assert_eq!(answers, vec!["basics 1 with carbon", "combinations 2 diamond partner", "cells 0"]);
}

#[test]
fn generating_needs_a_charged_cell_and_spends_it() {
    // One sunray goes into the rocket, the second charges the cell.
    let answers = probe(vec![Ask::Cells, Ask::Carbon, Ask::Cells, Ask::Carbon], vec![2, 0, 0, 0]);
    assert_eq!(answers, vec!["cells 1", "generated Carbon", "cells 0", "generated nothing"]);
}

#[test]
fn two_carbons_and_a_charge_make_a_diamond() {
    let answers = probe(vec![Ask::Carbon, Ask::Carbon, Ask::Diamond], vec![2, 1, 1]);
    assert_eq!(answers, vec!["generated Carbon", "generated Carbon", "combined Diamond"]);
}

#[test]
fn the_overview_reports_each_cell_the_count_and_the_rocket() {
    let replies = run_planet(vec![OrchestratorToPlanet::InternalStateRequest]);
    match &replies[1] {
        PlanetToOrchestrator::InternalStateResponse { planet_state, .. } => {
            assert_eq!(planet_state.energy_cells, vec![false]);
            assert_eq!(planet_state.charged_cells_count, 0);
            assert!(!planet_state.has_rocket);
        }
        other => panic!("unexpected reply: {other:?}"),
    }
}

#[test]
fn the_planet_is_of_class_c() {
    assert_eq!(astro_parrot::planet::create::planet_class(), astro_parrot::planet::create::PlanetClass::C);
}
