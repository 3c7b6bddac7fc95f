use virtual_dj_plugin::poller::POLL_INTERVAL_MS;
use virtual_dj_plugin::{Action, CueKey, Event, Query, Reply, Stage, StatePoller, TcpConfig};

struct Cue {
    number: u32,
    position: Option<i64>,
    name: Option<&'static str>,
}

struct Deck {
    audible: Option<&'static str>,
    title: Option<&'static str>,
    position: Option<i64>,
    cues: Vec<Cue>,
}

struct Engine {
    active: Option<&'static str>,
    decks: Vec<Deck>,
}

fn silent_deck() -> Deck {
    Deck { audible: Some("off"), title: Some(""), position: None, cues: Vec::new() }
}

fn playing_deck(title: &'static str, position: i64, cues: Vec<Cue>) -> Deck {
    Deck { audible: Some("on"), title: Some(title), position: Some(position), cues }
}

fn engine_with_deck_one(deck: Deck) -> Engine {
    Engine { active: None, decks: vec![deck, silent_deck(), silent_deck(), silent_deck()] }
}

fn text(answer: Option<&'static str>) -> Reply<String> {
    match answer {
        Some(t) => Reply::Text(t.to_string()),
        None => Reply::Failed,
    }
}

fn number(answer: Option<i64>) -> Reply<String> {
    match answer {
        Some(n) => Reply::Number(n),
        None => Reply::Failed,
    }
}

impl Engine {
    fn answer(&self, query: &Query<String>) -> Reply<String> {
        let command = match query {
            Query::Text(c) => c,
            Query::Number(c) => c,
        };
        if command == "get_activedeck" {
            assert!(matches!(query, Query::Text(_)));
            return text(self.active);
        }
        let words: Vec<&str> = command.split(' ').collect();
        assert_eq!(words[0], "deck");
        let deck = &self.decks[words[1].parse::<usize>().unwrap() - 1];
        let cue = |words: &Vec<&str>| {
            let wanted = words[3].parse::<u32>().unwrap();
            deck.cues.iter().find(|c| c.number == wanted)
        };
        match words[2] {
            "is_audible" => {
                assert!(matches!(query, Query::Text(_)));
                text(deck.audible)
            }
            "get_title" => {
                assert!(matches!(query, Query::Text(_)));
                text(deck.title)
            }
            "get_position" => {
                assert!(matches!(query, Query::Number(_)));
                number(deck.position)
            }
            "has_cue" => {
                assert!(matches!(query, Query::Text(_)));
                match cue(&words) {
                    Some(_) => Reply::Text("on".to_string()),
                    None => Reply::Text("off".to_string()),
                }
            }
            "cue_pos" => {
                assert!(matches!(query, Query::Number(_)));
                number(cue(&words).unwrap().position)
            }
            "cue_name" => {
                assert!(matches!(query, Query::Text(_)));
                text(cue(&words).unwrap().name)
            }
            other => panic!("unknown verb {}", other),
        }
    }
}

struct Tick {
    poller: StatePoller,
    asked: Vec<String>,
    message: Option<String>,
}

fn run_tick(poller: StatePoller, engine: &Engine, now_ms: u64) -> Tick {
    let mut poller = poller.advance(Event::Woke { active: true, ready: true }, now_ms);
    let mut asked = Vec::new();
    loop {
        match poller.action() {
            Action::Ask(query) => {
                asked.push(match &query {
                    Query::Text(c) => c.clone(),
                    Query::Number(c) => c.clone(),
                });
                poller = poller.advance(Event::Answered(engine.answer(&query)), now_ms);
            }
            Action::Connect { message, .. } => {
                return Tick { poller, asked, message: Some(message) };
            }
            Action::Sleep { ms } => {
                assert_eq!(ms, POLL_INTERVAL_MS);
                return Tick { poller, asked, message: None };
            }
            Action::Stop => panic!("the poller stopped inside a tick"),
        }
    }
}

fn delivered(poller: StatePoller, now_ms: u64) -> StatePoller {
    let poller = poller.advance(Event::Sent { delivered: true }, now_ms);
    assert_eq!(*poller.stage(), Stage::Resting);
    poller
}

fn set_cursor(engine: &mut Engine, position: i64) {
    engine.decks[0].position = Some(position);
}

#[test]
fn new_poller_rests() {
    let poller = StatePoller::new(TcpConfig::default());
    assert_eq!(*poller.stage(), Stage::Resting);
    assert_eq!(poller.action(), Action::Sleep { ms: 100 });
    assert_eq!(poller.master_title(), "");
    assert_eq!(poller.failures(), 0);
}

#[test]
fn poller_waits_while_engine_is_not_ready() {
    let poller = StatePoller::new(TcpConfig::default());
    let poller = poller.advance(Event::Woke { active: true, ready: false }, 0);
    assert_eq!(*poller.stage(), Stage::Resting);
    assert_eq!(poller.action(), Action::Sleep { ms: 100 });
}

#[test]
fn poller_stops_when_no_longer_active() {
    let poller = StatePoller::new(TcpConfig::default());
    let poller = poller.advance(Event::Woke { active: false, ready: true }, 0);
    assert_eq!(*poller.stage(), Stage::Stopped);
    assert_eq!(poller.action(), Action::Stop);
    let poller = poller.advance(Event::Woke { active: true, ready: true }, 0);
    assert_eq!(poller.action(), Action::Stop);
}

#[test]
fn tick_begins_with_the_active_deck() {
    let poller = StatePoller::new(TcpConfig::default());
    let poller = poller.advance(Event::Woke { active: true, ready: true }, 0);
    assert_eq!(poller.action(), Action::Ask(Query::Text("get_activedeck".to_string())));
}

#[test]
fn quiet_tick_asks_each_deck_and_makes_no_connection() {
    let engine = Engine {
        active: None,
        decks: vec![silent_deck(), silent_deck(), silent_deck(), silent_deck()],
    };
    let tick = run_tick(StatePoller::new(TcpConfig::default()), &engine, 0);
    assert!(tick.message.is_none());
    assert_eq!(
        tick.asked,
        vec![
            "get_activedeck",
            "deck 1 is_audible",
            "deck 2 is_audible",
            "deck 3 is_audible",
            "deck 4 is_audible"
        ]
    );
    assert_eq!(*tick.poller.stage(), Stage::Resting);
    assert_eq!(tick.poller.action(), Action::Sleep { ms: 100 });
}

#[test]
fn audible_deck_without_cues_is_asked_for_all_of_them() {
    let engine = engine_with_deck_one(playing_deck("Song A", 0, Vec::new()));
    let tick = run_tick(StatePoller::new(TcpConfig::default()), &engine, 0);
    assert!(tick.message.is_none());
    assert_eq!(tick.asked.len(), 1 + 3 + 128 + 3);
    assert_eq!(tick.asked[1], "deck 1 is_audible");
    assert_eq!(tick.asked[2], "deck 1 get_title");
    assert_eq!(tick.asked[3], "deck 1 get_position");
    assert_eq!(tick.asked[4], "deck 1 has_cue 1");
    assert_eq!(tick.asked[131], "deck 1 has_cue 128");
    assert_eq!(tick.asked[132], "deck 2 is_audible");
}

#[test]
fn hotcue_scenario_song_a() {
    let cue = Cue { number: 1, position: Some(10), name: None };
    let mut engine = engine_with_deck_one(playing_deck("Song A", 0, vec![cue]));
    let key = CueKey { title: "Song A".to_string(), cue: 1 };

    let tick = run_tick(StatePoller::new(TcpConfig::default()), &engine, 0);
    assert!(tick.message.is_none());

    set_cursor(&mut engine, 9);
    let tick = run_tick(tick.poller, &engine, 100);
    assert!(tick.message.is_none());
    assert!(!tick.poller.is_armed(&key));

    set_cursor(&mut engine, 11);
    let tick = run_tick(tick.poller, &engine, 200);
    assert_eq!(
        tick.message.as_deref(),
        Some("{\"cues\":[{\"title\":\"Song A\",\"cue\":\"1\",\"deck\":\"1\"}]}")
    );
    assert!(tick.asked.contains(&"deck 1 cue_name 1".to_string()));
    assert!(tick.poller.is_armed(&key));
    let poller = delivered(tick.poller, 201);

    let tick = run_tick(poller, &engine, 300);
    assert!(tick.message.is_none());
    assert!(!tick.asked.contains(&"deck 1 cue_name 1".to_string()));

    set_cursor(&mut engine, 5);
    let tick = run_tick(tick.poller, &engine, 400);
    assert!(tick.message.is_none());
    assert!(!tick.poller.is_armed(&key));

    set_cursor(&mut engine, 12);
    let tick = run_tick(tick.poller, &engine, 500);
    assert_eq!(
        tick.message.as_deref(),
        Some("{\"cues\":[{\"title\":\"Song A\",\"cue\":\"1\",\"deck\":\"1\"}]}")
    );
    assert!(tick.poller.is_armed(&key));
}

#[test]
fn master_scenario_track_x() {
    let mut engine = Engine {
        active: Some("2"),
        decks: vec![silent_deck(), silent_deck(), silent_deck(), silent_deck()],
    };
    engine.decks[1].title = Some("Track X");

    let tick = run_tick(StatePoller::new(TcpConfig::default()), &engine, 0);
    assert_eq!(tick.asked[0], "get_activedeck");
    assert_eq!(tick.asked[1], "deck 2 get_title");
    assert_eq!(
        tick.message.as_deref(),
        Some("{\"master\":{\"title\":\"Track X\",\"cue\":\"master\"}}")
    );
    assert_eq!(tick.poller.master_title(), "Track X");
    let poller = delivered(tick.poller, 1);

    let tick = run_tick(poller, &engine, 100);
    assert!(tick.message.is_none());
    assert_eq!(tick.poller.master_title(), "Track X");
}

#[test]
fn empty_master_title_neither_reports_nor_overwrites() {
    let mut engine = Engine {
        active: Some(" 3 \n"),
        decks: vec![silent_deck(), silent_deck(), silent_deck(), silent_deck()],
    };
    engine.decks[2].title = Some("Track X");
    let tick = run_tick(StatePoller::new(TcpConfig::default()), &engine, 0);
    assert!(tick.message.is_some());
    let poller = delivered(tick.poller, 1);

    engine.decks[2].title = Some("");
    let tick = run_tick(poller, &engine, 100);
    assert!(tick.message.is_none());
    assert_eq!(tick.poller.master_title(), "Track X");

    engine.decks[2].title = None;
    let tick = run_tick(tick.poller, &engine, 200);
    assert!(tick.message.is_none());
    assert_eq!(tick.poller.master_title(), "Track X");
}

#[test]
fn active_deck_outside_the_decks_skips_the_master() {
    for answer in ["0", "5", "x", "", "-1", "2.0", "1 2"] {
        let mut engine = Engine {
            active: Some(answer),
            decks: vec![silent_deck(), silent_deck(), silent_deck(), silent_deck()],
        };
        engine.decks[0].title = Some("Track X");
        let tick = run_tick(StatePoller::new(TcpConfig::default()), &engine, 0);
        assert!(tick.message.is_none());
        assert_eq!(tick.asked[1], "deck 1 is_audible");
        assert_eq!(tick.poller.master_title(), "");
    }
}

#[test]
fn audibility_is_read_without_regard_to_case() {
    for flag in ["on", "ON", "yes", "Yes", "true", "TRUE", "tRuE"] {
        let mut deck = playing_deck("Song A", 0, Vec::new());
        deck.audible = Some(flag);
        let tick = run_tick(StatePoller::new(TcpConfig::default()), &engine_with_deck_one(deck), 0);
        assert_eq!(tick.asked[2], "deck 1 get_title");
    }
    for flag in ["off", "no", "false", "1", "", " on", "on "] {
        let mut deck = playing_deck("Song A", 0, Vec::new());
        deck.audible = Some(flag);
        let tick = run_tick(StatePoller::new(TcpConfig::default()), &engine_with_deck_one(deck), 0);
        assert_eq!(tick.asked[2], "deck 2 is_audible");
    }
}

#[test]
fn deck_without_title_or_position_is_passed_over() {
    let cue = Cue { number: 1, position: Some(0), name: None };
    let mut deck = playing_deck("", 5, vec![cue]);
    let tick = run_tick(StatePoller::new(TcpConfig::default()), &engine_with_deck_one(deck), 0);
    assert!(tick.message.is_none());
    assert_eq!(tick.asked[3], "deck 2 is_audible");

    let cue = Cue { number: 1, position: Some(0), name: None };
    deck = playing_deck("Song A", -1, vec![cue]);
    let tick = run_tick(StatePoller::new(TcpConfig::default()), &engine_with_deck_one(deck), 0);
    assert!(tick.message.is_none());
    assert_eq!(tick.asked[4], "deck 2 is_audible");

    let cue = Cue { number: 1, position: Some(0), name: None };
    deck = playing_deck("Song A", 5, vec![cue]);
    deck.position = None;
    let tick = run_tick(StatePoller::new(TcpConfig::default()), &engine_with_deck_one(deck), 0);
    assert!(tick.message.is_none());
    assert_eq!(tick.asked[4], "deck 2 is_audible");
}

#[test]
fn cue_without_position_is_passed_over() {
    let cue = Cue { number: 3, position: None, name: Some("Lost") };
    let deck = playing_deck("Song A", 50, vec![cue]);
    let tick = run_tick(StatePoller::new(TcpConfig::default()), &engine_with_deck_one(deck), 0);
    assert!(tick.message.is_none());
    assert!(tick.asked.contains(&"deck 1 cue_pos 3".to_string()));
    assert!(!tick.asked.contains(&"deck 1 cue_name 3".to_string()));
    assert!(!tick.poller.is_armed(&CueKey { title: "Song A".to_string(), cue: 3 }));
}

#[test]
fn cue_at_a_negative_position_is_crossed_by_any_cursor() {
    let cue = Cue { number: 5, position: Some(-3), name: Some("Before") };
    let deck = playing_deck("Song A", 0, vec![cue]);
    let tick = run_tick(StatePoller::new(TcpConfig::default()), &engine_with_deck_one(deck), 0);
    assert_eq!(
        tick.message.as_deref(),
        Some("{\"cues\":[{\"title\":\"Song A\",\"cue\":\"5\",\"deck\":\"1\",\"cue_name\":\"Before\"}]}")
    );
}

#[test]
fn cue_flag_is_read_without_regard_to_case() {
    let cue = Cue { number: 1, position: Some(0), name: None };
    let deck = playing_deck("Song A", 0, vec![cue]);
    let engine = engine_with_deck_one(deck);
    let mut poller = StatePoller::new(TcpConfig::default());
    poller = poller.advance(Event::Woke { active: true, ready: true }, 0);
    poller = poller.advance(Event::Answered(Reply::Failed), 0);
    for _ in 0..3 {
        let query = match poller.action() {
            Action::Ask(query) => query,
            other => panic!("unexpected action {:?}", other),
        };
        poller = poller.advance(Event::Answered(engine.answer(&query)), 0);
    }
    assert_eq!(
        poller.action(),
        Action::Ask(Query::Text("deck 1 has_cue 1".to_string()))
    );
    let poller = poller.advance(Event::Answered(Reply::Text("ON".to_string())), 0);
    assert_eq!(
        poller.action(),
        Action::Ask(Query::Number("deck 1 cue_pos 1".to_string()))
    );
    let poller = poller.advance(Event::Answered(Reply::Number(0)), 0);
    assert_eq!(
        poller.action(),
        Action::Ask(Query::Text("deck 1 cue_name 1".to_string()))
    );
    let poller = poller.advance(Event::Answered(Reply::Failed), 0);
    assert_eq!(
        poller.action(),
        Action::Ask(Query::Text("deck 1 has_cue 2".to_string()))
    );
    let poller = poller.advance(Event::Answered(Reply::Text("yes".to_string())), 0);
    assert_eq!(
        poller.action(),
        Action::Ask(Query::Text("deck 1 has_cue 3".to_string()))
    );
}

#[test]
fn crossings_come_in_deck_then_cue_order_with_names() {
    let mut engine = Engine {
        active: Some("4"),
        decks: vec![
            playing_deck(
                "Song A",
                100,
                vec![
                    Cue { number: 2, position: Some(40), name: Some("Verse") },
                    Cue { number: 1, position: Some(100), name: None },
                    Cue { number: 128, position: Some(101), name: Some("Late") },
                ],
            ),
            silent_deck(),
            silent_deck(),
            playing_deck("Song B", 7, vec![Cue { number: 128, position: Some(7), name: Some("End") }]),
        ],
    };
    engine.decks[3].audible = Some("YES");
    let tick = run_tick(StatePoller::new(TcpConfig::default()), &engine, 0);
    assert_eq!(
        tick.message.as_deref(),
        Some(
            "{\"master\":{\"title\":\"Song B\",\"cue\":\"master\"},\"cues\":[\
             {\"title\":\"Song A\",\"cue\":\"1\",\"deck\":\"1\"},\
             {\"title\":\"Song A\",\"cue\":\"2\",\"deck\":\"1\",\"cue_name\":\"Verse\"},\
             {\"title\":\"Song B\",\"cue\":\"128\",\"deck\":\"4\",\"cue_name\":\"End\"}]}"
        )
    );
    assert_eq!(*tick.asked.last().unwrap(), "deck 4 cue_name 128");
    assert_eq!(
        tick.poller.action(),
        Action::Connect {
            pause_ms: 0,
            address: "127.0.0.1:8112".to_string(),
            message: tick.message.clone().unwrap(),
        }
    );
}

#[test]
fn same_title_on_two_decks_shares_the_armed_key() {
    let engine = Engine {
        active: None,
        decks: vec![
            playing_deck("Song A", 20, vec![Cue { number: 1, position: Some(10), name: None }]),
            playing_deck("Song A", 30, vec![Cue { number: 1, position: Some(10), name: None }]),
            silent_deck(),
            silent_deck(),
        ],
    };
    let tick = run_tick(StatePoller::new(TcpConfig::default()), &engine, 0);
    assert_eq!(
        tick.message.as_deref(),
        Some("{\"cues\":[{\"title\":\"Song A\",\"cue\":\"1\",\"deck\":\"1\"}]}")
    );
}

#[test]
fn failed_delivery_is_retried_then_dropped_and_cooldown_drops_the_next() {
    let config = TcpConfig {
        host: "localhost".to_string(),
        port: 9999,
        retry_cooldown_ms: 1000,
        max_retries: 3,
    };
    let mut engine = Engine {
        active: Some("1"),
        decks: vec![silent_deck(), silent_deck(), silent_deck(), silent_deck()],
    };
    engine.decks[0].title = Some("One");
    let tick = run_tick(StatePoller::new(config), &engine, 0);
    let message = tick.message.clone().unwrap();
    assert_eq!(
        tick.poller.action(),
        Action::Connect { pause_ms: 0, address: "localhost:9999".to_string(), message: message.clone() }
    );
    let poller = tick.poller.advance(Event::Sent { delivered: false }, 10);
    assert_eq!(
        poller.action(),
        Action::Connect { pause_ms: 100, address: "localhost:9999".to_string(), message: message.clone() }
    );
    assert_eq!(poller.failures(), 1);
    let poller = poller.advance(Event::Sent { delivered: false }, 120);
    assert_eq!(
        poller.action(),
        Action::Connect { pause_ms: 100, address: "localhost:9999".to_string(), message }
    );
    let poller = poller.advance(Event::Sent { delivered: false }, 230);
    assert_eq!(poller.action(), Action::Sleep { ms: 100 });
    assert_eq!(poller.failures(), 3);

    engine.decks[0].title = Some("Two");
    let tick = run_tick(poller, &engine, 330);
    assert!(tick.message.is_none());
    assert_eq!(tick.poller.master_title(), "Two");
    assert_eq!(tick.poller.failures(), 3);

    engine.decks[0].title = Some("Three");
    let tick = run_tick(tick.poller, &engine, 1230);
    assert_eq!(
        tick.message.as_deref(),
        Some("{\"master\":{\"title\":\"Three\",\"cue\":\"master\"}}")
    );
    assert_eq!(tick.poller.failures(), 0);
}

#[test]
fn events_that_the_stage_does_not_await_change_nothing() {
    let poller = StatePoller::new(TcpConfig::default());
    let poller = poller.advance(Event::Answered(Reply::Text("on".to_string())), 0);
    assert_eq!(*poller.stage(), Stage::Resting);
    let poller = poller.advance(Event::Sent { delivered: true }, 0);
    assert_eq!(*poller.stage(), Stage::Resting);
    let poller = poller.advance(Event::Woke { active: true, ready: true }, 0);
    let poller = poller.advance(Event::Woke { active: false, ready: true }, 0);
    assert_eq!(*poller.stage(), Stage::ActiveDeck);
    let poller = poller.advance(Event::Sent { delivered: false }, 0);
    assert_eq!(*poller.stage(), Stage::ActiveDeck);
    assert_eq!(poller.failures(), 0);
}

#[test]
fn answer_of_the_wrong_kind_counts_as_no_answer() {
    let poller = StatePoller::new(TcpConfig::default());
    let poller = poller.advance(Event::Woke { active: true, ready: true }, 0);
    let poller = poller.advance(Event::Answered(Reply::Number(2)), 0);
    assert_eq!(*poller.stage(), Stage::Audible { deck: 1 });
    let poller = poller.advance(Event::Answered(Reply::Text("on".to_string())), 0);
    let poller = poller.advance(Event::Answered(Reply::Text("Song A".to_string())), 0);
    assert_eq!(*poller.stage(), Stage::Position { deck: 1, title: "Song A".to_string() });
    let poller = poller.advance(Event::Answered(Reply::Text("12".to_string())), 0);
    assert_eq!(*poller.stage(), Stage::Audible { deck: 2 });
}
