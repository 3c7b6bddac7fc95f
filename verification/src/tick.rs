//! What a tick comes to. The poller asks one question at a time and decides after each
//! answer what to ask next. This module says the same in one piece: the session after a
//! pass over the master deck, the decks and their hotcues, given what the engine answers.
//! It proves that the poller, run against that engine, ends its tick with exactly that
//! session.

use crate::events::crossing_event;
use crate::host::{
    active_deck_command, audible, cue_command, cue_set, deck_command, deck_named, number_of,
    text_of, text_or_empty, Query, Reply, CUES, DECKS,
};
use crate::poller::{
    action_of, after_cue, after_deck, answered, cues_from, decks_from, delivery_started,
    lemma_tick_ends, questions_left, woke, Action, PollerView, SessionView, Stage,
};
use crate::tracker::{armed_after, fires, master_after, master_event, CueKeyView, Sighting};
use vstd::prelude::*;

verus! {

/// The session after a look at one hotcue of a deck whose track is `title` and whose
/// cursor stands at `cursor`. A hotcue that is not set, or whose position the engine does
/// not give, changes nothing. Otherwise the sighting arms or disarms the key, and where
/// it fires, the crossing is added to the finds under the name that the engine gives.
pub open spec fn cue_seen(
    s: SessionView,
    h: spec_fn(Query<Seq<char>>) -> Reply<Seq<char>>,
    deck: u32,
    title: Seq<char>,
    cursor: i64,
    cue: u32,
) -> SessionView {
    if !cue_set(text_or_empty(h(Query::Text(cue_command(deck as nat, "has_cue"@, cue as nat))))) {
        s
    } else {
        match number_of(h(Query::Number(cue_command(deck as nat, "cue_pos"@, cue as nat)))) {
            None => s,
            Some(marker) => {
                let sighting = Sighting {
                    key: CueKeyView { title, cue: cue as nat },
                    cursor: cursor as int,
                    marker: marker as int,
                };
                let seen = SessionView { armed: armed_after(s.armed, sighting), ..s };
                if fires(s.armed, sighting) {
                    SessionView {
                        found_cues: s.found_cues.push(
                            crossing_event(
                                title,
                                cue as nat,
                                deck as nat,
                                text_of(
                                    h(
                                        Query::Text(
                                            cue_command(deck as nat, "cue_name"@, cue as nat),
                                        ),
                                    ),
                                ),
                            ),
                        ),
                        ..seen
                    }
                } else {
                    seen
                }
            },
        }
    }
}

/// The session after a look at the hotcues of a deck from number `cue` on, in order.
pub open spec fn cues_seen(
    s: SessionView,
    h: spec_fn(Query<Seq<char>>) -> Reply<Seq<char>>,
    deck: u32,
    title: Seq<char>,
    cursor: i64,
    cue: u32,
) -> SessionView
    decreases cues_from(cue),
{
    let next = cue_seen(s, h, deck, title, cursor, cue);
    if cue < CUES {
        cues_seen(next, h, deck, title, cursor, (cue + 1) as u32)
    } else {
        next
    }
}

/// The session after a look at a deck. A deck that cannot be heard, has no title or has
/// no position changes nothing; of any other deck every hotcue is looked at.
pub open spec fn deck_seen(
    s: SessionView,
    h: spec_fn(Query<Seq<char>>) -> Reply<Seq<char>>,
    deck: u32,
) -> SessionView {
    let title = text_or_empty(h(Query::Text(deck_command(deck as nat, "get_title"@))));
    if !audible(text_or_empty(h(Query::Text(deck_command(deck as nat, "is_audible"@))))) {
        s
    } else if title.len() == 0 {
        s
    } else {
        match number_of(h(Query::Number(deck_command(deck as nat, "get_position"@)))) {
            Some(cursor) => if cursor >= 0 {
                cues_seen(s, h, deck, title, cursor, 1)
            } else {
                s
            },
            None => s,
        }
    }
}

/// The session after a look at the decks from number `deck` on, in order.
pub open spec fn decks_seen(
    s: SessionView,
    h: spec_fn(Query<Seq<char>>) -> Reply<Seq<char>>,
    deck: u32,
) -> SessionView
    decreases decks_from(deck),
{
    let next = deck_seen(s, h, deck);
    if deck < DECKS {
        decks_seen(next, h, (deck + 1) as u32)
    } else {
        next
    }
}

/// The session after a look at the master deck. Where the engine names no active deck,
/// nothing changes; otherwise the title on that deck goes to the master tracker.
pub open spec fn master_seen(
    s: SessionView,
    h: spec_fn(Query<Seq<char>>) -> Reply<Seq<char>>,
) -> SessionView {
    match deck_named(text_or_empty(h(Query::Text(active_deck_command())))) {
        Some(deck) => {
            let title = text_or_empty(h(Query::Text(deck_command(deck as nat, "get_title"@))));
            SessionView {
                master: master_after(s.master, title),
                found_master: master_event(s.master, title),
                ..s
            }
        },
        None => s,
    }
}

/// The session after a whole tick: the finds begin empty, the master deck is looked at,
/// and every deck after it.
pub open spec fn tick_seen(
    s: SessionView,
    h: spec_fn(Query<Seq<char>>) -> Reply<Seq<char>>,
) -> SessionView {
    decks_seen(
        master_seen(SessionView { found_master: None, found_cues: Seq::empty(), ..s }, h),
        h,
        1,
    )
}

/// The poller after at most `steps` questions, each answered by the engine `h`. The
/// answer to the question of a stage arrives at the time that `clock` gives for the stage.
pub open spec fn run(
    p: PollerView,
    h: spec_fn(Query<Seq<char>>) -> Reply<Seq<char>>,
    clock: spec_fn(Stage<Seq<char>>) -> nat,
    steps: nat,
) -> PollerView
    decreases steps,
{
    if steps == 0 {
        p
    } else {
        match action_of(p) {
            Action::Ask(query) => run(
                answered(p, h(query), clock(p.stage)),
                h,
                clock,
                (steps - 1) as nat,
            ),
            _ => p,
        }
    }
}

/// The poller at the end of its tick.
pub open spec fn settled(
    p: PollerView,
    h: spec_fn(Query<Seq<char>>) -> Reply<Seq<char>>,
    clock: spec_fn(Stage<Seq<char>>) -> nat,
) -> PollerView {
    run(p, h, clock, questions_left(p.stage) as nat)
}

/// Whether the poller ends its tick with the session `target`, at some time.
pub open spec fn ends_with(
    p: PollerView,
    h: spec_fn(Query<Seq<char>>) -> Reply<Seq<char>>,
    clock: spec_fn(Stage<Seq<char>>) -> nat,
    target: SessionView,
) -> bool {
    exists|t: nat| settled(p, h, clock) == #[trigger] delivery_started(target, t)
}

/// The session that a pass comes to when it goes on after deck `deck`.
pub open spec fn pass_after_deck(
    s: SessionView,
    h: spec_fn(Query<Seq<char>>) -> Reply<Seq<char>>,
    deck: u32,
) -> SessionView {
    if deck < DECKS {
        decks_seen(s, h, (deck + 1) as u32)
    } else {
        s
    }
}

/// The session that a pass comes to when it goes on after hotcue `cue` of deck `deck`.
pub open spec fn pass_after_cue(
    s: SessionView,
    h: spec_fn(Query<Seq<char>>) -> Reply<Seq<char>>,
    deck: u32,
    title: Seq<char>,
    cursor: i64,
    cue: u32,
) -> SessionView {
    pass_after_deck(
        if cue < CUES {
            cues_seen(s, h, deck, title, cursor, (cue + 1) as u32)
        } else {
            s
        },
        h,
        deck,
    )
}

proof fn lemma_run_enough(
    p: PollerView,
    h: spec_fn(Query<Seq<char>>) -> Reply<Seq<char>>,
    clock: spec_fn(Stage<Seq<char>>) -> nat,
    steps: nat,
)
    requires
        steps >= questions_left(p.stage),
    ensures
        run(p, h, clock, steps) == settled(p, h, clock),
    decreases steps,
{
    if questions_left(p.stage) > 0 {
        let query = action_of(p)->Ask_0;
        assert(action_of(p) is Ask);
        let next = answered(p, h(query), clock(p.stage));
        lemma_tick_ends(p, h(query), clock(p.stage));
        lemma_run_enough(next, h, clock, (steps - 1) as nat);
        lemma_run_enough(next, h, clock, (questions_left(p.stage) - 1) as nat);
    } else {
        assert(!(action_of(p) is Ask));
    }
}

proof fn lemma_settled_step(
    p: PollerView,
    h: spec_fn(Query<Seq<char>>) -> Reply<Seq<char>>,
    clock: spec_fn(Stage<Seq<char>>) -> nat,
)
    requires
        questions_left(p.stage) > 0,
    ensures
        action_of(p) is Ask,
        settled(p, h, clock) == settled(
            answered(p, h(action_of(p)->Ask_0), clock(p.stage)),
            h,
            clock,
        ),
{
    let query = action_of(p)->Ask_0;
    lemma_tick_ends(p, h(query), clock(p.stage));
    lemma_run_enough(
        answered(p, h(query), clock(p.stage)),
        h,
        clock,
        (questions_left(p.stage) - 1) as nat,
    );
}

proof fn lemma_after_deck(
    s: SessionView,
    h: spec_fn(Query<Seq<char>>) -> Reply<Seq<char>>,
    clock: spec_fn(Stage<Seq<char>>) -> nat,
    deck: u32,
    t: nat,
)
    ensures
        ends_with(after_deck(s, deck, t), h, clock, pass_after_deck(s, h, deck)),
    decreases decks_from(deck), 0int, 0int,
{
    if deck < DECKS {
        lemma_deck(s, h, clock, (deck + 1) as u32);
    } else {
        assert(settled(after_deck(s, deck, t), h, clock) == delivery_started(s, t));
    }
}

proof fn lemma_deck(
    s: SessionView,
    h: spec_fn(Query<Seq<char>>) -> Reply<Seq<char>>,
    clock: spec_fn(Stage<Seq<char>>) -> nat,
    deck: u32,
)
    ensures
        ends_with(
            PollerView { stage: Stage::Audible { deck }, session: s },
            h,
            clock,
            decks_seen(s, h, deck),
        ),
    decreases decks_from(deck), 2int, 0int,
{
    let asked = PollerView { stage: Stage::Audible { deck }, session: s };
    lemma_settled_step(asked, h, clock);
    let heard = answered(asked, h(action_of(asked)->Ask_0), clock(asked.stage));
    if !audible(text_or_empty(h(Query::Text(deck_command(deck as nat, "is_audible"@))))) {
        lemma_after_deck(s, h, clock, deck, clock(asked.stage));
    } else {
        lemma_settled_step(heard, h, clock);
        let titled = answered(heard, h(action_of(heard)->Ask_0), clock(heard.stage));
        let title = text_or_empty(h(Query::Text(deck_command(deck as nat, "get_title"@))));
        if title.len() == 0 {
            lemma_after_deck(s, h, clock, deck, clock(heard.stage));
        } else {
            lemma_settled_step(titled, h, clock);
            match number_of(h(Query::Number(deck_command(deck as nat, "get_position"@)))) {
                Some(cursor) => {
                    if cursor >= 0 {
                        lemma_cue(s, h, clock, deck, title, cursor, 1);
                    } else {
                        lemma_after_deck(s, h, clock, deck, clock(titled.stage));
                    }
                },
                None => {
                    lemma_after_deck(s, h, clock, deck, clock(titled.stage));
                },
            }
        }
    }
}

proof fn lemma_after_cue(
    s: SessionView,
    h: spec_fn(Query<Seq<char>>) -> Reply<Seq<char>>,
    clock: spec_fn(Stage<Seq<char>>) -> nat,
    deck: u32,
    title: Seq<char>,
    cursor: i64,
    cue: u32,
    t: nat,
)
    ensures
        ends_with(
            after_cue(s, deck, title, cursor, cue, t),
            h,
            clock,
            pass_after_cue(s, h, deck, title, cursor, cue),
        ),
    decreases decks_from(deck), 1int, 2 * cues_from(cue),
{
    if cue < CUES {
        lemma_cue(s, h, clock, deck, title, cursor, (cue + 1) as u32);
    } else {
        lemma_after_deck(s, h, clock, deck, t);
    }
}

proof fn lemma_cue(
    s: SessionView,
    h: spec_fn(Query<Seq<char>>) -> Reply<Seq<char>>,
    clock: spec_fn(Stage<Seq<char>>) -> nat,
    deck: u32,
    title: Seq<char>,
    cursor: i64,
    cue: u32,
)
    ensures
        ends_with(
            PollerView { stage: Stage::HasCue { deck, title, cursor, cue }, session: s },
            h,
            clock,
            pass_after_deck(cues_seen(s, h, deck, title, cursor, cue), h, deck),
        ),
    decreases decks_from(deck), 1int, 2 * cues_from(cue) + 1,
{
    let seen = cue_seen(s, h, deck, title, cursor, cue);
    assert(pass_after_deck(cues_seen(s, h, deck, title, cursor, cue), h, deck) == pass_after_cue(
        seen,
        h,
        deck,
        title,
        cursor,
        cue,
    ));
    let asked = PollerView { stage: Stage::HasCue { deck, title, cursor, cue }, session: s };
    lemma_settled_step(asked, h, clock);
    let set = answered(asked, h(action_of(asked)->Ask_0), clock(asked.stage));
    if !cue_set(text_or_empty(h(Query::Text(cue_command(deck as nat, "has_cue"@, cue as nat))))) {
        lemma_after_cue(seen, h, clock, deck, title, cursor, cue, clock(asked.stage));
    } else {
        lemma_settled_step(set, h, clock);
        let placed = answered(set, h(action_of(set)->Ask_0), clock(set.stage));
        match number_of(h(Query::Number(cue_command(deck as nat, "cue_pos"@, cue as nat)))) {
            None => {
                lemma_after_cue(seen, h, clock, deck, title, cursor, cue, clock(set.stage));
            },
            Some(marker) => {
                let sighting = Sighting {
                    key: CueKeyView { title, cue: cue as nat },
                    cursor: cursor as int,
                    marker: marker as int,
                };
                if fires(s.armed, sighting) {
                    lemma_settled_step(placed, h, clock);
                    lemma_after_cue(seen, h, clock, deck, title, cursor, cue, clock(placed.stage));
                } else {
                    lemma_after_cue(seen, h, clock, deck, title, cursor, cue, clock(set.stage));
                }
            },
        }
    }
}

/// A tick finds what a pass finds. Whatever the engine answers and whenever its answers
/// arrive, a poller that begins a tick in the session `s` and is run until it asks no
/// more ends as [`delivery_started`] says for the session [`tick_seen`], at some time:
/// the keys armed, the master title recorded and the finds are those of one pass over
/// the master deck, the decks in order and the hotcues of each in order.
pub proof fn lemma_tick_finds_what_a_pass_finds(
    s: SessionView,
    h: spec_fn(Query<Seq<char>>) -> Reply<Seq<char>>,
    clock: spec_fn(Stage<Seq<char>>) -> nat,
)
    ensures
        exists|t: nat|
            run(woke(PollerView { stage: Stage::Resting, session: s }, true, true), h, clock, 1550)
                == #[trigger] delivery_started(tick_seen(s, h), t),
{
    let begun = woke(PollerView { stage: Stage::Resting, session: s }, true, true);
    let fresh = begun.session;
    lemma_tick_ends(begun, Reply::Failed, 0);
    lemma_settled_step(begun, h, clock);
    let named = answered(begun, h(action_of(begun)->Ask_0), clock(begun.stage));
    match deck_named(text_or_empty(h(Query::Text(active_deck_command())))) {
        Some(deck) => {
            lemma_settled_step(named, h, clock);
            lemma_deck(master_seen(fresh, h), h, clock, 1);
        },
        None => {
            lemma_deck(fresh, h, clock, 1);
        },
    }
    assert(ends_with(begun, h, clock, tick_seen(s, h)));
}

} // verus!
