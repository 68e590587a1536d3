use client_backend::console::{read_line, ConsoleOutput};
use client_backend::demo::{DemoEvent, DemoMessage, VoteCastEvent, VoteOptionsEvent, VoteStartedEvent};
use client_backend::io::regexes::{ChatMessage, DemoStop, PlayerKill};
use client_backend::player::Players;
use client_backend::player_records::PlayerRecords;
use client_backend::sse_events::{
    ConsoleEvent, SerializableConsoleOutput, SerializableVoteEventContent, SseBroadcastMessages,
    SseBroadcastVotes, SseEventBroadcaster, VoteCastEventWrapped, VoteEvent,
};

fn players_with(lines: &[&str]) -> Players {
    let mut p = Players::new(PlayerRecords::new("p.json".to_string()), None);
    for l in lines {
        if let ConsoleOutput::Status(s) = read_line(l).remove(0) {
            p.handle_status_line(s);
        }
    }
    p
}

#[test]
fn type_names() {
    let chat = ChatMessage {
        player_name: String::new(),
        steamid: None,
        message: String::new(),
    };
    assert_eq!(chat.get_type(), "ChatMessage");
    let kill = PlayerKill {
        killer_name: String::new(),
        killer_steamid: None,
        victim_name: String::new(),
        victim_steamid: None,
        weapon: String::new(),
        crit: false,
    };
    assert_eq!(kill.get_type(), "PlayerKill");
    assert_eq!(
        DemoStop {
            seconds: "1".to_string(),
            frames: 2
        }
        .get_type(),
        "DemoStop"
    );
    let w = VoteCastEventWrapped::from_vote_cast_event(
        VoteCastEvent {
            vote_option: 0,
            team: 0,
            entity_id: 0,
            voteidx: 0,
        },
        Some(5),
    );
    assert_eq!(w.event_name(), "VoteCast");
    assert_eq!(w.voter, Some(5));
    assert!(w.voter_name.is_none() && w.choice.is_none());
}

#[test]
fn console_events_get_ids_of_last_player_named() {
    let players = players_with(&[
        "#    301 \"Same\" [U:1:1001] 1:00 50 0 active",
        "#    302 \"Same\" [U:1:1002] 1:00 50 0 active",
    ]);
    let b = SseEventBroadcaster::new();
    let chat = read_line("Same :  hi").remove(0);
    match b.handle_console_message(&players, &chat) {
        Some(ConsoleEvent::Chat(c)) => assert_eq!(c.steamid.as_deref(), Some("76561197960266730")),
        _ => panic!("chat event"),
    }
    let kill = read_line("Same killed Other with bat.").remove(0);
    match SseBroadcastMessages.handle_message(&players, &kill) {
        Some(ConsoleEvent::Kill(k)) => {
            assert_eq!(k.killer_steamid.as_deref(), Some("76561197960266730"));
            assert_eq!(k.victim_steamid, None);
        }
        _ => panic!("kill event"),
    }
    let host = read_line("hostname: x").remove(0);
    assert!(b.handle_console_message(&players, &host).is_none());
}

#[test]
fn demo_vote_events() {
    let players = players_with(&["#    301 \"Voter\" [U:1:1001] 1:00 50 0 active"]);
    let voter = 76561197960266729;
    let mut b = SseEventBroadcaster::new();
    let opts = VoteOptionsEvent {
        count: 2,
        option_1: "Yes".to_string(),
        option_2: "No".to_string(),
        option_3: String::new(),
        option_4: String::new(),
        option_5: String::new(),
        voteidx: 9,
    };
    assert_eq!(opts.event_name(), "VoteStarted");
    match b.handle_demo_message(&players, &DemoMessage { tick: 1, event: DemoEvent::VoteOptions(opts) }) {
        Some(VoteEvent::Started(o)) => assert_eq!(o.voteidx, 9),
        _ => panic!("started"),
    }
    let c = VoteCastEvent {
        vote_option: 0,
        team: 2,
        entity_id: 1,
        voteidx: 9,
    };
    match b.handle_demo_message(&players, &DemoMessage { tick: 2, event: DemoEvent::VoteCast(c, Some(voter)) }) {
        Some(VoteEvent::Cast(w)) => {
            assert_eq!(w.voter, Some(voter));
            assert_eq!(w.voter_name.as_deref(), Some("Voter"));
            assert_eq!(w.choice.as_deref(), Some("Yes"));
        }
        _ => panic!("cast"),
    }
    let unknown = VoteCastEvent {
        vote_option: 1,
        team: 2,
        entity_id: 1,
        voteidx: 10,
    };
    match b.handle_demo_message(&players, &DemoMessage { tick: 3, event: DemoEvent::VoteCast(unknown, None) }) {
        Some(VoteEvent::Cast(w)) => {
            assert!(w.voter_name.is_none());
            assert!(w.choice.is_none());
        }
        _ => panic!("cast"),
    }
    let started = VoteStartedEvent {
        issue: "kick".to_string(),
        param_1: String::new(),
        team: 2,
        initiator: 1,
        voteidx: 11,
    };
    assert_eq!(started.event_name(), "VoteCreated");
    assert!(matches!(
        b.handle_demo_message(&players, &DemoMessage { tick: 4, event: DemoEvent::VoteStarted(started) }),
        Some(VoteEvent::Created(e)) if e.voteidx == 11
    ));
    assert!(b.handle_demo_message(&players, &DemoMessage { tick: 5, event: DemoEvent::LastestTick }).is_none());
}

#[test]
fn broadcast_votes_fill_defaults() {
    let players = players_with(&[]);
    let mut b = SseBroadcastVotes::new();
    let c = VoteCastEvent {
        vote_option: 0,
        team: 2,
        entity_id: 1,
        voteidx: 1,
    };
    match b.handle_message(&players, &DemoMessage { tick: 1, event: DemoEvent::VoteCast(c, None) }) {
        Some(VoteEvent::Cast(w)) => {
            assert_eq!(w.voter_name.as_deref(), Some("Someone"));
            assert_eq!(w.choice.as_deref(), Some("Invalid vote"));
        }
        _ => panic!("cast"),
    }
}
