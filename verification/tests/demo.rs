use client_backend::demo::{
    late_bytes_in_file, late_bytes_written, messages_from_events, voter_of, DemoEvent,
    DemoGameEvent, DemoManager, DemoMessage, DemoPlayerInfo, DemoWatcher, FileEventKind, OpenDemo,
    PrintVotes, SessionState, UploadStep, VoteCastEvent, VoteOptionsEvent, VoteStartedEvent,
};
use client_backend::player::Players;
use client_backend::player_records::PlayerRecords;

fn options(voteidx: u32, count: u8) -> VoteOptionsEvent {
    VoteOptionsEvent {
        count,
        option_1: "Yes".to_string(),
        option_2: "No".to_string(),
        option_3: "Maybe".to_string(),
        option_4: "Four".to_string(),
        option_5: "Five".to_string(),
        voteidx,
    }
}

fn cast(voteidx: u32, vote_option: u8, entity_id: u32) -> VoteCastEvent {
    VoteCastEvent {
        vote_option,
        team: 2,
        entity_id,
        voteidx,
    }
}

#[test]
fn print_votes_lines() {
    let players = Players::new(PlayerRecords::new("p.json".to_string()), None);
    let mut pv = PrintVotes::new();
    let lines = pv.handle_message(
        &players,
        &DemoMessage {
            tick: 1,
            event: DemoEvent::VoteOptions(options(4, 2)),
        },
    );
    assert_eq!(lines, vec!["Vote options:", "\tYes", "\tNo"]);
    let lines = pv.handle_message(
        &players,
        &DemoMessage {
            tick: 2,
            event: DemoEvent::VoteCast(cast(4, 1, 3), None),
        },
    );
    assert_eq!(lines, vec!["No - Someone"]);
    let lines = pv.handle_message(
        &players,
        &DemoMessage {
            tick: 3,
            event: DemoEvent::VoteCast(cast(4, 2, 3), None),
        },
    );
    assert_eq!(lines, vec!["Invalid vote - Someone"]);
    let lines = pv.handle_message(
        &players,
        &DemoMessage {
            tick: 4,
            event: DemoEvent::VoteStarted(VoteStartedEvent {
                issue: "#TF_vote_kick_player_other".to_string(),
                param_1: "Lust".to_string(),
                team: 2,
                initiator: 7,
                voteidx: 5,
            }),
        },
    );
    assert_eq!(lines, vec!["#TF_vote_kick_player_other - called by 7"]);
    assert!(pv
        .handle_message(&players, &DemoMessage { tick: 5, event: DemoEvent::LastestTick })
        .is_empty());
}

#[test]
fn more_than_five_options_are_empty() {
    let players = Players::new(PlayerRecords::new("p.json".to_string()), None);
    let mut pv = PrintVotes::new();
    let lines = pv.handle_message(
        &players,
        &DemoMessage {
            tick: 1,
            event: DemoEvent::VoteOptions(options(1, 7)),
        },
    );
    assert_eq!(lines.len(), 8);
    assert_eq!(lines[5], "\tFive");
    assert_eq!(lines[6], "\t");
    assert_eq!(lines[7], "\t");
}

#[test]
fn votes_found_in_packets() {
    let players = vec![
        None,
        Some(DemoPlayerInfo {
            entity_id: 3,
            steam_id: "bad".to_string(),
        }),
        Some(DemoPlayerInfo {
            entity_id: 3,
            steam_id: "[U:1:111216987]".to_string(),
        }),
    ];
    assert_eq!(voter_of(&players, 3), Some(76561198071482715));
    assert_eq!(voter_of(&players, 4), None);
    let out = messages_from_events(
        77,
        vec![
            DemoGameEvent::Other,
            DemoGameEvent::VoteOptions(options(1, 2)),
            DemoGameEvent::VoteCast(cast(1, 0, 3)),
            DemoGameEvent::Other,
        ],
        &players,
    );
    assert_eq!(out.len(), 2);
    assert!(out.iter().all(|m| m.tick == 77));
    assert!(matches!(&out[0].event, DemoEvent::VoteOptions(o) if o.voteidx == 1));
    assert!(matches!(&out[1].event, DemoEvent::VoteCast(c, Some(76561198071482715)) if c.entity_id == 3));
}

#[test]
fn watcher_follows_demos() {
    let mut w = DemoWatcher::new();
    // Not a demo: read anyway on creation, but not followed.
    assert!(w.on_file_event(FileEventKind::Create, "tf/console.log", false));
    assert!(w.current_demo.is_none());
    assert!(w.demo_bytes(vec![1]).is_none());
    assert!(w.on_file_event(FileEventKind::Create, "tf/a.dem", true));
    assert_eq!(w.current_demo.as_deref(), Some("tf/a.dem"));
    assert!(w.on_length(10));
    w.on_bytes_read(10);
    assert!(!w.on_length(10));
    assert!(w.on_file_event(FileEventKind::ModifyData, "tf/a.dem", true));
    assert!(!w.on_file_event(FileEventKind::ModifyData, "tf/other.txt", false));
    assert!(!w.on_file_event(FileEventKind::Other, "tf/a.dem", true));
    // Shorter: a new recording over the old one.
    assert!(w.on_length(4));
    assert_eq!((w.current_id, w.offset), (1, 0));
    let b = w.demo_bytes(vec![9, 9]).expect("followed");
    assert_eq!((b.file_path.as_str(), b.id, b.bytes), ("tf/a.dem", 1, vec![9, 9]));
    // Another demo written to: followed from its start.
    assert!(w.on_file_event(FileEventKind::ModifyData, "tf/b.dem", true));
    assert_eq!(w.current_demo.as_deref(), Some("tf/b.dem"));
    assert_eq!(w.offset, 0);
    assert!(!DemoWatcher::poll_due(3));
    assert!(DemoWatcher::poll_due(4));
}

#[test]
fn late_bytes() {
    assert!(!late_bytes_in_file(1071));
    assert!(late_bytes_in_file(1072));
    assert!(!late_bytes_written(&[0u8; 16]));
    let mut b = [0u8; 16];
    b[7] = 1;
    assert!(late_bytes_written(&b));
    let mut b = [0u8; 16];
    b[8] = 1;
    assert!(!late_bytes_written(&b));
    assert!(!late_bytes_written(&[1u8; 8]));
}

#[test]
fn manager_plans_uploads() {
    let mut m = DemoManager::new();
    assert!(m.begin("a.dem", 0));
    assert!(!m.begin("a.dem", 0));
    assert!(m.should_parse(true));
    let plan = m.after_parse(false, true);
    assert!(!plan.open_session && plan.upload && plan.check_late_bytes);
    let plan = m.after_parse(true, true);
    assert!(plan.open_session);
    assert!(!m.should_parse(true));
    assert!(m.should_parse(false));
    let plan = m.after_parse(true, true);
    assert!(!plan.open_session);
    assert_eq!(m.upload_step(), UploadStep::Wait);
    m.on_session_opened(true);
    assert_eq!(m.upload_step(), UploadStep::Send);
    m.on_upload_failed();
    assert_eq!(m.upload_step(), UploadStep::Stop);
    m.on_late_bytes_sent();
    assert_eq!(m.session, SessionState::Closed);
    // Uploads off: nothing is sent.
    let plan = m.after_parse(true, false);
    assert!(!plan.open_session && !plan.upload && !plan.check_late_bytes);
    // Another recording in the same file starts over.
    assert!(m.begin("a.dem", 1));
    assert_eq!(m.previous_demos.len(), 1);
    assert!(!m.header_parsed);
    assert_eq!(m.session, SessionState::Uninit);
}

#[test]
fn manager_new_demo_and_path() {
    let mut m = DemoManager::new();
    assert_eq!(m.current_demo_path(), None);
    m.new_demo("tf/one.dem", 0);
    assert_eq!(m.current_demo_path(), Some("tf/one.dem"));
    assert!(m.previous_demos.is_empty());
    m.on_session_opened(true);
    m.new_demo("tf/two.dem", 0);
    assert_eq!(m.current_demo_path(), Some("tf/two.dem"));
    assert_eq!(m.previous_demos.len(), 1);
    assert_eq!(m.previous_demos[0].file_path, "tf/one.dem");
    assert_eq!(m.session, SessionState::Uninit);
}

fn padded(text: &str, len: usize) -> Vec<u8> {
    let mut out = text.as_bytes().to_vec();
    out.resize(len, 0);
    out
}

fn demo_header_bytes(server: &str, map: &str) -> Vec<u8> {
    let mut out = padded("HL2DEMO", 8);
    out.extend_from_slice(&3u32.to_le_bytes());
    out.extend_from_slice(&24u32.to_le_bytes());
    out.extend(padded(server, 260));
    out.extend(padded("player", 260));
    out.extend(padded(map, 260));
    out.extend(padded("tf", 260));
    out.extend_from_slice(&0f32.to_le_bytes());
    out.extend_from_slice(&0u32.to_le_bytes());
    out.extend_from_slice(&0u32.to_le_bytes());
    out.extend_from_slice(&0u32.to_le_bytes());
    out
}

#[test]
fn open_demo_reads_nothing_from_no_bytes() {
    let mut demo = OpenDemo::new("demo.dem".to_string(), 1);
    assert!(demo.append_bytes(&[]).is_empty());
    assert!(demo.header().is_none());
}

#[test]
fn open_demo_waits_for_a_whole_header() {
    let bytes = demo_header_bytes("127.0.0.1:27015", "cp_badlands");
    let mut demo = OpenDemo::new("demo.dem".to_string(), 1);
    assert!(demo.append_bytes(&bytes[..500]).is_empty());
    assert!(demo.header().is_none());
    assert!(demo.append_bytes(&bytes[500..]).is_empty());
    let header = demo.header().as_ref().expect("header read");
    assert_eq!(header.server, "127.0.0.1:27015");
    assert_eq!(header.map, "cp_badlands");
}

#[test]
fn open_demo_reads_the_header_in_one_chunk() {
    let bytes = demo_header_bytes("10.0.0.2:27016", "pl_upward");
    let mut demo = OpenDemo::new("demo.dem".to_string(), 2);
    let out = demo.append_bytes(&bytes);
    assert!(out.is_empty());
    let header = demo.header().as_ref().expect("header read");
    assert_eq!(header.server, "10.0.0.2:27016");
    assert_eq!(header.map, "pl_upward");
    assert!(demo.append_bytes(&[]).is_empty());
}
