use std::collections::{HashMap, HashSet};

use client_backend::parties::Parties;
use client_backend::player::{Friend, FriendInfo};

#[test]
pub fn party_generation() {
    let s: Vec<u64> = [0, 1, 2, 3, 4, 5, 6].to_vec();

    let friends: HashMap<u64, Vec<u64>> = HashMap::from([
        (s[1], vec![s[2], s[3], s[4], s[5]]),
        (s[2], vec![s[1], s[4], s[6]]),
        (s[3], vec![s[1], s[5], s[6]]),
        (s[4], vec![s[1], s[2], s[5]]),
        (s[5], vec![s[1], s[3], s[4]]),
        (s[6], vec![s[2], s[3]]),
    ]);

    let friends: HashMap<u64, FriendInfo> = friends
        .into_iter()
        .map(|(s, fi)| {
            (
                s,
                FriendInfo {
                    public: None,
                    friends: fi
                        .into_iter()
                        .map(|s| Friend {
                            steamid: s,
                            friend_since: 0,
                        })
                        .collect(),
                },
            )
        })
        .collect();

    let mut parties = Parties::new();
    parties.find_parties(&friends, &s);

    println!("All parties:");
    for p in parties.parties() {
        let members: Vec<String> = p.iter().map(|s| format!("{}, ", s)).collect();
        println!("\t{}", members.concat());
    }
    println!();
    println!();

    let expected_parties: &[&[u64]] = &[
        &[s[1], s[2], s[4]],
        &[s[1], s[3], s[5]],
        &[s[1], s[4], s[5]],
        &[s[2], s[6]],
        &[s[3], s[6]],
    ];

    let expected_parties: Vec<HashSet<u64>> = expected_parties
        .iter()
        .map(|&l| l.iter().copied().collect::<HashSet<_>>())
        .collect();

    let found: Vec<HashSet<u64>> = parties
        .parties()
        .iter()
        .map(|p| p.iter().copied().collect::<HashSet<_>>())
        .collect();

    for p in &expected_parties {
        let members: Vec<String> = p.iter().map(|s| format!("{}, ", s)).collect();
        println!("Party: {}", members.concat());

        assert!(found.contains(p));
    }

    assert!(parties.parties().len() == expected_parties.len());
}

#[test]
fn parties_need_two_connected_friends() {
    let mut friends: HashMap<u64, FriendInfo> = HashMap::new();
    friends.insert(
        10,
        FriendInfo {
            public: Some(true),
            friends: vec![Friend {
                steamid: 11,
                friend_since: 0,
            }],
        },
    );
    let mut parties = Parties::new();
    // 11 is not connected: no party.
    parties.find_parties(&friends, &[10, 12]);
    assert!(parties.parties().is_empty());
    // Both connected: one party of two.
    parties.find_parties(&friends, &[10, 11, 12]);
    assert_eq!(parties.parties().len(), 1);
    let p: HashSet<u64> = parties.parties()[0].iter().copied().collect();
    assert_eq!(p, HashSet::from([10, 11]));
}
