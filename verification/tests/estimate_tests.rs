use scrum_poker::{sort_participants_by_estimate, Estimate, Participant};

#[test]
fn display_strings_are_canonical() {
    assert_eq!(Estimate::Unset.display_string(), "".to_string());
    assert_eq!(Estimate::QuestionMark.display_string(), "?".to_string());
    assert_eq!(Estimate::Coffe.display_string(), "☕️".to_string());
    assert_eq!(Estimate::Zero.display_string(), "0".to_string());
    assert_eq!(Estimate::Half.display_string(), "0.5".to_string());
    assert_eq!(Estimate::One.display_string(), "1".to_string());
    assert_eq!(Estimate::Two.display_string(), "2".to_string());
    assert_eq!(Estimate::Three.display_string(), "3".to_string());
    assert_eq!(Estimate::Five.display_string(), "5".to_string());
    assert_eq!(Estimate::Eight.display_string(), "8".to_string());
    assert_eq!(Estimate::Thirteen.display_string(), "13".to_string());
    assert_eq!(Estimate::Twenty.display_string(), "20".to_string());
    assert_eq!(Estimate::Fourty.display_string(), "40".to_string());
    assert_eq!(Estimate::Hundred.display_string(), "100".to_string());
}

#[test]
fn numeric_codes_count_up_from_the_sentinel() {
    let cards = [
        Estimate::Unset,
        Estimate::QuestionMark,
        Estimate::Coffe,
        Estimate::Zero,
        Estimate::Half,
        Estimate::One,
        Estimate::Two,
        Estimate::Three,
        Estimate::Five,
        Estimate::Eight,
        Estimate::Thirteen,
        Estimate::Twenty,
        Estimate::Fourty,
        Estimate::Hundred,
    ];
    let mut expected: i32 = -1;
    for card in cards {
        assert_eq!(card.to_i32(), expected);
        expected += 1;
    }
}

#[test]
fn sorting_orders_unset_first_then_by_card() {
    let roster = vec![
        Participant {
            session_id: 1,
            name: "Ann".to_string(),
            estimate: Estimate::Hundred,
            status: scrum_poker::ParticipantStatus::Online,
        },
        Participant {
            session_id: 2,
            name: "Ben".to_string(),
            estimate: Estimate::Unset,
            status: scrum_poker::ParticipantStatus::Online,
        },
        Participant {
            session_id: 3,
            name: "Cal".to_string(),
            estimate: Estimate::Three,
            status: scrum_poker::ParticipantStatus::Online,
        },
        Participant {
            session_id: 4,
            name: "Dee".to_string(),
            estimate: Estimate::QuestionMark,
            status: scrum_poker::ParticipantStatus::Online,
        },
    ];
    let sorted = sort_participants_by_estimate(&roster);
    let order: Vec<u128> = sorted.iter().map(|p| p.session_id).collect();
    assert_eq!(order, vec![2, 4, 3, 1]);
}
