use mji_agenda::{rank_insert, Agenda, HandicraftName};

fn worth(total_value: usize, mark: HandicraftName) -> Agenda {
    Agenda { handicrafts: vec![mark], values: vec![total_value], total_value }
}

#[test]
fn first_agenda_goes_to_the_front() {
    let mut ranked = Vec::new();
    assert_eq!(rank_insert(&mut ranked, worth(5, HandicraftName::IsleworksRope)), 0);
    assert_eq!(ranked.len(), 1);
}

#[test]
fn agendas_come_out_most_valuable_first() {
    let mut ranked = Vec::new();
    for total in [300, 100, 500, 200, 400] {
        rank_insert(&mut ranked, worth(total, HandicraftName::IsleworksRope));
    }
    let totals: Vec<usize> = ranked.iter().map(|agenda| agenda.total_value).collect();
    assert_eq!(totals, vec![500, 400, 300, 200, 100]);
}

#[test]
fn insert_tells_where_the_agenda_went() {
    let mut ranked = Vec::new();
    assert_eq!(rank_insert(&mut ranked, worth(10, HandicraftName::IsleworksRope)), 0);
    assert_eq!(rank_insert(&mut ranked, worth(30, HandicraftName::IsleworksRope)), 0);
    assert_eq!(rank_insert(&mut ranked, worth(20, HandicraftName::IsleworksRope)), 1);
    assert_eq!(rank_insert(&mut ranked, worth(5, HandicraftName::IsleworksRope)), 3);
}

#[test]
fn equal_worth_keeps_the_order_of_arrival() {
    let mut ranked = Vec::new();
    rank_insert(&mut ranked, worth(7, HandicraftName::IsleworksRope));
    rank_insert(&mut ranked, worth(9, HandicraftName::IsleworksHorn));
    assert_eq!(rank_insert(&mut ranked, worth(7, HandicraftName::IsleworksBed)), 2);
    assert_eq!(rank_insert(&mut ranked, worth(9, HandicraftName::IsleworksHora)), 1);
    let marks: Vec<HandicraftName> = ranked.iter().map(|agenda| agenda.handicrafts[0]).collect();
    assert_eq!(
        marks,
        vec![
            HandicraftName::IsleworksHorn,
            HandicraftName::IsleworksHora,
            HandicraftName::IsleworksRope,
            HandicraftName::IsleworksBed,
        ]
    );
}

#[test]
fn nothing_is_lost_in_the_ranking() {
    let mut ranked = Vec::new();
    let totals = [3usize, 1, 4, 1, 5, 9, 2, 6, 5, 3];
    for total in totals {
        rank_insert(&mut ranked, worth(total, HandicraftName::IsleworksRope));
    }
    let mut expected = totals.to_vec();
    expected.sort();
    expected.reverse();
    let ranked_totals: Vec<usize> = ranked.iter().map(|agenda| agenda.total_value).collect();
    assert_eq!(ranked_totals, expected);
}

#[test]
fn agendas_compare_by_worth_alone() {
    let cheap = worth(1, HandicraftName::IsleworksRope);
    let dear = worth(2, HandicraftName::IsleworksBed);
    let also_dear = worth(2, HandicraftName::IsleworksHorn);
    assert!(cheap < dear);
    assert!(dear > cheap);
    assert!(dear <= also_dear);
    assert!(dear >= also_dear);
    assert_eq!(dear.partial_cmp(&also_dear), Some(std::cmp::Ordering::Equal));
    assert_eq!(cheap.partial_cmp(&dear), Some(std::cmp::Ordering::Less));
    assert_eq!(dear.partial_cmp(&cheap), Some(std::cmp::Ordering::Greater));
    assert_ne!(dear, also_dear);
}
