use temper::pareto::{Candidate, ParetoFrontier, Scores};
use temper::score::Score;

fn score(x: f64) -> Score {
    Score { bits: x.to_bits() }
}

fn scores(list: &[(&str, f64)]) -> Scores {
    let mut t = Scores::new();
    for (name, x) in list {
        t.insert(name.to_string(), score(*x));
    }
    t
}

fn make_candidate(id: &str, list: &[(&str, f64)]) -> Candidate {
    let mut c = Candidate::new(
        id.to_string(),
        "spec".to_string(),
        "pm".to_string(),
        "Issue".to_string(),
        1,
        "2026-01-01T00:00:00Z".to_string(),
    );
    for (objective, x) in list {
        c.set_score(objective.to_string(), score(*x));
    }
    c
}

#[test]
fn test_dominance_basic() {
    let a = scores(&[("x", 0.9), ("y", 0.8)]);
    let b = scores(&[("x", 0.7), ("y", 0.6)]);

    assert!(ParetoFrontier::dominates(&a, &b));
    assert!(!ParetoFrontier::dominates(&b, &a));
}

#[test]
fn test_dominance_equal() {
    let a = scores(&[("x", 0.9), ("y", 0.8)]);
    let b = scores(&[("x", 0.9), ("y", 0.8)]);

    // Equal scores: neither dominates
    assert!(!ParetoFrontier::dominates(&a, &b));
    assert!(!ParetoFrontier::dominates(&b, &a));
}

#[test]
fn test_dominance_tradeoff() {
    let a = scores(&[("x", 0.9), ("y", 0.5)]);
    let b = scores(&[("x", 0.5), ("y", 0.9)]);

    // Trade-off: neither dominates
    assert!(!ParetoFrontier::dominates(&a, &b));
    assert!(!ParetoFrontier::dominates(&b, &a));
}

#[test]
fn test_dominance_empty_scores() {
    let empty = scores(&[]);
    let non_empty = scores(&[("x", 0.9)]);

    assert!(!ParetoFrontier::dominates(&empty, &non_empty));
    assert!(!ParetoFrontier::dominates(&non_empty, &empty));
}

#[test]
fn test_frontier_add_non_dominated() {
    let mut frontier = ParetoFrontier::new();

    let c1 = make_candidate("c1", &[("x", 0.9), ("y", 0.5)]);
    let c2 = make_candidate("c2", &[("x", 0.5), ("y", 0.9)]);

    assert!(frontier.try_add(c1));
    assert!(frontier.try_add(c2));
    assert_eq!(frontier.len(), 2);
}

#[test]
fn test_frontier_dominated_rejected() {
    let mut frontier = ParetoFrontier::new();

    let c1 = make_candidate("c1", &[("x", 0.9), ("y", 0.8)]);
    let c2 = make_candidate("c2", &[("x", 0.7), ("y", 0.6)]);

    assert!(frontier.try_add(c1));
    assert!(!frontier.try_add(c2)); // c2 dominated by c1
    assert_eq!(frontier.len(), 1);
}

#[test]
fn test_frontier_new_dominates_existing() {
    let mut frontier = ParetoFrontier::new();

    let c1 = make_candidate("c1", &[("x", 0.7), ("y", 0.6)]);
    let c2 = make_candidate("c2", &[("x", 0.9), ("y", 0.8)]);

    assert!(frontier.try_add(c1));
    assert!(frontier.try_add(c2)); // c2 dominates c1, c1 removed
    assert_eq!(frontier.len(), 1);
    assert!(frontier.members.contains_key("c2"));
}

#[test]
fn test_frontier_weakest_on() {
    let mut frontier = ParetoFrontier::new();

    let c1 = make_candidate("c1", &[("x", 0.9), ("y", 0.3)]);
    let c2 = make_candidate("c2", &[("x", 0.3), ("y", 0.9)]);

    frontier.try_add(c1);
    frontier.try_add(c2);

    let weakest_x = frontier.weakest_on("x").unwrap();
    assert_eq!(weakest_x.id, "c2");

    let weakest_y = frontier.weakest_on("y").unwrap();
    assert_eq!(weakest_y.id, "c1");
}

#[test]
fn a_missing_objective_counts_as_zero() {
    // "y" is only scored by b, so a stands at zero there.
    let a = scores(&[("x", 0.9)]);
    let b = scores(&[("x", 0.7), ("y", 0.1)]);
    assert!(!ParetoFrontier::dominates(&a, &b));
    assert!(!ParetoFrontier::dominates(&b, &a));

    // A negative score is below the zero of a missing one.
    let c = scores(&[("x", 0.7), ("y", -0.1)]);
    assert!(ParetoFrontier::dominates(&a, &c));
}

#[test]
fn dominance_is_transitive_and_asymmetric_on_numbers() {
    let a = scores(&[("x", 3.0), ("y", 2.0)]);
    let b = scores(&[("x", 2.0), ("y", 2.0)]);
    let c = scores(&[("x", 1.0), ("y", 1.5)]);
    assert!(ParetoFrontier::dominates(&a, &b));
    assert!(ParetoFrontier::dominates(&b, &c));
    assert!(ParetoFrontier::dominates(&a, &c));
    assert!(!ParetoFrontier::dominates(&b, &a));
    assert!(!ParetoFrontier::dominates(&a, &a));
}

#[test]
fn what_is_no_number_is_neither_better_nor_worse() {
    let a = scores(&[("x", f64::NAN), ("y", 1.0)]);
    let b = scores(&[("x", 0.5), ("y", 0.5)]);
    assert!(ParetoFrontier::dominates(&a, &b));
    assert!(!ParetoFrontier::dominates(&b, &a));
}

#[test]
fn members_come_by_name_and_none_dominates_another() {
    let mut frontier = ParetoFrontier::default();
    assert!(frontier.is_empty());
    assert!(frontier.weakest_on("x").is_none());
    for (id, x, y) in [
        ("d", 0.1, 0.9),
        ("b", 0.5, 0.5),
        ("c", 0.4, 0.4),
        ("a", 0.9, 0.1),
        ("e", 0.6, 0.6),
    ] {
        frontier.try_add(make_candidate(id, &[("x", x), ("y", y)]));
    }
    let members = frontier.members_sorted();
    let names: Vec<&str> = members.iter().map(|c| c.id.as_str()).collect();
    // "c" was refused, "b" left when "e" came.
    assert_eq!(names, vec!["a", "d", "e"]);
    for p in &members {
        for q in &members {
            assert!(!ParetoFrontier::dominates(&p.scores, &q.scores));
        }
    }
}

#[test]
fn a_candidate_takes_the_place_of_one_with_its_name() {
    let mut frontier = ParetoFrontier::new();
    assert!(frontier.try_add(make_candidate("c", &[("x", 0.9), ("y", 0.1)])));
    assert!(frontier.try_add(make_candidate("c", &[("x", 0.1), ("y", 0.9)])));
    assert_eq!(frontier.len(), 1);
    assert_eq!(
        *frontier.members.get("c").unwrap().scores.get("y").unwrap(),
        score(0.9)
    );
}

#[test]
fn the_first_of_equal_members_is_the_weakest() {
    let mut frontier = ParetoFrontier::new();
    frontier.try_add(make_candidate("b", &[("x", 0.5), ("y", 0.2)]));
    frontier.try_add(make_candidate("a", &[("x", 0.5), ("z", 0.2)]));
    assert_eq!(frontier.weakest_on("x").unwrap().id, "a");
    assert_eq!(frontier.weakest_on("y").unwrap().id, "b");
}

#[test]
fn the_order_in_which_candidates_come_does_not_matter() {
    let list: [(&str, [(&str, f64); 2]); 4] = [
        ("a", [("x", 0.1), ("y", 0.1)]),
        ("b", [("x", 0.9), ("y", 0.2)]),
        ("c", [("x", 0.2), ("y", 0.9)]),
        ("d", [("x", 0.8), ("y", 0.1)]),
    ];
    for order in [[0, 1, 2, 3], [3, 2, 1, 0], [1, 0, 3, 2], [2, 3, 0, 1]] {
        let mut f = ParetoFrontier::new();
        for i in order {
            f.try_add(make_candidate(list[i].0, &list[i].1));
        }
        let ids: Vec<&str> = f.members_sorted().iter().map(|c| c.id.as_str()).collect();
        assert_eq!(ids, vec!["b", "c"]);
    }
}
