use hillclimb::{Node, Population};

fn sigmoid(x: f32) -> f32 {
    1.0 / (1.0 + (-x).exp())
}

fn decode(node: &Node) -> Vec<f32> {
    node.values().into_iter().map(f32::from_bits).collect()
}

fn compare(node: &Node) -> f32 {
    let values = decode(node);
    sigmoid(values[1] - values[0])
}

/// Fitness lies between zero and one, where the bit patterns are ordered as
/// the numbers are.
fn rank(node: &Node) -> u32 {
    compare(node).to_bits()
}

fn perturb_with_range(range: f32) -> impl Fn(u32, u32) -> u32 {
    move |old: u32, amount: u32| {
        sigmoid(f32::from_bits(old) + (f32::from_bits(amount) - 0.5) * range).to_bits()
    }
}

fn node_of(first: f32, second: f32) -> Node {
    let mut node = Node::new(2);
    node.mutate_at(0, first.to_bits());
    node.mutate_at(1, second.to_bits());
    node
}

#[test]
fn fitness_lies_strictly_between_zero_and_one() {
    for &(first, second) in &[(0.0f32, 0.0f32), (1.0, 0.0), (0.0, 1.0), (0.5, 0.25), (-8.0, 8.0), (8.0, -8.0)] {
        let fitness = compare(&node_of(first, second));
        assert!(fitness > 0.0 && fitness < 1.0);
    }
}

#[test]
fn fitness_grows_with_the_second_value_and_falls_with_the_first() {
    let steps = [-2.0f32, -0.5, 0.0, 0.25, 0.5, 1.0, 3.0];
    for pair in steps.windows(2) {
        assert!(compare(&node_of(0.5, pair[0])) < compare(&node_of(0.5, pair[1])));
        assert!(compare(&node_of(pair[0], 0.5)) > compare(&node_of(pair[1], 0.5)));
        assert!(rank(&node_of(0.5, pair[0])) < rank(&node_of(0.5, pair[1])));
        assert!(rank(&node_of(pair[0], 0.5)) > rank(&node_of(pair[1], 0.5)));
    }
}

#[test]
fn fitness_of_a_fresh_node_is_one_half() {
    let population = Population::new(1, 2);
    assert_eq!(decode(population.node(0).unwrap()), vec![0.0, 0.0]);
    assert_eq!(compare(population.node(0).unwrap()), 0.5);
}

#[test]
fn one_generation_without_range_at_index_one() {
    let mut population = Population::new(1, 2);
    let draw = |_len: usize| (0.25f32.to_bits(), 1usize);
    population.advance_generation(&draw, &perturb_with_range(0.0), &rank);
    let node = population.node(0).unwrap();
    assert_eq!(decode(node), vec![0.0, 0.5]);
    assert_eq!(compare(node), sigmoid(0.5));
    assert!((compare(node) - 0.622).abs() < 0.001);
}

#[test]
fn two_generations_report_one_half_and_then_the_fitness_of_the_mutant() {
    let mut population = Population::new(1, 2);
    let draw = |_len: usize| (0.25f32.to_bits(), 1usize);
    let perturb = perturb_with_range(0.0);
    let mut reported = Vec::new();
    for _ in 1..=2 {
        reported.push(compare(population.node(0).unwrap()));
        population.advance_generation(&draw, &perturb, &rank);
    }
    assert_eq!(reported, vec![0.5, sigmoid(0.5)]);
    assert!((reported[1] - 0.622).abs() < 0.001);
    assert_eq!(decode(population.node(0).unwrap()), vec![0.0, sigmoid(0.5)]);
}

#[test]
fn a_mutant_at_index_zero_loses_to_the_zero_node() {
    let mut population = Population::new(1, 2);
    let draw = |_len: usize| (0.25f32.to_bits(), 0usize);
    let perturb = perturb_with_range(0.0);
    let mut mutant = population.node(0).unwrap().clone();
    mutant.mutate(&draw, &perturb);
    assert_eq!(decode(&mutant), vec![0.5, 0.0]);
    assert_eq!(compare(&mutant), sigmoid(-0.5));
    assert!((compare(&mutant) - 0.378).abs() < 0.001);
    population.advance_generation(&draw, &perturb, &rank);
    assert_eq!(decode(population.node(0).unwrap()), vec![0.0, 0.0]);
}

#[test]
fn a_mutation_with_range_moves_the_value_by_the_amount() {
    let mut node = Node::new(2);
    let draw = |_len: usize| (1.0f32.to_bits(), 0usize);
    node.mutate(&draw, &perturb_with_range(1.0));
    assert_eq!(decode(&node), vec![sigmoid(0.5), 0.0]);
    let low = |_len: usize| (0.0f32.to_bits(), 1usize);
    node.mutate(&low, &perturb_with_range(2.0));
    assert_eq!(decode(&node), vec![sigmoid(0.5), sigmoid(-1.0)]);
}

#[test]
fn the_fittest_of_ten_mutants_founds_the_next_generation() {
    // Mutant 9 gets the greatest amount among those mutated at index 1.
    let mut population = Population::new(10, 2);
    let calls = std::cell::Cell::new(0usize);
    let draw = |_len: usize| {
        calls.set(calls.get() + 1);
        ((calls.get() as f32 / 10.0).to_bits(), calls.get() % 2)
    };
    population.advance_generation(&draw, &perturb_with_range(1.0), &rank);
    let best = sigmoid((9.0f32 / 10.0 - 0.5) * 1.0);
    for i in 0..10 {
        assert_eq!(decode(population.node(i).unwrap()), vec![0.0, best]);
    }
}
