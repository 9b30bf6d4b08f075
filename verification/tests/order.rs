use trails::agent::{Agent, Vec2, Vec4};
use trails::order::sort_by_morton;

fn tagged(x: f32, y: f32, tag: u32) -> Agent {
    Agent {
        color: Vec4 { x: 0, y: 0, z: 0, w: 1.0f32.to_bits() },
        position: Vec2 { x: x.to_bits(), y: y.to_bits() },
        heading: tag,
    }
}

fn tags(agents: &Vec<Agent>) -> Vec<u32> {
    agents.iter().map(|a| a.heading).collect()
}

fn scattered(count: u32, side: f32, seed: u32) -> Vec<Agent> {
    let mut state: u32 = seed;
    let mut agents: Vec<Agent> = Vec::new();
    let mut n: u32 = 0;
    while n < count {
        state = state.wrapping_mul(1664525).wrapping_add(1013904223);
        let x: f32 = (state >> 8) as f32 / 16_777_216.0 * side;
        state = state.wrapping_mul(1664525).wrapping_add(1013904223);
        let y: f32 = (state >> 8) as f32 / 16_777_216.0 * side;
        agents.push(tagged(x, y, n));
        n += 1;
    }
    agents
}

#[test]
fn sorting_nothing_gives_nothing() {
    let sorted: Vec<Agent> = sort_by_morton(Vec::new());
    assert!(sorted.is_empty());
}

#[test]
fn sorting_one_agent_gives_that_agent() {
    let only: Agent = tagged(3.5, 9.25, 77);
    assert_eq!(sort_by_morton(vec![only]), vec![only]);
}

#[test]
fn agents_come_out_in_ascending_order_of_code() {
    // Codes: (1,1) 3, (0,0) 0, (0,1) 2, (1,0) 1, (2,0) 4.
    let drawn: Vec<Agent> = vec![
        tagged(1.5, 1.5, 0),
        tagged(0.5, 0.5, 1),
        tagged(0.5, 1.5, 2),
        tagged(1.5, 0.5, 3),
        tagged(2.5, 0.5, 4),
    ];
    let sorted: Vec<Agent> = sort_by_morton(drawn);
    assert_eq!(tags(&sorted), vec![1, 3, 2, 0, 4]);
}

#[test]
fn agents_of_one_texel_keep_their_order() {
    let drawn: Vec<Agent> = vec![
        tagged(5.1, 5.1, 0),
        tagged(0.1, 0.9, 1),
        tagged(5.9, 5.2, 2),
        tagged(0.7, 0.2, 3),
        tagged(5.5, 5.5, 4),
        tagged(0.0, 0.0, 5),
    ];
    let sorted: Vec<Agent> = sort_by_morton(drawn);
    assert_eq!(tags(&sorted), vec![1, 3, 5, 0, 2, 4]);
}

#[test]
fn sorted_and_reversed_input_give_the_same_order_of_codes() {
    let mut ascending: Vec<Agent> = Vec::new();
    let mut descending: Vec<Agent> = Vec::new();
    let mut i: u32 = 0;
    while i < 64 {
        ascending.push(tagged(i as f32, 0.0, i));
        descending.push(tagged((63 - i) as f32, 0.0, 63 - i));
        i += 1;
    }
    let expected: Vec<u32> = (0..64).collect();
    assert_eq!(tags(&sort_by_morton(ascending)), expected);
    assert_eq!(tags(&sort_by_morton(descending)), expected);
}

#[test]
fn a_lower_code_stands_before_a_higher_one() {
    let sorted: Vec<Agent> = sort_by_morton(scattered(500, 64.0, 0xFEED_BEEF));
    assert_eq!(sorted.len(), 500);
    let mut i: usize = 0;
    while i < sorted.len() {
        let mut j: usize = 0;
        while j < sorted.len() {
            if sorted[i].morton_pos() < sorted[j].morton_pos() {
                assert!(i < j);
            }
            j += 1;
        }
        i += 1;
    }
}

#[test]
fn sorting_agrees_with_a_stable_sort_by_key() {
    let sizes: [u32; 8] = [0, 1, 2, 3, 7, 64, 1000, 4097];
    for size in sizes.iter() {
        // A side of 8 puts many agents on every texel, so ties abound.
        let drawn: Vec<Agent> = scattered(*size, 8.0, 0xABCD_0000 + *size);
        let mut expected: Vec<Agent> = drawn.clone();
        expected.sort_by_key(|a| a.morton_pos());
        assert_eq!(sort_by_morton(drawn), expected);
    }
}

#[test]
fn sorting_keeps_every_agent_once() {
    let drawn: Vec<Agent> = scattered(2000, 300.0, 0x0DDB_A11);
    let sorted: Vec<Agent> = sort_by_morton(drawn.clone());
    assert_eq!(sorted.len(), drawn.len());
    let mut seen: Vec<bool> = vec![false; drawn.len()];
    for agent in sorted.iter() {
        let tag: usize = agent.heading as usize;
        assert!(!seen[tag]);
        seen[tag] = true;
        assert_eq!(*agent, drawn[tag]);
    }
}

#[test]
fn sorting_twice_changes_nothing_more() {
    let once: Vec<Agent> = sort_by_morton(scattered(777, 32.0, 0x5EED));
    let twice: Vec<Agent> = sort_by_morton(once.clone());
    assert_eq!(once, twice);
}
