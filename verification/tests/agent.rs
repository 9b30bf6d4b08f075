use trails::agent::{Agent, Vec2, Vec4};

fn agent_at(x: f32, y: f32) -> Agent {
    Agent {
        color: Vec4 { x: 0, y: 0, z: 0, w: 1.0f32.to_bits() },
        position: Vec2 { x: x.to_bits(), y: y.to_bits() },
        heading: 0,
    }
}

fn morton_on_numbers(px: f32, py: f32) -> u32 {
    let b: [u32; 4] = [0x55555555, 0x33333333, 0x0F0F0F0F, 0x00FF00FF];
    let s: [u32; 4] = [1, 2, 4, 8];
    let mut x: u32 = px.floor() as u32;
    let mut y: u32 = py.floor() as u32;
    x = (x | (x << s[3])) & b[3];
    x = (x | (x << s[2])) & b[2];
    x = (x | (x << s[1])) & b[1];
    x = (x | (x << s[0])) & b[0];
    y = (y | (y << s[3])) & b[3];
    y = (y | (y << s[2])) & b[2];
    y = (y | (y << s[1])) & b[1];
    y = (y | (y << s[0])) & b[0];
    x | (y << 1)
}

#[test]
fn morton_pos_of_chosen_positions() {
    assert_eq!(agent_at(0.0, 0.0).morton_pos(), 0);
    assert_eq!(agent_at(0.9, 0.9).morton_pos(), 0);
    assert_eq!(agent_at(1.0, 0.0).morton_pos(), 1);
    assert_eq!(agent_at(0.0, 1.0).morton_pos(), 2);
    assert_eq!(agent_at(1.5, 1.5).morton_pos(), 3);
    assert_eq!(agent_at(3.25, 5.75).morton_pos(), 39);
    assert_eq!(agent_at(2.0, 2.0).morton_pos(), 12);
    assert_eq!(agent_at(128.0, 128.0).morton_pos(), 0xC000);
    assert_eq!(agent_at(255.99, 255.99).morton_pos(), 0xFFFF);
}

#[test]
fn morton_pos_of_positions_off_the_field() {
    assert_eq!(agent_at(-1.0, -1.0).morton_pos(), 0);
    assert_eq!(agent_at(-0.5, 3.0).morton_pos(), morton_of_cell(0, 3));
    assert_eq!(agent_at(f32::NAN, 1.0).morton_pos(), 2);
    assert_eq!(agent_at(1.0, f32::NAN).morton_pos(), 1);
    assert_eq!(
        agent_at(f32::INFINITY, 0.0).morton_pos(),
        morton_on_numbers(f32::INFINITY, 0.0)
    );
    assert_eq!(agent_at(70000.0, 0.0).morton_pos(), morton_on_numbers(70000.0, 0.0));
}

fn morton_of_cell(x: u32, y: u32) -> u32 {
    trails::morton::morton_code(x, y)
}

#[test]
fn morton_pos_ignores_colour_and_heading() {
    let plain: Agent = agent_at(17.5, 42.25);
    let painted: Agent = Agent {
        color: Vec4 { x: 12.0f32.to_bits(), y: 6.0f32.to_bits(), z: 3.0f32.to_bits(), w: 0 },
        position: plain.position,
        heading: 1.25f32.to_bits(),
    };
    assert_eq!(plain.morton_pos(), painted.morton_pos());
    assert_eq!(plain.morton_pos(), morton_of_cell(17, 42));
}

#[test]
fn morton_pos_agrees_with_the_computation_on_numbers() {
    let mut state: u32 = 0x2545_F491;
    let mut n: u32 = 0;
    while n < 50_000 {
        state = state.wrapping_mul(1664525).wrapping_add(1013904223);
        let x: f32 = (state >> 8) as f32 / 16_777_216.0 * 4096.0 - 64.0;
        state = state.wrapping_mul(1664525).wrapping_add(1013904223);
        let y: f32 = (state >> 8) as f32 / 16_777_216.0 * 100_000.0;
        assert_eq!(agent_at(x, y).morton_pos(), morton_on_numbers(x, y));
        n += 1;
    }
}

#[test]
fn morton_pos_agrees_with_the_computation_on_any_words() {
    let mut state: u32 = 0x1357_9BDF;
    let mut n: u32 = 0;
    while n < 50_000 {
        state = state.wrapping_mul(1664525).wrapping_add(1013904223);
        let x: f32 = f32::from_bits(state);
        state = state.wrapping_mul(1664525).wrapping_add(1013904223);
        let y: f32 = f32::from_bits(state);
        assert_eq!(agent_at(x, y).morton_pos(), morton_on_numbers(x, y));
        n += 1;
    }
}

#[test]
fn default_records_are_all_zero() {
    let a: Agent = Agent::default();
    assert_eq!(a.color, Vec4 { x: 0, y: 0, z: 0, w: 0 });
    assert_eq!(a.position, Vec2 { x: 0, y: 0 });
    assert_eq!(a.heading, 0);
    assert_eq!(Vec4::default(), Vec4 { x: 0, y: 0, z: 0, w: 0 });
    assert_eq!(Vec2::default(), Vec2 { x: 0, y: 0 });
    assert_eq!(a.morton_pos(), 0);
}
