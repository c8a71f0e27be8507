use procedural_texture_generator::coordinate::Coordinate;
use procedural_texture_generator::generator::{GenError, Generator};
use procedural_texture_generator::input_output_value::InputOutputValue;
use procedural_texture_generator::library::invert::Invert;
use procedural_texture_generator::library::mix::Mix;
use procedural_texture_generator::library::noise::Noise;
use procedural_texture_generator::library::remap::Remap;
use procedural_texture_generator::library::static_value::StaticValue;
use procedural_texture_generator::link::Link;
use procedural_texture_generator::node::{InputName, NamedValues, NodeError};
use procedural_texture_generator::node_kind::Node;
use procedural_texture_generator::pixel::Pixel;
use procedural_texture_generator::scalar::Scalar;

fn origin() -> Coordinate {
    Coordinate::new_x(Scalar::zero())
}

#[test]
fn always_returns_the_same_value() {
    let values_to_test = [
        InputOutputValue::Float(Scalar::one()),
        InputOutputValue::Nothing,
        InputOutputValue::Pixel(Pixel::new(255, 0, 0, 255)),
    ];

    for value_to_test in values_to_test {
        let node = StaticValue::new(value_to_test);
        assert_eq!(
            node.generate(&origin(), (0, 0), &NamedValues::new()).unwrap(),
            value_to_test
        );
    }
}

#[test]
fn just_works() {
    let mut generator = Generator::new();

    let id_mix = generator.add_node(Node::Mix(Mix::new()));
    let id_static_mix_factor = generator.add_node(Node::StaticValue(StaticValue::new(
        InputOutputValue::Float(Scalar::from_ratio(1, 2)),
    )));
    let id_static_color = generator.add_node(Node::StaticValue(StaticValue::new(
        InputOutputValue::Pixel(Pixel::new(255, 0, 100, 255)),
    )));
    let id_noise = generator.add_node(Node::Noise(Noise::new(1)));
    let id_output = generator.output_node();

    generator.add_edge_named(Link::new(id_static_mix_factor, id_mix), "value");
    generator.add_edge_named(Link::new(id_static_color, id_mix), "input1");
    generator.add_edge_named(Link::new(id_noise, id_mix), "input2");
    generator.add_edge(Link::new(id_mix, id_output));

    let _ = generator.generate(100, 100).unwrap();
}

#[test]
fn generate_is_deterministic() {
    let mut g = Generator::new();
    let noise = g.add_node(Node::Noise(Noise::new(7)));
    let inv = g.add_node(Node::Invert(Invert::new()));
    g.add_edge(Link::new(noise, inv));
    g.add_edge(Link::new(inv, g.output_node()));

    let first = g.generate(16, 9).unwrap().as_data_flatten();
    let second = g.generate(16, 9).unwrap().as_data_flatten();
    assert_eq!(first, second);
}

#[test]
fn lattice_conversion_is_total_and_pixels_round_trip() {
    let p = Pixel::new(12, 34, 56, 78);
    assert_eq!(InputOutputValue::Pixel(p).to_common_ground(), p);
    assert_eq!(
        InputOutputValue::Nothing.to_common_ground(),
        Pixel::new(0, 0, 0, 0)
    );
    // A bare scalar promotes to gray with full alpha.
    assert_eq!(
        InputOutputValue::Float(Scalar::one()).to_common_ground(),
        Pixel::new(255, 255, 255, 255)
    );
    // 3-component bytes imply full alpha.
    assert_eq!(
        InputOutputValue::U8X3Array(1, 2, 3).to_common_ground(),
        Pixel::new(1, 2, 3, 255)
    );
}

#[test]
fn float_channels_truncate_not_round() {
    let v = InputOutputValue::F64X4Array(
        Scalar::one(),
        Scalar::from_ratio(1, 2),
        Scalar::zero(),
        Scalar::one(),
    );
    // 0.5 * 255 = 127.5 truncates to 127, never 128.
    assert_eq!(v.to_common_ground(), Pixel::new(255, 127, 0, 255));
}

#[test]
fn constant_node_paints_uniform_images() {
    for (w, h) in [(1u32, 1u32), (3, 2), (10, 10)] {
        let mut g = Generator::new();
        let c = g.add_node(Node::StaticValue(StaticValue::new(
            InputOutputValue::Pixel(Pixel::new(255, 0, 0, 255)),
        )));
        g.add_edge(Link::new(c, g.output_node()));
        let bytes = g.generate(w, h).unwrap().as_data_flatten();
        assert_eq!(bytes.len(), (4 * w * h) as usize);
        for px in bytes.chunks(4) {
            assert_eq!(px, &[255, 0, 0, 255]);
        }
    }
}

#[test]
fn blend_follows_the_mix_rule() {
    let mix = Mix::new();
    let mut inputs = NamedValues::new();
    inputs.insert(
        InputName::Named(String::from("input1")),
        InputOutputValue::Pixel(Pixel::new(0, 0, 0, 255)),
    );
    inputs.insert(
        InputName::Named(String::from("input2")),
        InputOutputValue::Pixel(Pixel::new(255, 255, 255, 255)),
    );
    inputs.insert(
        InputName::Named(String::from("value")),
        InputOutputValue::Float(Scalar::from_ratio(1, 4)),
    );
    // 0*0.25 + 255*0.75 = 191.25, truncated to 191.
    assert_eq!(
        mix.generate(&origin(), (1, 1), &inputs).unwrap(),
        InputOutputValue::Pixel(Pixel::new(191, 191, 191, 255))
    );
}

#[test]
fn remap_clamps_outside_the_covered_range() {
    let steps = vec![
        (InputOutputValue::Pixel(Pixel::new(0, 0, 0, 255)), Scalar::from_ratio(1, 5)),
        (
            InputOutputValue::Pixel(Pixel::new(255, 255, 255, 255)),
            Scalar::from_ratio(4, 5),
        ),
    ];
    let remap = Remap::new(steps);

    // Average intensity exactly 0.0: clamped below the range, first step.
    let mut low = NamedValues::new();
    low.insert(
        InputName::Named(String::from("in")),
        InputOutputValue::Pixel(Pixel::new(0, 0, 0, 255)),
    );
    assert_eq!(
        remap.generate(&origin(), (1, 1), &low).unwrap(),
        InputOutputValue::Pixel(Pixel::new(0, 0, 0, 255))
    );

    // Average intensity 1.0: clamped above the range, last step.
    let mut high = NamedValues::new();
    high.insert(
        InputName::Named(String::from("in")),
        InputOutputValue::Pixel(Pixel::new(255, 255, 255, 255)),
    );
    assert_eq!(
        remap.generate(&origin(), (1, 1), &high).unwrap(),
        InputOutputValue::Pixel(Pixel::new(255, 255, 255, 255))
    );
}

#[test]
fn named_inputs_never_cross() {
    // With factor 0 the blend returns input2 exactly, so swapping which
    // link carries which name must change the result.
    let red = InputOutputValue::Pixel(Pixel::new(255, 0, 0, 255));
    let blue = InputOutputValue::Pixel(Pixel::new(0, 0, 255, 255));

    let render = |first: InputOutputValue, second: InputOutputValue| {
        let mut g = Generator::new();
        let mix = g.add_node(Node::Mix(Mix::new()));
        let a = g.add_node(Node::StaticValue(StaticValue::new(first)));
        let b = g.add_node(Node::StaticValue(StaticValue::new(second)));
        let t = g.add_node(Node::StaticValue(StaticValue::new(
            InputOutputValue::Float(Scalar::zero()),
        )));
        g.add_edge_named(Link::new(a, mix), "input1");
        g.add_edge_named(Link::new(b, mix), "input2");
        g.add_edge_named(Link::new(t, mix), "value");
        g.add_edge(Link::new(mix, g.output_node()));
        g.generate(2, 2).unwrap().as_data_flatten()
    };

    let straight = render(red, blue);
    let swapped = render(blue, red);
    assert_eq!(&straight[0..4], &[0, 0, 255, 255]);
    assert_eq!(&swapped[0..4], &[255, 0, 0, 255]);
    assert_ne!(straight, swapped);
}

#[test]
fn dead_nodes_change_nothing_even_malformed() {
    let mut g = Generator::new();
    let c = g.add_node(Node::StaticValue(StaticValue::new(
        InputOutputValue::Pixel(Pixel::new(9, 8, 7, 255)),
    )));
    g.add_edge(Link::new(c, g.output_node()));
    let reference = g.generate(4, 4).unwrap().as_data_flatten();

    // A blend node with no inputs at all is malformed, but unreachable
    // from the sink: it must neither fail nor change a byte.
    let dead = g.add_node(Node::Mix(Mix::new()));
    let noise = g.add_node(Node::Noise(Noise::new(3)));
    g.add_edge(Link::new(noise, dead));
    let with_dead = g.generate(4, 4).unwrap().as_data_flatten();
    assert_eq!(reference, with_dead);
}

#[test]
fn unfed_sink_is_reported() {
    let g = Generator::new();
    assert_eq!(g.generate(4, 4).unwrap_err(), GenError::NoOutputInput);
}

#[test]
fn zero_sized_images_are_rejected() {
    let mut g = Generator::new();
    let c = g.add_node(Node::StaticValue(StaticValue::new(InputOutputValue::Nothing)));
    g.add_edge(Link::new(c, g.output_node()));
    assert_eq!(g.generate(0, 5).unwrap_err(), GenError::InvalidDimensions);
    assert_eq!(g.generate(5, 0).unwrap_err(), GenError::InvalidDimensions);
}

#[test]
fn cycles_feeding_the_sink_are_reported() {
    let mut g = Generator::new();
    let a = g.add_node(Node::Invert(Invert::new()));
    let b = g.add_node(Node::Invert(Invert::new()));
    g.add_edge(Link::new(a, b));
    g.add_edge(Link::new(b, a));
    g.add_edge(Link::new(b, g.output_node()));
    assert_eq!(g.generate(2, 2).unwrap_err(), GenError::CycleDetected);
}

#[test]
fn arity_violations_name_the_node_and_the_fault() {
    let mut g = Generator::new();
    let inv = g.add_node(Node::Invert(Invert::new()));
    g.add_edge(Link::new(inv, g.output_node()));
    match g.generate(2, 2).unwrap_err() {
        GenError::Node { node, error } => {
            assert_eq!(node, inv);
            assert_eq!(error, NodeError::WrongInputCount { expected: 1, got: 0 });
        }
        other => panic!("unexpected error {:?}", other),
    }
}

#[test]
fn missing_named_operands_are_named() {
    let mut g = Generator::new();
    let mix = g.add_node(Node::Mix(Mix::new()));
    let a = g.add_node(Node::StaticValue(StaticValue::new(InputOutputValue::Nothing)));
    let b = g.add_node(Node::StaticValue(StaticValue::new(InputOutputValue::Nothing)));
    let t = g.add_node(Node::StaticValue(StaticValue::new(InputOutputValue::Nothing)));
    g.add_edge_named(Link::new(a, mix), "input1");
    g.add_edge_named(Link::new(b, mix), "inputX");
    g.add_edge_named(Link::new(t, mix), "value");
    g.add_edge(Link::new(mix, g.output_node()));
    match g.generate(2, 2).unwrap_err() {
        GenError::Node { node, error } => {
            assert_eq!(node, mix);
            assert_eq!(error, NodeError::MissingInput(String::from("input2")));
        }
        other => panic!("unexpected error {:?}", other),
    }
}

#[test]
fn same_name_last_link_wins() {
    let mut g = Generator::new();
    let inv = g.add_node(Node::Invert(Invert::new()));
    let a = g.add_node(Node::StaticValue(StaticValue::new(
        InputOutputValue::Pixel(Pixel::new(255, 255, 255, 255)),
    )));
    let b = g.add_node(Node::StaticValue(StaticValue::new(
        InputOutputValue::Pixel(Pixel::new(0, 0, 0, 255)),
    )));
    g.add_edge_named(Link::new(a, inv), "in");
    g.add_edge_named(Link::new(b, inv), "in");
    g.add_edge(Link::new(inv, g.output_node()));
    // The later link (black) wins; inversion yields white with zero alpha
    // channel inverted from 255 to 0.
    let bytes = g.generate(1, 1).unwrap().as_data_flatten();
    assert_eq!(&bytes[0..4], &[255, 255, 255, 0]);
}

#[test]
fn connected_nodes_lists_exactly_the_reachable() {
    let mut g = Generator::new();
    let a = g.add_node(Node::Invert(Invert::new()));
    let b = g.add_node(Node::StaticValue(StaticValue::new(InputOutputValue::Nothing)));
    let dead = g.add_node(Node::Noise(Noise::new(1)));
    g.add_edge(Link::new(b, a));
    g.add_edge(Link::new(a, g.output_node()));
    let _ = dead;

    let mut connected = g.connected_nodes_to_output();
    assert_eq!(connected.last(), Some(&0));
    connected.sort();
    assert_eq!(connected, vec![0, a, b]);
}
