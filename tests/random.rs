use neural_network::{network_draw_count, LayerTopology, Network, Neuron, TopologyError};
use rand::{Rng, SeedableRng};
use rand_chacha::ChaCha8Rng;

fn relative_eq(a: f32, b: f32) -> bool {
    let diff = (a - b).abs();
    diff <= f32::EPSILON || diff <= f32::EPSILON * a.abs().max(b.abs())
}

fn draws(rng: &mut ChaCha8Rng, count: usize) -> Vec<f32> {
    (0..count).map(|_| rng.gen_range(-1.0..=1.0)).collect()
}

fn topology(widths: &[usize]) -> Vec<LayerTopology> {
    widths.iter().map(|&neurons| LayerTopology { neurons }).collect()
}

fn neuron_output(neuron: &Neuron<f32>, inputs: &Vec<f32>) -> f32 {
    let output = inputs
        .iter()
        .zip(&neuron.weights)
        .map(|(input, weight)| input * weight)
        .sum::<f32>();
    (neuron.bias + output).max(0.0)
}

#[test]
fn neuron_bias() {
    let mut rng = ChaCha8Rng::from_seed(Default::default());
    let neuron = Neuron::from_draws(&draws(&mut rng, 5), 0, 4);

    assert!(relative_eq(neuron.bias, -0.6255188));
}

#[test]
fn neuron_weights() {
    let mut rng = ChaCha8Rng::from_seed(Default::default());
    let neuron = Neuron::from_draws(&draws(&mut rng, 5), 0, 4);
    let expected = [0.67383957, 0.8181262, 0.26284897, 0.5238807];
    assert_eq!(neuron.weights.len(), expected.len());
    for (w, e) in neuron.weights.iter().zip(expected) {
        assert!(relative_eq(*w, e));
    }
}

#[test]
fn draw_count_counts_bias_and_weights() {
    assert_eq!(network_draw_count(&topology(&[4, 1])), Ok(5));
    assert_eq!(network_draw_count(&topology(&[3, 2, 1])), Ok(11));
    assert_eq!(network_draw_count(&topology(&[0, 0])), Ok(0));
    assert_eq!(network_draw_count(&topology(&[usize::MAX, 0])), Ok(0));
}

#[test]
fn draw_count_rejects_short_topologies() {
    assert_eq!(network_draw_count(&topology(&[])), Err(TopologyError::TooFewLayers));
    assert_eq!(network_draw_count(&topology(&[3])), Err(TopologyError::TooFewLayers));
}

#[test]
fn draw_count_rejects_oversized_topologies() {
    assert_eq!(network_draw_count(&topology(&[usize::MAX, 1])), Err(TopologyError::TooLarge));
    assert_eq!(network_draw_count(&topology(&[2, usize::MAX])), Err(TopologyError::TooLarge));
    assert_eq!(
        network_draw_count(&topology(&[1, usize::MAX / 2, 1])),
        Err(TopologyError::TooLarge)
    );
}

#[test]
fn network_takes_draws_layer_by_layer_bias_first() {
    let top = topology(&[2, 2, 1]);
    let count = network_draw_count(&top).unwrap();
    assert_eq!(count, 9);
    let stream: Vec<u32> = (0..count as u32).collect();
    let network = Network::from_draws(&top, &stream);
    let layers = network.layers();
    assert_eq!(layers.len(), 2);
    assert_eq!(layers[0].input_size(), 2);
    assert_eq!(layers[1].input_size(), 2);
    let first = layers[0].neurons();
    assert_eq!((first[0].bias, first[0].weights.clone()), (0, vec![1, 2]));
    assert_eq!((first[1].bias, first[1].weights.clone()), (3, vec![4, 5]));
    let second = layers[1].neurons();
    assert_eq!(second.len(), 1);
    assert_eq!((second[0].bias, second[0].weights.clone()), (6, vec![7, 8]));
}

#[test]
fn neuron_from_draws_reads_from_offset() {
    let neuron = Neuron::from_draws(&[9u8, 8, 7, 6, 5], 1, 3);
    assert_eq!(neuron.bias, 8);
    assert_eq!(neuron.weights, vec![7, 6, 5]);
}

#[test]
fn same_seed_gives_same_network() {
    let top = topology(&[3, 4, 2]);
    let count = network_draw_count(&top).unwrap();
    let mut a = ChaCha8Rng::from_seed([7; 32]);
    let mut b = ChaCha8Rng::from_seed([7; 32]);
    let first = Network::from_draws(&top, &draws(&mut a, count));
    let second = Network::from_draws(&top, &draws(&mut b, count));
    for (la, lb) in first.layers().iter().zip(second.layers()) {
        for (na, nb) in la.neurons().iter().zip(lb.neurons()) {
            assert_eq!(na.bias, nb.bias);
            assert_eq!(na.weights, nb.weights);
        }
    }
    let inputs = vec![0.25, -0.5, 1.0];
    assert_eq!(
        first.propagate(inputs.clone(), &neuron_output),
        second.propagate(inputs, &neuron_output)
    );
}
