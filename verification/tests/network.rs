use neuro_evolution::{
    count_parameters, Chromosome, Error, Layer, LayerTopology, Network, Neuron,
};
use rand::{Rng, SeedableRng};
use rand_chacha::ChaCha8Rng;

/// Bias plus weighted sum of the inputs, cut off below zero.
fn rectified(neuron: &Neuron<f32>, inputs: &[f32]) -> f32 {
    let sum: f32 = inputs
        .iter()
        .zip(neuron.weights())
        .map(|(input, weight)| input * weight)
        .sum();
    (neuron.bias() + sum).max(0.0)
}

fn close(a: &[f32], b: &[f32]) -> bool {
    approx::Relative::default().eq(&a, &b)
}

fn topology(widths: &[usize]) -> Vec<LayerTopology> {
    widths
        .iter()
        .map(|&neurons| LayerTopology { neurons })
        .collect()
}

/// A real drawn uniformly from [-1, 1].
fn unit(rng: &mut ChaCha8Rng) -> f32 {
    rng.gen_range(-1.0..=1.0)
}

#[test]
fn random() {
    let mut rng = ChaCha8Rng::from_seed(Default::default());

    let neuron1 = Neuron::random(&mut rng, 4, &unit);

    assert!(close(&[*neuron1.bias()], &[-0.6255188]));
    assert!(close(
        neuron1.weights(),
        &[0.67383957, 0.8181262, 0.26284897, 0.5238807]
    ));
}

#[test]
fn random_layer_has_the_output_size_in_neurons_and_the_input_size_in_weights() {
    let mut rng = ChaCha8Rng::from_seed(Default::default());
    let layer = Layer::random(&mut rng, 3, 5, &unit);
    assert_eq!(layer.neurons().len(), 5);
    for neuron in layer.neurons() {
        assert_eq!(neuron.weights().len(), 3);
        assert!(-1.0 <= *neuron.bias() && *neuron.bias() <= 1.0);
    }
    assert_eq!(layer.input_width(), Some(3));
}

#[test]
fn random_network_has_the_shape_of_its_topology() {
    let mut rng = ChaCha8Rng::from_seed(Default::default());
    let network = Network::random(&mut rng, &topology(&[3, 2, 1]), &unit).unwrap();
    let layers = network.layers();
    assert_eq!(layers.len(), 2);
    assert_eq!(layers[0].neurons().len(), 2);
    assert_eq!(layers[0].input_width(), Some(3));
    assert_eq!(layers[1].neurons().len(), 1);
    assert_eq!(layers[1].input_width(), Some(2));
    assert_eq!(network.encode().len(), 11);
}

#[test]
fn random_network_draws_its_genes_in_their_order() {
    let mut rng = ChaCha8Rng::seed_from_u64(8);
    let network = Network::random(&mut rng, &topology(&[3, 2, 1]), &unit).unwrap();

    let mut again = ChaCha8Rng::seed_from_u64(8);
    let genes: Vec<f32> = (0..11).map(|_| unit(&mut again)).collect();
    assert_eq!(network.encode().into_vec(), genes);
}

#[test]
fn random_network_of_fewer_than_two_widths_is_refused() {
    let mut rng = ChaCha8Rng::from_seed(Default::default());
    assert!(matches!(
        Network::random(&mut rng, &topology(&[]), &unit),
        Err(Error::InvalidTopology)
    ));
    assert!(matches!(
        Network::random(&mut rng, &topology(&[7]), &unit),
        Err(Error::InvalidTopology)
    ));
    // nothing was drawn
    let mut untouched = ChaCha8Rng::from_seed(Default::default());
    assert_eq!(rng.gen::<u64>(), untouched.gen::<u64>());
}

#[test]
fn encoding_a_random_network_and_decoding_it_gives_it_back() {
    let mut rng = ChaCha8Rng::seed_from_u64(21);
    let shape = topology(&[4, 3, 2]);
    let network = Network::random(&mut rng, &shape, &unit).unwrap();
    let decoded = Network::decode(&shape, &network.encode()).unwrap();
    assert_eq!(decoded.layers().len(), network.layers().len());
    for (one, two) in decoded.layers().iter().zip(network.layers()) {
        assert_eq!(one.neurons(), two.neurons());
    }
}

#[test]
fn progagate() {
    let neuron = Neuron::new(0.5, vec![-0.3, 0.8]);

    let low = neuron.propagate(&[-10.0, -8.0], &rectified).unwrap();
    assert!(close(&[low], &[0.0]));
    let high = neuron.propagate(&[0.5, 1.0], &rectified).unwrap();
    assert!(close(&[high], &[1.15]));
}

#[test]
fn neuron_refuses_an_input_of_the_wrong_length() {
    let neuron = Neuron::new(0.5f32, vec![-0.3, 0.8]);
    assert_eq!(
        neuron.propagate(&[1.0], &rectified),
        Err(Error::LengthMismatch)
    );
    assert_eq!(
        neuron.propagate(&[1.0, 2.0, 3.0], &rectified),
        Err(Error::LengthMismatch)
    );
    assert_eq!(neuron.propagate(&[], &rectified), Err(Error::LengthMismatch));
}

#[test]
fn neuron_hands_itself_and_the_inputs_to_the_kernel() {
    let neuron = Neuron::new(7, vec![1, 2, 3]);
    let seen = neuron
        .propagate(&[10, 20, 30], &|n: &Neuron<i32>, x: &[i32]| {
            n.bias() + n.weights()[0] * x[0] + n.weights()[1] * x[1] + n.weights()[2] * x[2]
        })
        .unwrap();
    assert_eq!(seen, 7 + 10 + 40 + 90);
}

#[test]
fn layer_has_one_output_per_neuron_in_order() {
    let layer = Layer::new(vec![
        Neuron::new(0.0, vec![1.0, 0.0]),
        Neuron::new(0.0, vec![0.0, 1.0]),
        Neuron::new(1.0, vec![1.0, 1.0]),
    ])
    .unwrap();
    let outputs = layer.propagate(&[2.0, 3.0], &rectified).unwrap();
    assert_eq!(outputs, vec![2.0, 3.0, 6.0]);
    assert_eq!(layer.input_width(), Some(2));
    assert!(layer.accepts(2));
    assert!(!layer.accepts(3));
}

#[test]
fn layer_refuses_neurons_of_different_widths() {
    let layer = Layer::new(vec![
        Neuron::new(0.0f32, vec![1.0, 0.0]),
        Neuron::new(0.0f32, vec![1.0]),
    ]);
    assert!(matches!(layer, Err(Error::LengthMismatch)));
}

#[test]
fn layer_refuses_an_input_of_the_wrong_length() {
    let layer = Layer::new(vec![Neuron::new(0.0f32, vec![1.0, 0.0])]).unwrap();
    assert_eq!(
        layer.propagate(&[1.0], &rectified),
        Err(Error::LengthMismatch)
    );
}

#[test]
fn empty_layer_takes_any_input_and_gives_nothing() {
    let layer: Layer<f32> = Layer::new(vec![]).unwrap();
    assert_eq!(layer.input_width(), None);
    assert!(layer.accepts(0));
    assert!(layer.accepts(5));
    assert_eq!(layer.propagate(&[1.0, 2.0], &rectified), Ok(vec![]));
}

#[test]
fn network_feeds_each_layer_with_the_outputs_of_the_one_before() {
    let first = Layer::new(vec![
        Neuron::new(0.0, vec![1.0, 1.0]),
        Neuron::new(-100.0, vec![1.0, 1.0]),
        Neuron::new(1.0, vec![2.0, 0.0]),
    ])
    .unwrap();
    let second = Layer::new(vec![Neuron::new(0.5, vec![1.0, 10.0, 2.0])]).unwrap();
    let network = Network::new(vec![first, second]).unwrap();

    let outputs = network.propagate(vec![1.0, 2.0], &rectified).unwrap();
    // first layer: [3, 0, 3]; second: 0.5 + 3 + 0 + 6
    assert_eq!(outputs, vec![9.5]);
}

#[test]
fn network_without_layers_hands_the_inputs_back() {
    let network: Network<f32> = Network::new(vec![]).unwrap();
    assert_eq!(
        network.propagate(vec![1.0, 2.0], &rectified),
        Ok(vec![1.0, 2.0])
    );
}

#[test]
fn network_refuses_an_input_of_the_wrong_length() {
    let network =
        Network::decode(&topology(&[2, 1]), &Chromosome::from_vec(vec![0.0f32; 3])).unwrap();
    assert_eq!(
        network.propagate(vec![1.0], &rectified),
        Err(Error::LengthMismatch)
    );
    assert_eq!(
        network.propagate(vec![1.0, 2.0, 3.0], &rectified),
        Err(Error::LengthMismatch)
    );
    assert_eq!(network.propagate(vec![1.0, 2.0], &rectified), Ok(vec![0.0]));
}

#[test]
fn network_refuses_layers_that_do_not_link() {
    let first = Layer::new(vec![Neuron::new(0.0f32, vec![1.0])]).unwrap();
    let second = Layer::new(vec![Neuron::new(0.0f32, vec![1.0, 2.0])]).unwrap();
    assert!(matches!(
        Network::new(vec![first, second]),
        Err(Error::LengthMismatch)
    ));
}

#[test]
fn topology_of_fewer_than_two_widths_is_refused() {
    let none: Chromosome<f32> = Chromosome::from_vec(vec![]);
    assert!(matches!(
        Network::decode(&topology(&[]), &none),
        Err(Error::InvalidTopology)
    ));
    assert!(matches!(
        Network::decode(&topology(&[3]), &none),
        Err(Error::InvalidTopology)
    ));
    let some = Chromosome::from_vec(vec![1.0f32, 2.0, 3.0]);
    assert!(matches!(
        Network::decode(&topology(&[3]), &some),
        Err(Error::InvalidTopology)
    ));
}

#[test]
fn genome_of_the_wrong_length_is_refused() {
    for len in [0usize, 10, 12, 100] {
        let genome = Chromosome::from_vec(vec![0.0f32; len]);
        assert!(matches!(
            Network::decode(&topology(&[3, 2, 1]), &genome),
            Err(Error::LengthMismatch)
        ));
    }
    let genome = Chromosome::from_vec(vec![0.0f32; 11]);
    assert!(Network::decode(&topology(&[3, 2, 1]), &genome).is_ok());
}

#[test]
fn parameters_are_counted_layer_by_layer() {
    assert_eq!(count_parameters(&topology(&[])), Some(0));
    assert_eq!(count_parameters(&topology(&[5])), Some(0));
    assert_eq!(count_parameters(&topology(&[4, 1])), Some(5));
    assert_eq!(count_parameters(&topology(&[3, 2, 1])), Some(2 * 4 + 1 * 3));
    assert_eq!(count_parameters(&topology(&[9, 0, 4])), Some(4));
    assert_eq!(count_parameters(&topology(&[0, 3])), Some(3));
    assert_eq!(count_parameters(&topology(&[usize::MAX, 0])), Some(0));
    assert_eq!(count_parameters(&topology(&[usize::MAX, 1])), None);
    assert_eq!(count_parameters(&topology(&[usize::MAX, usize::MAX])), None);
    assert_eq!(count_parameters(&topology(&[1, usize::MAX / 2, 1])), None);
}

#[test]
fn decode_lays_the_genes_out_bias_first_neuron_by_neuron() {
    let genes: Vec<f32> = (1..=11).map(|n| n as f32).collect();
    let network = Network::decode(&topology(&[3, 2, 1]), &Chromosome::from_vec(genes)).unwrap();
    let layers = network.layers();
    assert_eq!(layers.len(), 2);

    let first = layers[0].neurons();
    assert_eq!(first.len(), 2);
    assert_eq!(*first[0].bias(), 1.0);
    assert_eq!(first[0].weights(), &[2.0, 3.0, 4.0]);
    assert_eq!(*first[1].bias(), 5.0);
    assert_eq!(first[1].weights(), &[6.0, 7.0, 8.0]);

    let second = layers[1].neurons();
    assert_eq!(second.len(), 1);
    assert_eq!(*second[0].bias(), 9.0);
    assert_eq!(second[0].weights(), &[10.0, 11.0]);
}

#[test]
fn encode_is_the_inverse_of_decode() {
    let mut rng = ChaCha8Rng::seed_from_u64(3);
    let shape = topology(&[3, 4, 2, 1]);
    let count = count_parameters(&shape).unwrap();
    assert_eq!(count, 4 * 4 + 2 * 5 + 1 * 3);
    let genes: Vec<f32> = (0..count).map(|_| rng.gen_range(-1.0..=1.0)).collect();

    let network = Network::decode(&shape, &Chromosome::from_vec(genes.clone())).unwrap();
    let encoded = network.encode();
    assert_eq!(encoded.as_slice(), genes.as_slice());

    let again = Network::decode(&shape, &encoded).unwrap();
    assert_eq!(again.layers().len(), network.layers().len());
    for (one, two) in again.layers().iter().zip(network.layers()) {
        assert_eq!(one.neurons(), two.neurons());
    }
}

#[test]
fn encode_of_a_built_network_lists_bias_then_weights() {
    let first = Layer::new(vec![
        Neuron::new(0.1, vec![0.2, 0.3]),
        Neuron::new(0.4, vec![0.5, 0.6]),
    ])
    .unwrap();
    let second = Layer::new(vec![Neuron::new(0.7, vec![0.8, 0.9])]).unwrap();
    let network = Network::new(vec![first, second]).unwrap();
    assert_eq!(
        network.encode().into_vec(),
        vec![0.1, 0.2, 0.3, 0.4, 0.5, 0.6, 0.7, 0.8, 0.9]
    );
}

#[test]
fn layers_of_no_neurons_take_no_genes() {
    let network =
        Network::decode(&topology(&[2, 0, 3]), &Chromosome::from_vec(vec![1.0f32, 2.0, 3.0]))
            .unwrap();
    assert_eq!(network.layers()[0].neurons().len(), 0);
    assert_eq!(network.layers()[1].neurons().len(), 3);
    assert_eq!(network.encode().into_vec(), vec![1.0, 2.0, 3.0]);
    assert_eq!(
        network.propagate(vec![5.0, 5.0], &rectified),
        Ok(vec![1.0, 2.0, 3.0])
    );
}
