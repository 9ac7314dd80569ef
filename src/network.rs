use vstd::prelude::*;

use crate::topology::{draws_before, layer_draws, lemma_draws_before_monotonic, network_draws, LayerTopology};

verus! {

/// One neuron: a bias and one weight per input.
#[derive(Clone, Debug)]
pub struct Neuron<T> {
    pub bias: T,
    pub weights: Vec<T>,
}

/// `n` holds the `width + 1` scalars of `draws` that start at `start`: the
/// bias first, then the weights in order.
pub open spec fn neuron_drawn<T>(n: Neuron<T>, draws: Seq<T>, start: int, width: nat) -> bool {
    &&& n.bias == draws[start]
    &&& n.weights@ == draws.subrange(start + 1, start + 1 + width)
}

impl<T: Copy> Neuron<T> {
    /// Builds a neuron with `input_size` weights from `draws[start..]`, taking
    /// the bias first and then each weight in index order.
    pub fn from_draws(draws: &[T], start: usize, input_size: usize) -> (r: Neuron<T>)
        requires
            start + input_size < draws@.len(),
        ensures
            neuron_drawn(r, draws@, start as int, input_size as nat),
    {
        let len = draws.len();
        let bias = draws[start];
        let mut weights: Vec<T> = Vec::with_capacity(input_size);
        let mut j: usize = 0;
        while j < input_size
            invariant
                j <= input_size,
                start + input_size < len,
                len == draws@.len(),
                weights@ == draws@.subrange(start + 1, start + 1 + j),
            decreases input_size - j,
        {
            weights.push(draws[start + 1 + j]);
            j = j + 1;
            assert(weights@ =~= draws@.subrange(start + 1, start + 1 + j));
        }
        Neuron { bias, weights }
    }
}


/// The neurons of one layer, all reading the same `input_size` inputs.
#[derive(Clone, Debug)]
pub struct Layer<T> {
    input_size: usize,
    neurons: Vec<Neuron<T>>,
}

impl<T> View for Layer<T> {
    type V = Seq<Neuron<T>>;

    /// The layer's neurons in order.
    closed spec fn view(&self) -> Seq<Neuron<T>> {
        self.neurons@
    }
}

/// `y` is what `activate` gives, neuron by neuron, for the layer reading `x`.
pub open spec fn layer_maps<T, F: Fn(&Neuron<T>, &Vec<T>) -> T>(
    layer: Layer<T>,
    activate: F,
    x: Vec<T>,
    y: Vec<T>,
) -> bool {
    &&& y@.len() == layer@.len()
    &&& forall|i: int| 0 <= i < y@.len() ==> activate.ensures((&layer@[i], &x), #[trigger] y@[i])
}

/// `activate` may be called on every neuron and input of matching width.
pub open spec fn accepts_matching<T, F: Fn(&Neuron<T>, &Vec<T>) -> T>(activate: F) -> bool {
    forall|n: &Neuron<T>, x: &Vec<T>|
        n.weights@.len() == x@.len() ==> #[trigger] activate.requires((n, x))
}

impl<T> Layer<T> {
    /// The number of inputs that each neuron reads.
    pub closed spec fn input_width(&self) -> nat {
        self.input_size as nat
    }

    /// Every neuron has one weight per input of the layer.
    pub open spec fn wf(&self) -> bool {
        forall|i: int| 0 <= i < self@.len() ==> #[trigger] self@[i].weights@.len() == self.input_width()
    }

    /// A layer of `neurons` reading `input_size` inputs, or `None` when some
    /// neuron has another number of weights.
    pub fn new(input_size: usize, neurons: Vec<Neuron<T>>) -> (r: Option<Layer<T>>)
        ensures
            r is Some <==> forall|i: int|
                0 <= i < neurons@.len() ==> #[trigger] neurons@[i].weights@.len() == input_size,
            r matches Some(l) ==> l.wf() && l.input_width() == input_size && l@ == neurons@,
    {
        let mut i: usize = 0;
        while i < neurons.len()
            invariant
                i <= neurons@.len(),
                forall|j: int| 0 <= j < i ==> #[trigger] neurons@[j].weights@.len() == input_size,
            decreases neurons@.len() - i,
        {
            if neurons[i].weights.len() != input_size {
                return None;
            }
            i = i + 1;
        }
        Some(Layer { input_size, neurons })
    }

    /// The number of inputs the layer reads.
    pub fn input_size(&self) -> (r: usize)
        ensures
            r == self.input_width(),
    {
        self.input_size
    }

    /// The number of outputs the layer gives: one per neuron.
    pub fn output_size(&self) -> (r: usize)
        ensures
            r == self@.len(),
    {
        self.neurons.len()
    }

    /// The layer's neurons in order.
    pub fn neurons(&self) -> (r: &[Neuron<T>])
        ensures
            r@ == self@,
    {
        self.neurons.as_slice()
    }

    /// Maps `inputs` to one output per neuron: the `i`-th output is what
    /// `activate` gives for the `i`-th neuron on `inputs`.
    pub fn propagate<F: Fn(&Neuron<T>, &Vec<T>) -> T>(&self, inputs: Vec<T>, activate: &F) -> (r: Vec<T>)
        requires
            self.wf(),
            inputs@.len() == self.input_width(),
            accepts_matching(*activate),
        ensures
            layer_maps(*self, *activate, inputs, r),
    {
        let mut outputs: Vec<T> = Vec::with_capacity(self.neurons.len());
        let mut i: usize = 0;
        while i < self.neurons.len()
            invariant
                self.wf(),
                inputs@.len() == self.input_width(),
                accepts_matching(*activate),
                i <= self@.len(),
                outputs@.len() == i,
                forall|j: int| 0 <= j < i ==> activate.ensures((&self@[j], &inputs), #[trigger] outputs@[j]),
            decreases self@.len() - i,
        {
            let neuron = &self.neurons[i];
            let out = activate(neuron, &inputs);
            outputs.push(out);
            i = i + 1;
        }
        outputs
    }
}

impl<T: Copy> Layer<T> {
    /// Builds `output_size` neurons of `input_size` weights each from
    /// `draws[start..]`, neuron after neuron.
    pub fn from_draws(draws: &[T], start: usize, input_size: usize, output_size: usize) -> (r: Layer<T>)
        requires
            start + output_size * (input_size + 1) <= draws@.len(),
        ensures
            r.wf(),
            r.input_width() == input_size,
            r@.len() == output_size,
            forall|i: int|
                0 <= i < output_size ==> neuron_drawn(
                    #[trigger] r@[i],
                    draws@,
                    start + i * (input_size + 1),
                    input_size as nat,
                ),
    {
        let len = draws.len();
        let mut neurons: Vec<Neuron<T>> = Vec::with_capacity(output_size);
        let mut i: usize = 0;
        let mut pos: usize = start;
        while i < output_size
            invariant
                len == draws@.len(),
                start + output_size * (input_size + 1) <= len,
                i <= output_size,
                pos == start + i * (input_size + 1),
                neurons@.len() == i,
                forall|j: int| 0 <= j < i ==> (#[trigger] neurons@[j]).weights@.len() == input_size,
                forall|j: int|
                    0 <= j < i ==> neuron_drawn(
                        #[trigger] neurons@[j],
                        draws@,
                        start + j * (input_size + 1),
                        input_size as nat,
                    ),
            decreases output_size - i,
        {
            assert((i + 1) * (input_size + 1) <= output_size * (input_size + 1)) by (nonlinear_arith)
                requires
                    i < output_size,
            ;
            assert((i + 1) * (input_size + 1) == i * (input_size + 1) + input_size + 1) by (nonlinear_arith);
            let neuron = Neuron::from_draws(draws, pos, input_size);
            neurons.push(neuron);
            pos = pos + input_size + 1;
            i = i + 1;
        }
        Layer { input_size, neurons }
    }
}

/// A sequence of layers, each reading as many values as the one before gives.
#[derive(Clone, Debug)]
pub struct Network<T> {
    layers: Vec<Layer<T>>,
}

impl<T> View for Network<T> {
    type V = Seq<Layer<T>>;

    /// The network's layers in order.
    closed spec fn view(&self) -> Seq<Layer<T>> {
        self.layers@
    }
}

/// `trace` holds what flows between the layers of `layers`: `trace[0]` is the
/// input and `trace[k + 1]` is what layer `k` gives for `trace[k]`.
pub open spec fn folds_through<T, F: Fn(&Neuron<T>, &Vec<T>) -> T>(
    layers: Seq<Layer<T>>,
    activate: F,
    trace: Seq<Vec<T>>,
) -> bool {
    &&& trace.len() == layers.len() + 1
    &&& forall|k: int|
        0 <= k < layers.len() ==> layer_maps(#[trigger] layers[k], activate, trace[k], trace[k + 1])
}

/// `net` is the network of shape `top` whose parameters are `draws`, taken in
/// order: layer by layer, neuron by neuron, each bias before its weights.
pub open spec fn drawn_from<T>(net: Network<T>, top: Seq<LayerTopology>, draws: Seq<T>) -> bool {
    &&& net@.len() == top.len() - 1
    &&& forall|k: int|
        0 <= k < net@.len() ==> {
            &&& (#[trigger] net@[k]).input_width() == top[k].neurons
            &&& net@[k]@.len() == top[k + 1].neurons
            &&& forall|i: int|
                0 <= i < net@[k]@.len() ==> neuron_drawn(
                    #[trigger] net@[k]@[i],
                    draws,
                    draws_before(top, k) + i * (top[k].neurons + 1),
                    top[k].neurons as nat,
                )
        }
}

/// Two networks have the same layer widths, biases and weights.
pub open spec fn same_parameters<T>(a: Network<T>, b: Network<T>) -> bool {
    &&& a@.len() == b@.len()
    &&& forall|k: int|
        0 <= k < a@.len() ==> {
            &&& (#[trigger] a@[k]).input_width() == b@[k].input_width()
            &&& a@[k]@.len() == b@[k]@.len()
            &&& forall|i: int|
                0 <= i < a@[k]@.len() ==> (#[trigger] a@[k]@[i]).bias == b@[k]@[i].bias
                    && a@[k]@[i].weights@ == b@[k]@[i].weights@
        }
}

/// Building from one topology and one stream of draws is deterministic: two
/// networks built from the same topology and the same draws hold the same
/// parameters.
pub proof fn lemma_same_draws_same_network<T>(
    top: Seq<LayerTopology>,
    draws: Seq<T>,
    a: Network<T>,
    b: Network<T>,
)
    requires
        drawn_from(a, top, draws),
        drawn_from(b, top, draws),
    ensures
        same_parameters(a, b),
{
}

/// `activate` reads nothing of a neuron but its bias and weights, and
/// nothing of the input but its values.
pub open spec fn deterministic<T, F: Fn(&Neuron<T>, &Vec<T>) -> T>(activate: F) -> bool {
    forall|n1: Neuron<T>, x1: Vec<T>, y1: T, n2: Neuron<T>, x2: Vec<T>, y2: T|
        #![trigger activate.ensures((&n1, &x1), y1), activate.ensures((&n2, &x2), y2)]
        activate.ensures((&n1, &x1), y1) && activate.ensures((&n2, &x2), y2) && n1.bias == n2.bias
            && n1.weights@ == n2.weights@ && x1@ == x2@ ==> y1 == y2
}

/// Networks with the same parameters give the same outputs for the same
/// inputs, whenever the neuron arithmetic is deterministic.
pub proof fn lemma_same_parameters_same_outputs<T, F: Fn(&Neuron<T>, &Vec<T>) -> T>(
    a: Network<T>,
    b: Network<T>,
    activate: F,
    trace_a: Seq<Vec<T>>,
    trace_b: Seq<Vec<T>>,
)
    requires
        same_parameters(a, b),
        deterministic(activate),
        folds_through(a@, activate, trace_a),
        folds_through(b@, activate, trace_b),
        trace_a[0]@ == trace_b[0]@,
    ensures
        trace_a.last()@ == trace_b.last()@,
{
    lemma_traces_agree(a, b, activate, trace_a, trace_b, a@.len() as int);
}

proof fn lemma_traces_agree<T, F: Fn(&Neuron<T>, &Vec<T>) -> T>(
    a: Network<T>,
    b: Network<T>,
    activate: F,
    trace_a: Seq<Vec<T>>,
    trace_b: Seq<Vec<T>>,
    k: int,
)
    requires
        same_parameters(a, b),
        deterministic(activate),
        folds_through(a@, activate, trace_a),
        folds_through(b@, activate, trace_b),
        trace_a[0]@ == trace_b[0]@,
        0 <= k <= a@.len(),
    ensures
        trace_a[k]@ == trace_b[k]@,
    decreases k,
{
    if k > 0 {
        let j = k - 1;
        lemma_traces_agree(a, b, activate, trace_a, trace_b, j);
        assert(layer_maps(a@[j], activate, trace_a[j], trace_a[k]));
        assert(layer_maps(b@[j], activate, trace_b[j], trace_b[k]));
        assert forall|i: int| 0 <= i < trace_a[k]@.len() implies trace_a[k]@[i] == trace_b[k]@[i] by {
            assert(activate.ensures((&a@[j]@[i], &trace_a[j]), trace_a[k]@[i]));
            assert(activate.ensures((&b@[j]@[i], &trace_b[j]), trace_b[k]@[i]));
        }
        assert(trace_a[k]@ =~= trace_b[k]@);
    }
}

impl<T> Network<T> {
    /// Every layer is well formed and each reads as many values as the one
    /// before gives; there is at least one layer.
    pub open spec fn wf(&self) -> bool {
        &&& self@.len() >= 1
        &&& forall|k: int| 0 <= k < self@.len() ==> (#[trigger] self@[k]).wf()
        &&& forall|k: int|
            0 <= k < self@.len() - 1 ==> (#[trigger] self@[k])@.len() == self@[k + 1].input_width()
    }

    /// The number of inputs the network reads: that of its first layer.
    pub open spec fn input_width(&self) -> nat {
        self@[0].input_width()
    }

    /// The number of outputs the network gives: one per neuron of its last
    /// layer.
    pub open spec fn output_width(&self) -> nat {
        self@.last()@.len()
    }

    /// A network of `layers`, or `None` when there is no layer or some layer
    /// reads another number of values than the one before it gives.
    pub fn new(layers: Vec<Layer<T>>) -> (r: Option<Network<T>>)
        requires
            forall|k: int| 0 <= k < layers@.len() ==> (#[trigger] layers@[k]).wf(),
        ensures
            r is Some <==> layers@.len() >= 1 && forall|k: int|
                0 <= k < layers@.len() - 1 ==> (#[trigger] layers@[k])@.len()
                    == layers@[k + 1].input_width(),
            r matches Some(n) ==> n.wf() && n@ == layers@,
    {
        if layers.len() == 0 {
            return None;
        }
        let mut k: usize = 0;
        while k < layers.len() - 1
            invariant
                layers@.len() >= 1,
                k < layers@.len(),
                forall|j: int|
                    0 <= j < k ==> (#[trigger] layers@[j])@.len() == layers@[j + 1].input_width(),
            decreases layers@.len() - k,
        {
            if layers[k].output_size() != layers[k + 1].input_size() {
                return None;
            }
            k = k + 1;
        }
        Some(Network { layers })
    }

    /// The network's layers in order.
    pub fn layers(&self) -> (r: &[Layer<T>])
        ensures
            r@ == self@,
    {
        self.layers.as_slice()
    }

    /// The number of inputs the network reads.
    pub fn input_size(&self) -> (r: usize)
        requires
            self.wf(),
        ensures
            r == self.input_width(),
    {
        self.layers[0].input_size()
    }

    /// The number of outputs the network gives.
    pub fn output_size(&self) -> (r: usize)
        requires
            self.wf(),
        ensures
            r == self.output_width(),
    {
        self.layers[self.layers.len() - 1].output_size()
    }

    /// Threads `inputs` through every layer in order, the output of each
    /// becoming the input of the next, and returns what the last one gives.
    pub fn propagate<F: Fn(&Neuron<T>, &Vec<T>) -> T>(&self, inputs: Vec<T>, activate: &F) -> (r: Vec<T>)
        requires
            self.wf(),
            inputs@.len() == self.input_width(),
            accepts_matching(*activate),
        ensures
            r@.len() == self.output_width(),
            exists|trace: Seq<Vec<T>>|
                folds_through(self@, *activate, trace) && trace[0] == inputs && trace.last() == r,
    {
        let ghost mut trace: Seq<Vec<T>> = seq![inputs];
        let mut values = inputs;
        let mut k: usize = 0;
        while k < self.layers.len()
            invariant
                self.wf(),
                accepts_matching(*activate),
                k <= self@.len(),
                trace.len() == k + 1,
                trace[0] == inputs,
                trace.last() == values,
                values@.len() == if k == 0 { self.input_width() } else { self@[k - 1]@.len() },
                forall|j: int|
                    0 <= j < k ==> layer_maps(#[trigger] self@[j], *activate, trace[j], trace[j + 1]),
            decreases self@.len() - k,
        {
            let next = self.layers[k].propagate(values, activate);
            proof {
                trace = trace.push(next);
            }
            values = next;
            k = k + 1;
        }
        values
    }
}

impl<T: Copy> Network<T> {
    /// Builds the network of shape `topology` from `draws`: layer `k` maps
    /// `topology[k]` inputs to `topology[k + 1]` outputs, and the scalars are
    /// taken layer by layer, neuron by neuron, each bias before its weights.
    pub fn from_draws(topology: &[LayerTopology], draws: &[T]) -> (r: Network<T>)
        requires
            topology@.len() >= 2,
            draws@.len() == network_draws(topology@),
        ensures
            r.wf(),
            drawn_from(r, topology@, draws@),
            r.input_width() == topology@[0].neurons,
            r.output_width() == topology@.last().neurons,
    {
        let ghost top = topology@;
        let last: usize = topology.len() - 1;
        let mut layers: Vec<Layer<T>> = Vec::with_capacity(last);
        let mut k: usize = 0;
        let mut start: usize = 0;
        let len = draws.len();
        while k < last
            invariant
                len == draws@.len(),
                top == topology@,
                last == top.len() - 1,
                draws@.len() == network_draws(top),
                k <= last,
                start == draws_before(top, k as int),
                layers@.len() == k,
                forall|j: int| 0 <= j < k ==> (#[trigger] layers@[j]).wf(),
                forall|j: int|
                    0 <= j < k ==> {
                        &&& (#[trigger] layers@[j]).input_width() == top[j].neurons
                        &&& layers@[j]@.len() == top[j + 1].neurons
                        &&& forall|i: int|
                            0 <= i < layers@[j]@.len() ==> neuron_drawn(
                                #[trigger] layers@[j]@[i],
                                draws@,
                                draws_before(top, j) + i * (top[j].neurons + 1),
                                top[j].neurons as nat,
                            )
                    },
            decreases last - k,
        {
            proof {
                lemma_draws_before_monotonic(top, k + 1, last as int);
            }
            let input = topology[k].neurons;
            let output = topology[k + 1].neurons;
            let layer = Layer::from_draws(draws, start, input, output);
            layers.push(layer);
            if output > 0 {
                assert(output * (input + 1) >= input + 1) by (nonlinear_arith)
                    requires
                        output > 0,
                ;
                start = start + output * (input + 1);
            } else {
                assert(output * (input + 1) == 0) by (nonlinear_arith)
                    requires
                        output == 0,
                ;
            }
            assert(draws_before(top, k + 1) == draws_before(top, k as int) + layer_draws(
                input as nat,
                output as nat,
            ));
            k = k + 1;
        }
        let r = Network { layers };
        r
    }
}

} // verus!
