use vstd::prelude::*;

verus! {

/// The width of one layer of a network, before any parameters exist.
#[derive(Clone, Copy, Debug, PartialEq, Eq, Structural)]
pub struct LayerTopology {
    pub neurons: usize,
}

/// Why a topology cannot describe a network.
#[derive(Clone, Copy, Debug, PartialEq, Eq, Structural)]
pub enum TopologyError {
    /// Fewer than two widths: there is no input width and output width to join.
    TooFewLayers,
    /// The number of parameters does not fit in a `usize`.
    TooLarge,
}

/// Parameters of a layer mapping `input` values to `output` values: each of
/// its `output` neurons has one bias and `input` weights.
pub open spec fn layer_draws(input: nat, output: nat) -> nat {
    output * (input + 1)
}

/// Parameters of the first `k` layers built from `top`, where layer `j` maps
/// width `top[j]` to width `top[j + 1]`.
pub open spec fn draws_before(top: Seq<LayerTopology>, k: int) -> nat
    decreases k,
{
    if k <= 0 {
        0
    } else {
        draws_before(top, k - 1) + layer_draws(
            top[k - 1].neurons as nat,
            top[k].neurons as nat,
        )
    }
}

/// Parameters of the whole network built from `top`.
pub open spec fn network_draws(top: Seq<LayerTopology>) -> nat {
    draws_before(top, top.len() - 1)
}

/// Fewer parameters come before an earlier layer than before a later one.
pub proof fn lemma_draws_before_monotonic(top: Seq<LayerTopology>, j: int, k: int)
    requires
        j <= k,
    ensures
        draws_before(top, j) <= draws_before(top, k),
    decreases k - j,
{
    if j < k {
        lemma_draws_before_monotonic(top, j, k - 1);
    }
}

/// How many scalars a network of shape `topology` draws, bias first and then
/// weights for each neuron, neuron by neuron and layer by layer.
pub fn network_draw_count(topology: &[LayerTopology]) -> (r: Result<usize, TopologyError>)
    ensures
        topology@.len() < 2 <==> r == Err::<usize, TopologyError>(TopologyError::TooFewLayers),
        r == Err::<usize, TopologyError>(TopologyError::TooLarge) <==> (topology@.len() >= 2
            && network_draws(topology@) > usize::MAX),
        r is Ok ==> r->Ok_0 == network_draws(topology@),
{
    if topology.len() < 2 {
        return Err(TopologyError::TooFewLayers);
    }
    let ghost top = topology@;
    let last: usize = topology.len() - 1;
    let mut total: usize = 0;
    let mut k: usize = 0;
    while k < last
        invariant
            top == topology@,
            last == top.len() - 1,
            k <= last,
            total == draws_before(top, k as int),
        decreases last - k,
    {
        proof {
            lemma_draws_before_monotonic(top, k + 1, last as int);
        }
        let input = topology[k].neurons;
        let output = topology[k + 1].neurons;
        let per_neuron = match input.checked_add(1) {
            Some(n) => n,
            None => {
                assert(layer_draws(input as nat, output as nat) >= input + 1
                    || output == 0) by (nonlinear_arith);
                if output == 0 {
                    0
                } else {
                    return Err(TopologyError::TooLarge);
                }
            },
        };
        let layer = match output.checked_mul(per_neuron) {
            Some(n) => n,
            None => {
                return Err(TopologyError::TooLarge);
            },
        };
        total = match total.checked_add(layer) {
            Some(n) => n,
            None => {
                return Err(TopologyError::TooLarge);
            },
        };
        k = k + 1;
    }
    Ok(total)
}

} // verus!
