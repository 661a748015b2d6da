use crate::network::model::{
    layer_accepts, network_chained, network_fits, LayerModel, NetworkModel, NeuronModel,
};
use vstd::prelude::*;

verus! {

/// The genes that stand for one neuron: its bias, then its weights.
pub open spec fn neuron_genes<R>(neuron: NeuronModel<R>) -> Seq<R> {
    seq![neuron.bias] + neuron.weights
}

/// The genes that stand for one layer: those of its neurons, one neuron
/// after the other.
pub open spec fn layer_genes<R>(layer: LayerModel<R>) -> Seq<R>
    decreases layer.len(),
{
    if layer.len() == 0 {
        Seq::empty()
    } else {
        layer_genes(layer.drop_last()) + neuron_genes(layer.last())
    }
}

/// The genes that stand for a network: those of its layers, one layer after
/// the other.
pub open spec fn network_genes<R>(network: NetworkModel<R>) -> Seq<R>
    decreases network.len(),
{
    if network.len() == 0 {
        Seq::empty()
    } else {
        network_genes(network.drop_last()) + layer_genes(network.last())
    }
}

/// The number of genes that a network of the given widths takes: for every
/// layer, one bias and one weight per input for each of its neurons.
pub open spec fn parameter_count(widths: Seq<int>) -> int
    decreases widths.len(),
{
    if widths.len() < 2 {
        0
    } else {
        parameter_count(widths.drop_last()) + widths.last() * (widths[widths.len() - 2] + 1)
    }
}

/// A layer whose neurons take `width` inputs each has `width + 1` genes per
/// neuron.
pub proof fn lemma_layer_genes_len<R>(layer: LayerModel<R>, width: int)
    requires
        layer_accepts(layer, width),
    ensures
        layer_genes(layer).len() == layer.len() * (width + 1),
    decreases layer.len(),
{
    if layer.len() > 0 {
        let front = layer.drop_last();
        assert(layer_accepts(front, width)) by {
            assert forall|j: int| 0 <= j < front.len() implies (#[trigger] front[j]).weights.len()
                == width by {
                assert(front[j] == layer[j]);
            }
        }
        lemma_layer_genes_len(front, width);
        assert((layer.len() - 1) * (width + 1) + (width + 1) == layer.len() * (width + 1))
            by (nonlinear_arith);
    } else {
        assert(layer.len() * (width + 1) == 0) by (nonlinear_arith)
            requires
                layer.len() == 0,
        ;
    }
}

/// A network that fits a topology has as many genes as the topology has
/// parameters.
pub proof fn lemma_network_genes_len<R>(network: NetworkModel<R>, widths: Seq<int>)
    requires
        network_fits(network, widths),
    ensures
        network_genes(network).len() == parameter_count(widths),
    decreases network.len(),
{
    if network.len() > 0 {
        let n = network.len() as int;
        lemma_fits_front(network, widths);
        lemma_network_genes_len(network.drop_last(), widths.drop_last());
        lemma_layer_genes_len(network.last(), widths[n - 1]);
    }
}

/// Without its last layer, a network fits the topology without its last
/// width.
pub proof fn lemma_fits_front<R>(network: NetworkModel<R>, widths: Seq<int>)
    requires
        network_fits(network, widths),
        network.len() > 0,
    ensures
        network_fits(network.drop_last(), widths.drop_last()),
{
    let front = network.drop_last();
    let fewer = widths.drop_last();
    assert forall|i: int| 0 <= i < front.len() implies (#[trigger] front[i]).len() == fewer[i + 1]
        && layer_accepts(front[i], fewer[i]) by {
        assert(front[i] == network[i]);
    }
}

/// Two layers of the same shape that have the same genes are the same layer.
pub proof fn lemma_layer_genes_injective<R>(a: LayerModel<R>, b: LayerModel<R>, width: int)
    requires
        a.len() == b.len(),
        layer_accepts(a, width),
        layer_accepts(b, width),
        layer_genes(a) == layer_genes(b),
    ensures
        a == b,
    decreases a.len(),
{
    if a.len() > 0 {
        let (fa, fb) = (a.drop_last(), b.drop_last());
        let (ga, gb) = (layer_genes(fa), layer_genes(fb));
        let (na, nb) = (neuron_genes(a.last()), neuron_genes(b.last()));
        assert forall|j: int| 0 <= j < fa.len() implies (#[trigger] fa[j]).weights.len() == width by {
            assert(fa[j] == a[j]);
        }
        assert forall|j: int| 0 <= j < fb.len() implies (#[trigger] fb[j]).weights.len() == width by {
            assert(fb[j] == b[j]);
        }
        lemma_layer_genes_len(fa, width);
        lemma_layer_genes_len(fb, width);
        let whole = layer_genes(a);
        assert(ga =~= whole.subrange(0, ga.len() as int));
        assert(gb =~= whole.subrange(0, gb.len() as int));
        assert(na =~= whole.subrange(ga.len() as int, whole.len() as int));
        assert(nb =~= whole.subrange(gb.len() as int, whole.len() as int));
        lemma_layer_genes_injective(fa, fb, width);
        assert(a.last().bias == na[0] && b.last().bias == nb[0]);
        assert(a.last().weights =~= na.subrange(1, na.len() as int));
        assert(b.last().weights =~= nb.subrange(1, nb.len() as int));
        assert forall|j: int| 0 <= j < a.len() implies a[j] == b[j] by {
            if j < a.len() - 1 {
                assert(a[j] == fa[j] && b[j] == fb[j]);
            }
        }
    }
}

/// A network that fits a topology is determined by its genes: of two
/// networks that fit the same topology and have the same genes, one is the
/// other.
pub proof fn lemma_network_genes_injective<R>(
    a: NetworkModel<R>,
    b: NetworkModel<R>,
    widths: Seq<int>,
)
    requires
        network_fits(a, widths),
        network_fits(b, widths),
        network_genes(a) == network_genes(b),
    ensures
        a == b,
    decreases a.len(),
{
    if a.len() > 0 {
        let n = a.len() as int;
        let (fa, fb) = (a.drop_last(), b.drop_last());
        let (ga, gb) = (network_genes(fa), network_genes(fb));
        let (la, lb) = (layer_genes(a.last()), layer_genes(b.last()));
        lemma_fits_front(a, widths);
        lemma_fits_front(b, widths);
        lemma_layer_genes_len(a.last(), widths[n - 1]);
        lemma_layer_genes_len(b.last(), widths[n - 1]);
        let whole = network_genes(a);
        assert(ga =~= whole.subrange(0, ga.len() as int));
        assert(gb =~= whole.subrange(0, gb.len() as int));
        assert(la =~= whole.subrange(ga.len() as int, whole.len() as int));
        assert(lb =~= whole.subrange(gb.len() as int, whole.len() as int));
        lemma_network_genes_injective(fa, fb, widths.drop_last());
        lemma_layer_genes_injective(a.last(), b.last(), widths[n - 1]);
        assert forall|i: int| 0 <= i < a.len() implies a[i] == b[i] by {
            if i < n - 1 {
                assert(a[i] == fa[i] && b[i] == fb[i]);
            }
        }
    }
}

/// Encoding and decoding are inverse to each other: the genes of a network
/// that fits a topology are as many as the topology has parameters, so they
/// can be decoded against it, and whatever network of that topology has
/// these genes is the network they were taken from.
pub proof fn lemma_round_trip<R>(network: NetworkModel<R>, widths: Seq<int>)
    requires
        network_fits(network, widths),
    ensures
        network_genes(network).len() == parameter_count(widths),
        forall|decoded: NetworkModel<R>|
            network_fits(decoded, widths) && #[trigger] network_genes(decoded) == network_genes(
                network,
            ) ==> decoded == network,
{
    lemma_network_genes_len(network, widths);
    assert forall|decoded: NetworkModel<R>|
        network_fits(decoded, widths) && #[trigger] network_genes(decoded) == network_genes(
            network,
        ) implies decoded == network by {
        lemma_network_genes_injective(decoded, network, widths);
    }
}

/// One more width adds the parameters of one more layer.
pub proof fn lemma_parameter_count_step(widths: Seq<int>, i: int)
    requires
        0 <= i,
        i + 2 <= widths.len(),
    ensures
        parameter_count(widths.take(i + 2)) == parameter_count(widths.take(i + 1)) + widths[i + 1]
            * (widths[i] + 1),
{
    let longer = widths.take(i + 2);
    assert(longer.drop_last() =~= widths.take(i + 1));
}

/// The parameter count of the first `k` widths is not negative and not
/// above that of all widths, as long as no width is negative.
pub proof fn lemma_parameter_count_prefix(widths: Seq<int>, k: int)
    requires
        0 <= k <= widths.len(),
        forall|i: int| 0 <= i < widths.len() ==> 0 <= #[trigger] widths[i],
    ensures
        0 <= parameter_count(widths.take(k)) <= parameter_count(widths),
    decreases widths.len(),
{
    if k == widths.len() {
        assert(widths.take(k) =~= widths);
        if widths.len() >= 2 {
            lemma_parameter_count_prefix(widths.drop_last(), k - 1);
            lemma_term_not_negative(widths.last(), widths[widths.len() - 2]);
        }
    } else {
        assert(widths.take(k) =~= widths.drop_last().take(k));
        lemma_parameter_count_prefix(widths.drop_last(), k);
        if widths.len() >= 2 {
            lemma_term_not_negative(widths.last(), widths[widths.len() - 2]);
        }
    }
}

proof fn lemma_term_not_negative(neurons: int, inputs: int)
    requires
        0 <= neurons,
        0 <= inputs,
    ensures
        0 <= neurons * (inputs + 1),
{
    assert(0 <= neurons * (inputs + 1)) by (nonlinear_arith)
        requires
            0 <= neurons,
            0 <= inputs,
    ;
}

/// A network that fits a topology is chained as every network is.
pub proof fn lemma_fits_chained<R>(network: NetworkModel<R>, widths: Seq<int>)
    requires
        network_fits(network, widths),
    ensures
        network_chained(network),
{
    assert forall|i: int| 1 <= i < network.len() implies layer_accepts(
        #[trigger] network[i],
        network[i - 1].len() as int,
    ) by {
        assert(network[i - 1].len() == widths[i]);
    }
}

} // verus!
