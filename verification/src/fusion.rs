//! The layers at which the two streams of a dual-stream model meet: the Fibonacci numbers from 2.
use vstd::prelude::*;

verus! {

/// The `k`-th fusion layer: 2, 3, 5, 8, 13, ...
pub open spec fn fusion(k: nat) -> nat
    decreases k,
{
    if k == 0 {
        2
    } else if k == 1 {
        3
    } else {
        fusion((k - 1) as nat) + fusion((k - 2) as nat)
    }
}

/// `layer` is a fusion layer.
pub open spec fn is_fusion(layer: nat) -> bool {
    exists|k: nat| fusion(k) == layer
}

/// How many fusion layers a model of `num_layers` layers has.
pub open spec fn fusion_count(num_layers: nat) -> nat
    decreases num_layers,
{
    if num_layers == 0 {
        0
    } else {
        let below = fusion_count((num_layers - 1) as nat);
        if is_fusion((num_layers - 1) as nat) {
            below + 1
        } else {
            below
        }
    }
}

/// The fusion layers of a model of `num_layers` layers, in rising order.
pub open spec fn fusion_layers(num_layers: nat) -> Seq<nat> {
    Seq::new(fusion_count(num_layers), |k: int| fusion(k as nat))
}

/// Fusion layers rise.
pub proof fn lemma_fusion_rises(j: nat, k: nat)
    requires
        j < k,
    ensures
        2 <= fusion(j) < fusion(k),
    decreases k,
{
    if j == 0 {
        if k >= 2 {
            lemma_fusion_rises(j, (k - 1) as nat);
        }
    } else {
        lemma_fusion_rises(0, j);
        if j + 1 < k {
            lemma_fusion_rises(j, (k - 1) as nat);
            lemma_fusion_rises(0, (k - 2) as nat);
        } else if k >= 3 {
            lemma_fusion_rises(0, (k - 2) as nat);
        }
    }
}

/// A model has the `k`-th fusion layer exactly where that layer lies below its depth.
pub proof fn lemma_fusion_count(num_layers: nat, k: nat)
    ensures
        fusion(k) < num_layers <==> k < fusion_count(num_layers),
    decreases num_layers,
{
    if num_layers > 0 {
        let m = (num_layers - 1) as nat;
        let below = fusion_count(m);
        lemma_fusion_count(m, k);
        lemma_fusion_count(m, below);
        if below > 0 {
            lemma_fusion_count(m, (below - 1) as nat);
        }
        if is_fusion(m) {
            let i = choose|i: nat| fusion(i) == m;
            lemma_fusion_count(m, i);
            if i > below {
                lemma_fusion_rises(below, i);
            }
            assert(fusion(below) == m);
            if k > below {
                lemma_fusion_rises(below, k);
            }
        } else {
            assert(fusion(k) != m);
        }
    }
}

/// A deeper model keeps the fusion layers of a shallower one, in their places.
pub proof fn lemma_fusion_layers_grow(shallow: nat, deep: nat)
    requires
        shallow <= deep,
    ensures
        fusion_layers(shallow).is_prefix_of(fusion_layers(deep)),
    decreases deep - shallow,
{
    if shallow < deep {
        lemma_fusion_layers_grow(shallow, (deep - 1) as nat);
    }
    assert(fusion_layers(shallow) =~= fusion_layers(deep).subrange(
        0,
        fusion_layers(shallow).len() as int,
    ));
}

/// One more layer adds at most one fusion layer: the layer below the new depth, if it is one.
pub proof fn lemma_one_layer_adds_at_most_one(num_layers: nat)
    ensures
        fusion_layers(num_layers + 1) == if is_fusion(num_layers) {
            fusion_layers(num_layers).push(num_layers)
        } else {
            fusion_layers(num_layers)
        },
{
    if is_fusion(num_layers) {
        let i = choose|i: nat| fusion(i) == num_layers;
        lemma_fusion_count(num_layers, i);
        lemma_fusion_count(num_layers + 1, i);
    }
    assert(fusion_layers(num_layers + 1) =~= if is_fusion(num_layers) {
        fusion_layers(num_layers).push(num_layers)
    } else {
        fusion_layers(num_layers)
    });
}

/// The fusion layers of a model of `num_layers` layers, in rising order.
pub fn fibonacci_fusion_layers(num_layers: usize) -> (r: Vec<usize>)
    ensures
        r@.map_values(|n: usize| n as nat) == fusion_layers(num_layers as nat),
{
    let mut fibs: Vec<usize> = Vec::new();
    let mut a: usize = 2;
    let mut b: usize = 3;
    while a < num_layers
        invariant
            a == fusion(fibs@.len()),
            b == fusion(fibs@.len() + 1),
            fibs@.len() <= fusion_count(num_layers as nat),
            forall|k: int| 0 <= k < fibs@.len() ==> fibs@[k] == fusion(k as nat),
        decreases usize::MAX - a,
    {
        let ghost n = fibs@.len();
        proof {
            lemma_fusion_rises(n, n + 1);
            lemma_fusion_count(num_layers as nat, n);
        }
        fibs.push(a);
        match a.checked_add(b) {
            Some(next) => {
                a = b;
                b = next;
            },
            None => {
                proof {
                    lemma_fusion_count(num_layers as nat, n + 1);
                    lemma_fusion_count(num_layers as nat, n + 2);
                }
                if b < num_layers {
                    fibs.push(b);
                }
                assert(fibs@.map_values(|n: usize| n as nat) =~= fusion_layers(num_layers as nat));
                return fibs;
            },
        }
    }
    proof {
        lemma_fusion_count(num_layers as nat, fibs@.len());
    }
    assert(fibs@.map_values(|n: usize| n as nat) =~= fusion_layers(num_layers as nat));
    fibs
}

/// The fusion layers are the Fibonacci numbers from 2 on, and a model has just those that lie below its
/// depth, rising.
pub proof fn law_fusion_layers_are_fibonacci(num_layers: nat, k: nat)
    ensures
        fusion(0) == 2,
        fusion(1) == 3,
        fusion(k + 2) == fusion(k + 1) + fusion(k),
        fusion(k) < num_layers ==> k < fusion_layers(num_layers).len() && fusion_layers(
            num_layers,
        )[k as int] == fusion(k),
        k < fusion_layers(num_layers).len() ==> fusion_layers(num_layers)[k as int] == fusion(k)
            && fusion(k) < num_layers,
{
    lemma_fusion_count(num_layers, k);
}

} // verus!
