use vstd::prelude::*;

/// The layers a network is made of.
pub mod layer;

use layer::{ComputeError, Layer};

verus! {

/// The widths of the activation vectors of a network with an `in_size`
/// input, the given hidden widths and an `out_size` output, in order.
pub open spec fn layout(in_size: usize, hidden_sizes: Seq<usize>, out_size: usize) -> Seq<nat> {
    seq![in_size as nat] + hidden_sizes.map_values(|h: usize| h as nat) + seq![out_size as nat]
}

/// A layout starts with the input width, ends with the output width, and
/// has one width more than there are transforms: one for each hidden width,
/// plus the output.
pub proof fn lemma_layout_ends(in_size: usize, hidden_sizes: Seq<usize>, out_size: usize)
    ensures
        layout(in_size, hidden_sizes, out_size).len() == hidden_sizes.len() + 2,
        layout(in_size, hidden_sizes, out_size)[0] == in_size as nat,
        layout(in_size, hidden_sizes, out_size).last() == out_size as nat,
        forall|k: int|
            0 <= k < hidden_sizes.len() ==> #[trigger] layout(in_size, hidden_sizes, out_size)[k + 1]
                == hidden_sizes[k] as nat,
{
}

/// Every width is positive, and each weight matrix, of two neighbouring
/// widths, fits in memory.
pub open spec fn valid_layout(ws: Seq<nat>) -> bool {
    &&& forall|k: int| 0 <= k < ws.len() ==> #[trigger] ws[k] >= 1
    &&& forall|k: int| 0 <= k < ws.len() - 1 ==> #[trigger] ws[k] * ws[k + 1] <= usize::MAX
}

/// Whether `Network::new` accepts this layout: every width is positive and
/// each weight matrix fits in memory.
pub fn is_valid_layout(in_size: usize, hidden_sizes: &[usize], out_size: usize) -> (r: bool)
    ensures
        r == valid_layout(layout(in_size, hidden_sizes@, out_size)),
{
    let ghost ws = layout(in_size, hidden_sizes@, out_size);
    let n: usize = hidden_sizes.len();
    if in_size == 0 {
        assert(ws[0] == 0);
        return false;
    }
    let mut prev: usize = in_size;
    let mut i: usize = 0;
    while i < n
        invariant
            n == hidden_sizes@.len(),
            ws == layout(in_size, hidden_sizes@, out_size),
            i <= n,
            prev as nat == ws[i as int],
            forall|m: int| 0 <= m <= i ==> #[trigger] ws[m] >= 1,
            forall|m: int| 0 <= m < i ==> #[trigger] ws[m] * ws[m + 1] <= usize::MAX,
        decreases n - i,
    {
        let h = hidden_sizes[i];
        assert(ws[i + 1] == h as nat);
        if h == 0 {
            return false;
        }
        if prev.checked_mul(h).is_none() {
            assert(ws[i as int] * ws[i + 1] > usize::MAX);
            return false;
        }
        prev = h;
        i = i + 1;
    }
    assert(ws[n + 1] == out_size as nat);
    if out_size == 0 {
        return false;
    }
    if prev.checked_mul(out_size).is_none() {
        assert(ws[n as int] * ws[n + 1] > usize::MAX);
        return false;
    }
    true
}

/// A feed-forward neural network: a chain of layers, owned from the input
/// layer on.
#[derive(Debug)]
pub struct Network {
    input: Layer,
}

/// # Constructors
impl Network {
    /// Return a new network with an `in_size` wide input layer, one hidden
    /// layer for each of `hidden_sizes`, in order, and an `out_size` wide
    /// output.
    pub fn new(in_size: usize, hidden_sizes: &[usize], out_size: usize) -> (r: Self)
        requires
            valid_layout(layout(in_size, hidden_sizes@, out_size)),
        ensures
            r.wf(),
            r.fully_linked(),
            r.widths() == layout(in_size, hidden_sizes@, out_size),
    {
        let ghost ws = layout(in_size, hidden_sizes@, out_size);
        let n = hidden_sizes.len();
        let last = if n == 0 {
            in_size
        } else {
            hidden_sizes[n - 1]
        };
        let mut tail = Layer::new(last);
        proof {
            assert(ws[n as int] == last as nat);
            assert(ws[n + 1] == out_size as nat);
            let (a, b) = (ws[n as int], ws[n + 1]);
            assert(a * b <= usize::MAX);
            assert(b * a == a * b) by (nonlinear_arith);
        }
        tail.set_out(out_size);
        proof {
            assert(tail.widths() =~= ws.subrange(n as int, n + 2));
        }
        let mut k: usize = n;
        while k > 0
            invariant
                k <= n,
                n == hidden_sizes@.len(),
                ws == layout(in_size, hidden_sizes@, out_size),
                valid_layout(ws),
                tail.wf(),
                tail.chain_linked(),
                tail.widths() == ws.subrange(k as int, n + 2),
            decreases k,
        {
            let size = if k == 1 {
                in_size
            } else {
                hidden_sizes[k - 2]
            };
            let mut layer = Layer::new(size);
            proof {
                assert(ws[k - 1] == size as nat);
                tail.lemma_widths_start();
                assert(tail.width() == ws[k as int]);
                let (a, b) = (ws[k - 1], ws[k as int]);
                assert(a * b <= usize::MAX);
                assert(b * a == a * b) by (nonlinear_arith);
            }
            layer.link(Box::new(tail));
            proof {
                assert(layer.widths() =~= ws.subrange(k - 1, n + 2));
            }
            tail = layer;
            k = k - 1;
        }
        proof {
            assert(ws.subrange(0, n + 2) =~= ws);
        }
        Network { input: tail }
    }
}

impl Network {
    /// Like `new`, but a layout that `new` does not accept (a zero width, or
    /// a weight matrix too large for memory) is reported as `None`.
    pub fn try_new(in_size: usize, hidden_sizes: &[usize], out_size: usize) -> (r: Option<Self>)
        ensures
            r is Some <==> valid_layout(layout(in_size, hidden_sizes@, out_size)),
            r matches Some(n) ==> n.wf() && n.fully_linked() && n.widths() == layout(
                in_size,
                hidden_sizes@,
                out_size,
            ),
    {
        if is_valid_layout(in_size, hidden_sizes, out_size) {
            Some(Network::new(in_size, hidden_sizes, out_size))
        } else {
            None
        }
    }

    /// The chain is well formed.
    pub closed spec fn wf(&self) -> bool {
        self.input.wf()
    }

    /// Every layer carries weights and biases.
    pub closed spec fn fully_linked(&self) -> bool {
        self.input.chain_linked()
    }

    /// The widths of the activation vectors along the network, from the
    /// input to the output.
    pub closed spec fn widths(&self) -> Seq<nat> {
        self.input.widths()
    }

    /// The input layer, which owns the rest of the chain.
    pub fn input(&self) -> (r: &Layer)
        requires
            self.wf(),
        ensures
            r.wf(),
            r.chain_linked() == self.fully_linked(),
            r.widths() == self.widths(),
    {
        &self.input
    }

    /// The width of the vectors the network takes.
    pub fn input_size(&self) -> (r: usize)
        ensures
            r == self.widths()[0],
    {
        proof {
            self.input.lemma_widths_start();
        }
        self.input.get_size()
    }

    /// Whether the network can compute on an activation vector of length
    /// `len`: on a network that `new` built, exactly when `len` is the input
    /// width.
    pub fn check_input(&self, len: usize) -> (r: Result<(), ComputeError>)
        ensures
            len != self.widths()[0] ==> r == Err::<(), ComputeError>(
                ComputeError::SizeMismatch { expected: self.widths()[0] as usize, found: len },
            ),
            len == self.widths()[0] && self.fully_linked() ==> r is Ok,
            len == self.widths()[0] && r is Err ==> r == Err::<(), ComputeError>(ComputeError::NotLinked),
    {
        proof {
            self.input.lemma_widths_start();
            self.input.lemma_chain_linked_head();
        }
        self.input.check_input(len)
    }

    /// The width of the vectors the network produces.
    pub fn output_size(&self) -> (r: usize)
        requires
            self.wf(),
        ensures
            r == self.widths().last(),
    {
        self.input.output_size()
    }
}

} // verus!
