use vstd::prelude::*;

use rand::Rng;

use crate::matrix::Matrix;

verus! {

/// Weights and biases are held in thousandths: a stored `k` stands for the
/// real number `k / 1000`.
pub const WEIGHT_SCALE: i32 = 1000;

/// Whether `x`, in thousandths, lies in `[-1, 1)`: the range that the random
/// initial weights and biases are drawn from.
pub open spec fn in_draw_range(x: i32) -> bool {
    -WEIGHT_SCALE <= x < WEIGHT_SCALE
}

/// Relies on rand's `thread_rng` and `Rng::gen_range`, which returns a value
/// inside the half-open range `lo..hi` (and panics when it is empty).
#[verifier::external_body]
fn draw_in(lo: i32, hi: i32) -> (r: i32)
    requires
        lo < hi,
    ensures
        lo <= r < hi,
{
    rand::thread_rng().gen_range(lo..hi)
}

/// A `rows` by `cols` matrix of independently drawn weights.
fn random_matrix(rows: usize, cols: usize) -> (r: Matrix<i32>)
    requires
        rows * cols <= usize::MAX,
    ensures
        r.wf(),
        r.rows() == rows,
        r.cols() == cols,
        forall|i: int, j: int| r.in_range(i, j) ==> in_draw_range(#[trigger] r.at(i, j)),
{
    let n: usize = rows * cols;
    let v = random_vector(n);
    let r = Matrix::from_row_major(rows, cols, v);
    assert forall|i: int, j: int| r.in_range(i, j) implies in_draw_range(#[trigger] r.at(i, j)) by {
        crate::matrix::lemma_index_in_bounds(rows as int, cols as int, i, j);
    }
    r
}

/// A vector of `n` independently drawn biases.
fn random_vector(n: usize) -> (r: Vec<i32>)
    ensures
        r@.len() == n,
        forall|k: int| 0 <= k < n ==> in_draw_range(#[trigger] r@[k]),
{
    let mut v: Vec<i32> = Vec::with_capacity(n);
    let mut k: usize = 0;
    while k < n
        invariant
            k <= n,
            v@.len() == k,
            forall|m: int| 0 <= m < k ==> in_draw_range(#[trigger] v@[m]),
        decreases n - k,
    {
        v.push(draw_in(-WEIGHT_SCALE, WEIGHT_SCALE));
        k = k + 1;
    }
    v
}

/// One layer of a network. A layer owns the next layer of the chain, and,
/// once it is linked, the weights and biases of the affine step that maps its
/// own activations to the next width.
#[derive(Debug)]
pub struct Layer {
    weights: Option<Matrix<i32>>,
    biases: Option<Vec<i32>>,
    next: Option<Box<Layer>>,
    size: usize,
}

/// Whether `w` and `b` are weights and biases, in thousandths, of an affine
/// step from `from` activations to `to` activations.
pub open spec fn is_transform(w: Matrix<i32>, b: Seq<i32>, from: nat, to: nat) -> bool {
    &&& w.wf()
    &&& w.rows() == to
    &&& w.cols() == from
    &&& b.len() == to
    &&& forall|i: int, j: int| w.in_range(i, j) ==> in_draw_range(#[trigger] w.at(i, j))
    &&& forall|i: int| 0 <= i < to ==> in_draw_range(#[trigger] b[i])
}

impl Layer {
    /// The width of the layer's own activation vector.
    pub closed spec fn width(&self) -> nat {
        self.size as nat
    }

    /// Whether the layer carries weights and biases.
    pub closed spec fn linked(&self) -> bool {
        self.weights is Some && self.biases is Some
    }

    /// The next layer of the chain, if any.
    pub closed spec fn successor(&self) -> Option<Box<Layer>> {
        self.next
    }

    /// The weights, in thousandths (meaningful when the layer is linked).
    pub closed spec fn weight_matrix(&self) -> Matrix<i32> {
        self.weights->0
    }

    /// The biases, in thousandths (meaningful when the layer is linked).
    pub closed spec fn bias_values(&self) -> Seq<i32> {
        self.biases->0@
    }

    /// The number of rows of the weights: the width this layer's affine step
    /// produces (meaningful when the layer is linked).
    pub closed spec fn transform_width(&self) -> nat {
        self.weights->0.rows()
    }

    /// The chain is well formed: every linked layer's weights and biases map
    /// its width to the width of what follows, a layer with a successor is
    /// linked, and a layer without one is either bare or designated as the
    /// output.
    pub closed spec fn wf(&self) -> bool
        decreases self,
    {
        match self.next {
            Some(n) => {
                &&& self.weights is Some
                &&& self.biases is Some
                &&& is_transform(
                    self.weights->0,
                    self.biases->0@,
                    self.size as nat,
                    n.size as nat,
                )
                &&& n.wf()
            },
            None => match (self.weights, self.biases) {
                (Some(w), Some(b)) => is_transform(w, b@, self.size as nat, w.rows()),
                (None, None) => true,
                _ => false,
            },
        }
    }

    /// Every layer from this one to the end of the chain carries weights and
    /// biases, so that no layer of it refuses to compute for want of them.
    pub closed spec fn chain_linked(&self) -> bool
        decreases self,
    {
        &&& self.linked()
        &&& match self.next {
            Some(n) => n.chain_linked(),
            None => true,
        }
    }

    /// The widths of the activation vectors along the chain, from this
    /// layer's input to the width the chain finally produces.
    pub closed spec fn widths(&self) -> Seq<nat>
        decreases self,
    {
        match self.next {
            Some(n) => seq![self.size as nat] + n.widths(),
            None => match self.weights {
                Some(w) => seq![self.size as nat, w.rows()],
                None => seq![self.size as nat],
            },
        }
    }
}

impl Layer {
    /// A fully linked chain starts with a linked layer.
    pub proof fn lemma_chain_linked_head(&self)
        ensures
            self.chain_linked() ==> self.linked(),
    {
    }

    /// The chain's widths start with the layer's own width.
    pub proof fn lemma_widths_start(&self)
        ensures
            self.widths().len() >= 1,
            self.widths()[0] == self.width(),
    {
        match self.next {
            Some(n) => {},
            None => {},
        }
    }
}

/// Why a layer cannot compute on an activation vector. Both are defects of
/// construction or of the caller, not conditions to recover from.
#[derive(Debug, PartialEq, Eq, Clone, Copy)]
pub enum ComputeError {
    /// The vector's length is not the layer's width.
    SizeMismatch { expected: usize, found: usize },
    /// The layer has no weights and biases to transform with.
    NotLinked,
}

impl Layer {
    /// What checking a vector of length `len` at this layer gives.
    pub open spec fn input_check(&self, len: nat) -> Result<(), ComputeError> {
        if len != self.width() {
            Err(ComputeError::SizeMismatch { expected: self.width() as usize, found: len as usize })
        } else if !self.linked() {
            Err(ComputeError::NotLinked)
        } else {
            Ok(())
        }
    }
}

/// A layer that was never linked nor designated as the output refuses to
/// compute on a vector of its own width, and every layer refuses a vector of
/// another width.
pub proof fn lemma_bare_layer_refuses(l: Layer, len: nat)
    requires
        !l.linked(),
    ensures
        l.input_check(len) is Err,
        len == l.width() ==> l.input_check(len) == Err::<(), ComputeError>(ComputeError::NotLinked),
{
}

/// # Constructors
impl Layer {
    /// A bare layer of width `size`: no weights, no biases, no successor.
    pub fn new(size: usize) -> (r: Self)
        ensures
            r.wf(),
            r.width() == size,
            !r.linked(),
            r.successor() is None,
            r.widths() == seq![size as nat],
    {
        Layer { weights: None, biases: None, next: None, size }
    }
}

/// # Associated functions
impl Layer {
    /// The width of the layer's own activation vector.
    pub fn get_size(&self) -> (r: usize)
        ensures
            r == self.width(),
    {
        self.size
    }

    /// Make `next` the successor of `self`, with fresh random weights of
    /// shape `(next width, own width)` and biases of the next width. Whatever
    /// followed `self` before is dropped.
    pub fn link(&mut self, next: Box<Self>)
        requires
            next.wf(),
            next.width() * old(self).width() <= usize::MAX,
        ensures
            final(self).wf(),
            final(self).linked(),
            final(self).chain_linked() == next.chain_linked(),
            final(self).width() == old(self).width(),
            final(self).successor() == Some(next),
            final(self).widths() == seq![old(self).width()] + next.widths(),
            is_transform(
                final(self).weight_matrix(),
                final(self).bias_values(),
                old(self).width(),
                next.width(),
            ),
    {
        let to = next.get_size();
        let weights = random_matrix(to, self.size);
        let biases = random_vector(to);
        self.link_with(next, weights, biases);
    }

    /// Make `next` the successor of `self`, with the given weights and
    /// biases, in thousandths. Whatever followed `self` before is dropped.
    pub fn link_with(&mut self, next: Box<Self>, weights: Matrix<i32>, biases: Vec<i32>)
        requires
            next.wf(),
            is_transform(weights, biases@, old(self).width(), next.width()),
        ensures
            final(self).wf(),
            final(self).linked(),
            final(self).chain_linked() == next.chain_linked(),
            final(self).width() == old(self).width(),
            final(self).successor() == Some(next),
            final(self).weight_matrix() == weights,
            final(self).bias_values() == biases@,
            final(self).widths() == seq![old(self).width()] + next.widths(),
    {
        self.weights = Some(weights);
        self.biases = Some(biases);
        self.next = Some(next);
    }

    /// Make `self` the last layer that transforms: fresh random weights of
    /// shape `(out_size, own width)` and biases of length `out_size`.
    pub fn set_out(&mut self, out_size: usize)
        requires
            old(self).successor() is None,
            out_size * old(self).width() <= usize::MAX,
        ensures
            final(self).wf(),
            final(self).linked(),
            final(self).chain_linked(),
            final(self).width() == old(self).width(),
            final(self).successor() is None,
            final(self).transform_width() == out_size,
            final(self).widths() == seq![old(self).width(), out_size as nat],
            is_transform(
                final(self).weight_matrix(),
                final(self).bias_values(),
                old(self).width(),
                out_size as nat,
            ),
    {
        let weights = random_matrix(out_size, self.size);
        let biases = random_vector(out_size);
        self.set_out_with(weights, biases);
    }

    /// Make `self` the last layer that transforms, with the given weights
    /// and biases, in thousandths: the output width is their number of rows.
    pub fn set_out_with(&mut self, weights: Matrix<i32>, biases: Vec<i32>)
        requires
            old(self).successor() is None,
            is_transform(weights, biases@, old(self).width(), weights.rows()),
        ensures
            final(self).wf(),
            final(self).linked(),
            final(self).chain_linked(),
            final(self).width() == old(self).width(),
            final(self).successor() is None,
            final(self).weight_matrix() == weights,
            final(self).bias_values() == biases@,
            final(self).transform_width() == weights.rows(),
            final(self).widths() == seq![old(self).width(), weights.rows()],
    {
        self.weights = Some(weights);
        self.biases = Some(biases);
    }

    /// Whether the layer carries weights and biases, so that it can
    /// transform its input.
    pub fn is_linked(&self) -> (r: bool)
        ensures
            r == self.linked(),
    {
        self.weights.is_some() && self.biases.is_some()
    }

    /// Whether the layer can transform an activation vector of length `len`:
    /// its width must be `len`, and it must carry weights and biases.
    pub fn check_input(&self, len: usize) -> (r: Result<(), ComputeError>)
        ensures
            r == self.input_check(len as nat),
    {
        if len != self.size {
            Err(ComputeError::SizeMismatch { expected: self.size, found: len })
        } else if !self.is_linked() {
            Err(ComputeError::NotLinked)
        } else {
            Ok(())
        }
    }

    /// The weights in thousandths, row `r` being the weights into activation
    /// `r` of the next width, if the layer is linked.
    pub fn weights(&self) -> (r: Option<&Matrix<i32>>)
        requires
            self.wf(),
        ensures
            r is Some <==> self.linked(),
            r matches Some(w) ==> *w == self.weight_matrix(),
            self.linked() ==> is_transform(
                self.weight_matrix(),
                self.bias_values(),
                self.width(),
                self.transform_width(),
            ),
    {
        match &self.weights {
            Some(w) => Some(w),
            None => None,
        }
    }

    /// The biases in thousandths, if the layer is linked.
    pub fn biases(&self) -> (r: Option<&Vec<i32>>)
        requires
            self.wf(),
        ensures
            r is Some <==> self.linked(),
            r matches Some(b) ==> b@ == self.bias_values(),
            self.linked() ==> is_transform(
                self.weight_matrix(),
                self.bias_values(),
                self.width(),
                self.transform_width(),
            ),
    {
        match &self.biases {
            Some(b) => Some(b),
            None => None,
        }
    }

    /// The next layer of the chain, if any.
    pub fn next(&self) -> (r: Option<&Layer>)
        requires
            self.wf(),
        ensures
            r matches Some(n) ==> self.successor() == Some(Box::new(*n)) && n.wf() && (self.chain_linked()
                ==> n.chain_linked()),
            r is None <==> self.successor() is None,
    {
        match &self.next {
            Some(n) => Some(&**n),
            None => None,
        }
    }

    /// The width of the vector the chain produces from this layer on: the
    /// last of `widths`.
    pub fn output_size(&self) -> (r: usize)
        requires
            self.wf(),
        ensures
            r == self.widths().last(),
        decreases self,
    {
        match &self.next {
            Some(n) => {
                let r = n.output_size();
                proof {
                    assert((seq![self.size as nat] + n.widths()).last() == n.widths().last());
                }
                r
            },
            None => match &self.weights {
                Some(w) => w.get_size_i(),
                None => self.size,
            },
        }
    }
}

} // verus!
