use vstd::prelude::*;

verus! {

/// A 2 dimensional matrix containing items of type `T`, stored row-major in
/// one contiguous buffer.
#[derive(Debug)]
pub struct Matrix<T> {
    value: Vec<T>,
    size_i: usize,
    size_j: usize,
}

impl<T> Matrix<T> {
    /// The number of rows.
    pub closed spec fn rows(&self) -> nat {
        self.size_i as nat
    }

    /// The number of columns.
    pub closed spec fn cols(&self) -> nat {
        self.size_j as nat
    }

    /// The buffer holds exactly one slot per index pair.
    pub closed spec fn wf(&self) -> bool {
        self.value@.len() == self.size_i * self.size_j && self.size_i * self.size_j <= usize::MAX
    }

    /// The element at row `i`, column `j` (meaningful for `i < rows`, `j < cols`).
    pub closed spec fn at(&self, i: int, j: int) -> T {
        self.value@[i * self.size_j + j]
    }

    /// What `get(i, j)` reads: the element at row `i`, column `j`, or
    /// nothing when the index is out of range.
    pub open spec fn lookup(&self, i: int, j: int) -> Option<T> {
        if self.in_range(i, j) {
            Some(self.at(i, j))
        } else {
            None
        }
    }

    /// `self` is a `rows` by `cols` matrix whose every slot is a clone of `value`.
    pub open spec fn is_filled_with(&self, rows: nat, cols: nat, value: T) -> bool where T: Clone {
        &&& self.wf()
        &&& self.rows() == rows
        &&& self.cols() == cols
        &&& forall|i: int, j: int| self.in_range(i, j) ==> cloned(value, #[trigger] self.at(i, j))
    }

    /// `self` is the `n` by `n` identity matrix.
    pub open spec fn is_identity(&self, n: nat) -> bool where T: Identities {
        &&& self.wf()
        &&& self.rows() == n
        &&& self.cols() == n
        &&& forall|i: int, j: int| self.in_range(i, j) ==> #[trigger] self.at(i, j) == if i == j {
            T::spec_one()
        } else {
            T::spec_zero()
        }
    }

    /// `self` is `m` with the slot at row `i`, column `j` replaced by `x`.
    pub open spec fn is_update_of(&self, m: Self, i: int, j: int, x: T) -> bool {
        &&& self.wf()
        &&& self.rows() == m.rows()
        &&& self.cols() == m.cols()
        &&& self.at(i, j) == x
        &&& forall|a: int, b: int|
            #![trigger self.at(a, b)]
            self.in_range(a, b) && !(a == i && b == j) ==> self.at(a, b) == m.at(a, b)
    }

    /// Whether `(i, j)` names a slot of the matrix.
    pub open spec fn in_range(&self, i: int, j: int) -> bool {
        0 <= i < self.rows() && 0 <= j < self.cols()
    }
}

/// Row-major addressing maps every index pair in range to a distinct slot
/// inside a buffer of `rows * cols` slots.
pub proof fn lemma_index_in_bounds(rows: int, cols: int, i: int, j: int)
    requires
        0 <= i < rows,
        0 <= j < cols,
    ensures
        0 <= i * cols + j < rows * cols,
{
    assert(i * cols + j < rows * cols) by (nonlinear_arith)
        requires
            0 <= i < rows,
            0 <= j < cols,
    ;
    assert(0 <= i * cols) by (nonlinear_arith)
        requires
            0 <= i,
            0 <= j < cols,
    ;
}

/// Row-major addressing sends distinct index pairs in range to distinct slots.
pub proof fn lemma_index_injective(cols: int, i: int, j: int)
    requires
        0 <= j < cols,
    ensures
        forall|a: int, b: int|
            #![trigger a * cols + b]
            0 <= b < cols && !(a == i && b == j) ==> a * cols + b != i * cols + j,
{
    assert forall|a: int, b: int|
        #![trigger a * cols + b]
        0 <= b < cols && !(a == i && b == j) implies a * cols + b != i * cols + j by {
        if a == i {
        } else if a < i {
            assert(a * cols + b < i * cols + j) by (nonlinear_arith)
                requires
                    a < i,
                    0 <= b < cols,
                    0 <= j,
            ;
        } else {
            assert(a * cols + b > i * cols + j) by (nonlinear_arith)
                requires
                    a > i,
                    0 <= j < cols,
                    0 <= b,
            ;
        }
    }
}

/// Reading a filled matrix gives a clone of the fill value at every index in
/// range, and nothing at every index out of range.
pub proof fn lemma_filled_reads<T: Clone>(m: Matrix<T>, rows: nat, cols: nat, value: T, i: int, j: int)
    requires
        m.is_filled_with(rows, cols, value),
        0 <= i,
        0 <= j,
    ensures
        i < rows && j < cols ==> (m.lookup(i, j) matches Some(x) && cloned(value, x)),
        i >= rows || j >= cols ==> m.lookup(i, j) is None,
{
}

/// Reading the identity matrix of size `n` gives one on the diagonal and zero
/// elsewhere.
pub proof fn lemma_identity_reads<T: Identities>(m: Matrix<T>, n: nat, i: int, j: int)
    requires
        m.is_identity(n),
        0 <= i < n,
        0 <= j < n,
    ensures
        m.lookup(i, j) == Some(if i == j { T::spec_one() } else { T::spec_zero() }),
{
}

/// Scalars that have an additive and a multiplicative identity.
pub trait Identities: Sized {
    /// The additive identity.
    spec fn spec_zero() -> Self;

    /// The multiplicative identity.
    spec fn spec_one() -> Self;

    fn zero() -> (r: Self)
        ensures
            r == Self::spec_zero(),
    ;

    fn one() -> (r: Self)
        ensures
            r == Self::spec_one(),
    ;
}

impl Identities for i32 {
    open spec fn spec_zero() -> i32 {
        0
    }

    open spec fn spec_one() -> i32 {
        1
    }

    fn zero() -> (r: i32) {
        0
    }

    fn one() -> (r: i32) {
        1
    }
}

impl Identities for i64 {
    open spec fn spec_zero() -> i64 {
        0
    }

    open spec fn spec_one() -> i64 {
        1
    }

    fn zero() -> (r: i64) {
        0
    }

    fn one() -> (r: i64) {
        1
    }
}

impl Identities for u8 {
    open spec fn spec_zero() -> u8 {
        0
    }

    open spec fn spec_one() -> u8 {
        1
    }

    fn zero() -> (r: u8) {
        0
    }

    fn one() -> (r: u8) {
        1
    }
}

impl Identities for u32 {
    open spec fn spec_zero() -> u32 {
        0
    }

    open spec fn spec_one() -> u32 {
        1
    }

    fn zero() -> (r: u32) {
        0
    }

    fn one() -> (r: u32) {
        1
    }
}

impl Identities for u64 {
    open spec fn spec_zero() -> u64 {
        0
    }

    open spec fn spec_one() -> u64 {
        1
    }

    fn zero() -> (r: u64) {
        0
    }

    fn one() -> (r: u64) {
        1
    }
}

impl Identities for usize {
    open spec fn spec_zero() -> usize {
        0
    }

    open spec fn spec_one() -> usize {
        1
    }

    fn zero() -> (r: usize) {
        0
    }

    fn one() -> (r: usize) {
        1
    }
}

/// # Constructors
impl<T> Matrix<T> {
    /// Create a new `Matrix` filled with clones of `value`.
    pub fn new(size_i: usize, size_j: usize, value: T) -> (r: Self) where T: Clone
        requires
            size_i * size_j <= usize::MAX,
        ensures
            r.is_filled_with(size_i as nat, size_j as nat, value),
    {
        let n: usize = size_i * size_j;
        let mut v: Vec<T> = Vec::with_capacity(n);
        let mut k: usize = 0;
        while k < n
            invariant
                k <= n,
                v@.len() == k,
                forall|m: int| 0 <= m < k ==> cloned(value, #[trigger] v@[m]),
            decreases n - k,
        {
            v.push(value.clone());
            k = k + 1;
        }
        let r = Matrix { value: v, size_i, size_j };
        assert forall|i: int, j: int| r.in_range(i, j) implies cloned(value, #[trigger] r.at(i, j)) by {
            lemma_index_in_bounds(size_i as int, size_j as int, i, j);
        }
        r
    }

    /// Create a new `Matrix` in which every slot holds the type's default value.
    pub fn new_default(size_i: usize, size_j: usize) -> (r: Self) where T: Default
        requires
            size_i * size_j <= usize::MAX,
        ensures
            r.wf(),
            r.rows() == size_i,
            r.cols() == size_j,
            forall|i: int, j: int| r.in_range(i, j) ==> call_ensures(T::default, (), #[trigger] r.at(i, j)),
    {
        let n: usize = size_i * size_j;
        let mut v: Vec<T> = Vec::with_capacity(n);
        let mut k: usize = 0;
        while k < n
            invariant
                k <= n,
                v@.len() == k,
                forall|m: int| 0 <= m < k ==> call_ensures(T::default, (), #[trigger] v@[m]),
            decreases n - k,
        {
            v.push(T::default());
            k = k + 1;
        }
        let r = Matrix { value: v, size_i, size_j };
        assert forall|i: int, j: int| r.in_range(i, j) implies call_ensures(T::default, (), #[trigger] r.at(i, j)) by {
            lemma_index_in_bounds(size_i as int, size_j as int, i, j);
        }
        r
    }

    /// Create a new square identity `Matrix`: ones on the diagonal, zeros elsewhere.
    pub fn new_id(size: usize) -> (r: Self) where T: Identities
        requires
            size * size <= usize::MAX,
        ensures
            r.is_identity(size as nat),
    {
        let mut v: Vec<T> = Vec::with_capacity(size * size);
        let mut i: usize = 0;
        while i < size
            invariant
                i <= size,
                v@.len() == i * size,
                forall|a: int, b: int| 0 <= a < i && 0 <= b < size ==> #[trigger] v@[a * size + b] == if a == b {
                    T::spec_one()
                } else {
                    T::spec_zero()
                },
            decreases size - i,
        {
            let mut j: usize = 0;
            while j < size
                invariant
                    i < size,
                    j <= size,
                    v@.len() == i * size + j,
                    forall|a: int, b: int| 0 <= a < i && 0 <= b < size ==> #[trigger] v@[a * size + b] == if a == b {
                        T::spec_one()
                    } else {
                        T::spec_zero()
                    },
                    forall|b: int| 0 <= b < j ==> #[trigger] v@[i * size + b] == if i == b {
                        T::spec_one()
                    } else {
                        T::spec_zero()
                    },
                decreases size - j,
            {
                proof {
                    lemma_index_in_bounds(size as int, size as int, i as int, j as int);
                }
                if i == j {
                    v.push(T::one());
                } else {
                    v.push(T::zero());
                }
                proof {
                    assert forall|a: int, b: int| 0 <= a < i && 0 <= b < size implies #[trigger] v@[a * size + b] == if a == b {
                        T::spec_one()
                    } else {
                        T::spec_zero()
                    } by {
                        lemma_index_in_bounds(i as int, size as int, a, b);
                    }
                }
                j = j + 1;
            }
            proof {
                assert((i + 1) * size == i * size + size) by (nonlinear_arith);
                assert forall|a: int, b: int| 0 <= a < i + 1 && 0 <= b < size implies #[trigger] v@[a * size + b] == if a == b {
                    T::spec_one()
                } else {
                    T::spec_zero()
                } by {
                    if a == i {
                        assert(v@[i * size + b] == v@[a * size + b]);
                    }
                }
            }
            i = i + 1;
        }
        Matrix { value: v, size_i: size, size_j: size }
    }

    fn convert_index(&self, i: usize, j: usize) -> (r: usize)
        requires
            self.wf(),
            self.in_range(i as int, j as int),
        ensures
            r == i * self.cols() + j,
            r < self.value@.len(),
    {
        proof {
            lemma_index_in_bounds(self.size_i as int, self.size_j as int, i as int, j as int);
        }
        i * self.size_j + j
    }
}

impl<T> Matrix<T> {
    /// A matrix whose rows are read in order from `value`.
    pub(crate) fn from_row_major(size_i: usize, size_j: usize, value: Vec<T>) -> (r: Self)
        requires
            value@.len() == size_i * size_j,
        ensures
            r.wf(),
            r.rows() == size_i,
            r.cols() == size_j,
            forall|i: int, j: int| r.in_range(i, j) ==> #[trigger] r.at(i, j) == value@[i * size_j + j],
    {
        proof {
            assert(value.len() == value@.len());
        }
        Matrix { value, size_i, size_j }
    }
}

/// # Getters and setters
impl<T> Matrix<T> {
    /// A reference to the value at row `i`, column `j`, or `None` when the
    /// index is out of range.
    pub fn get(&self, i: usize, j: usize) -> (r: Option<&T>)
        requires
            self.wf(),
        ensures
            match r {
                Some(x) => self.lookup(i as int, j as int) == Some(*x),
                None => self.lookup(i as int, j as int) is None,
            },
    {
        if self.check_index(i, j) {
            let k = self.convert_index(i, j);
            Some(&self.value[k])
        } else {
            None
        }
    }

    /// A mutable reference to the value at row `i`, column `j`, or `None`
    /// when the index is out of range. Writing through it changes that slot
    /// alone.
    pub fn get_mut(&mut self, i: usize, j: usize) -> (r: Option<&mut T>)
        requires
            old(self).wf(),
        ensures
            old(self).in_range(i as int, j as int) <==> r is Some,
            match r {
                Some(e) => *e == old(self).at(i as int, j as int) && final(self).is_update_of(
                    *old(self),
                    i as int,
                    j as int,
                    *final(e),
                ),
                None => *final(self) == *old(self),
            },
    {
        if self.check_index(i, j) {
            let k = self.convert_index(i, j);
            proof {
                lemma_index_injective(self.size_j as int, i as int, j as int);
                assert forall|v: Seq<T>, x: T, a: int, b: int|
                    v.len() == self.size_i * self.size_j && 0 <= a < self.size_i && 0 <= b < self.size_j
                        && !(a == i && b == j) implies #[trigger] v.update(k as int, x)[a * self.size_j
                    + b] == v[a * self.size_j + b] by {
                    lemma_index_in_bounds(self.size_i as int, self.size_j as int, a, b);
                    assert(a * self.size_j + b != k);
                }
            }
            Some(&mut self.value[k])
        } else {
            None
        }
    }

    /// The number of rows of `self`.
    pub fn get_size_i(&self) -> (r: usize)
        ensures
            r == self.rows(),
    {
        self.size_i
    }

    /// The number of columns of `self`.
    pub fn get_size_j(&self) -> (r: usize)
        ensures
            r == self.cols(),
    {
        self.size_j
    }

    /// Whether there is a value at row `i`, column `j`.
    pub fn check_index(&self, i: usize, j: usize) -> (r: bool)
        ensures
            r == self.in_range(i as int, j as int),
    {
        i < self.size_i && j < self.size_j
    }
}

/// The errors that matrix and vector arithmetic reports.
#[derive(Debug, PartialEq, Eq)]
pub enum Error {
    /// The operands of an addition do not have the same shape.
    Addition,
}

impl Error {
    /// A sentence that describes the error.
    pub fn message(&self) -> (r: &'static str)
        ensures
            r@ == self.spec_message(),
    {
        match self {
            Error::Addition => "You cannot add these two matrices",
        }
    }

    /// The sentence that `message` returns.
    pub open spec fn spec_message(&self) -> Seq<char> {
        match self {
            Error::Addition => "You cannot add these two matrices"@,
        }
    }
}

} // verus!
