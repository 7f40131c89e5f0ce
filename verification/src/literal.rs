//! Literal values and the arithmetic that the lowering rules stand for.

use vstd::prelude::*;
use crate::types::{Category, Operator, TypeDescriptor};

verus! {

/// A value held in the host process: its shape and its components, a
/// matrix in row-major order.
#[derive(Debug)]
pub struct Literal {
    pub ty: TypeDescriptor,
    pub data: Vec<i32>,
}

impl Literal {
    /// The shape is well formed and there is one component per position.
    pub open spec fn well_formed(self) -> bool {
        &&& self.ty.well_formed()
        &&& self.data@.len() == self.ty.component_count()
    }

    /// Checks that the shape is well formed and fits the components.
    pub fn is_well_formed(&self) -> (r: bool)
        ensures
            r == self.well_formed(),
    {
        if !self.ty.is_well_formed() {
            return false;
        }
        let len = self.data.len() as u64;
        match (self.ty.category, self.ty.size) {
            (Category::Vector, Some(n)) => len == n as u64,
            (Category::Matrix, Some(n)) => {
                let side = n as u64;
                assert(side * side <= u64::MAX) by (nonlinear_arith)
                    requires
                        0 <= side <= 0xffff_ffff,
                ;
                len == side * side
            },
            _ => len == 1,
        }
    }

    /// Builds a literal, refusing a malformed shape and components that
    /// do not fit it.
    pub fn new(ty: TypeDescriptor, data: Vec<i32>) -> (r: Option<Literal>)
        ensures
            r is Some <==> (Literal { ty, data }).well_formed(),
            r is Some ==> r->0 == (Literal { ty, data }),
    {
        let literal = Literal { ty, data };
        if literal.is_well_formed() {
            Some(literal)
        } else {
            None
        }
    }
}

/// One scalar operation on host integers. Sums, differences and products
/// wrap around; a quotient is absent where the divisor is zero or the
/// quotient does not fit.
pub open spec fn scalar_op(op: Operator, a: i32, b: i32) -> Option<i32> {
    match op {
        Operator::Add => Some(a.wrapping_add(b)),
        Operator::Subtract => Some(a.wrapping_sub(b)),
        Operator::Multiply => Some(a.wrapping_mul(b)),
        Operator::Divide => a.checked_div(b),
    }
}

/// Component `i` of an operand: a lone component stands at every position.
pub open spec fn component(data: Seq<i32>, i: int) -> i32 {
    if data.len() == 1 {
        data[0]
    } else {
        data[i]
    }
}

/// Whether the operator has a result at each of the first `count` positions.
pub open spec fn componentwise_defined(op: Operator, left: Seq<i32>, right: Seq<i32>, count: int) -> bool {
    forall|i: int|
        0 <= i < count ==> (#[trigger] scalar_op(op, component(left, i), component(right, i))) is Some
}

/// The operator applied position by position, over `count` positions.
pub open spec fn componentwise(op: Operator, left: Seq<i32>, right: Seq<i32>, count: int) -> Seq<i32> {
    Seq::new(count as nat, |i: int| scalar_op(op, component(left, i), component(right, i))->0)
}

/// Row `i` of a square matrix of dimension `n`, given row-major.
pub open spec fn row(matrix: Seq<i32>, n: int, i: int) -> Seq<i32> {
    Seq::new(n as nat, |k: int| matrix[i * n + k])
}

/// Column `j` of a square matrix of dimension `n`, given row-major.
pub open spec fn column(matrix: Seq<i32>, n: int, j: int) -> Seq<i32> {
    Seq::new(n as nat, |k: int| matrix[k * n + j])
}

/// The sum of the products of the components at equal positions, in host
/// arithmetic: sums and products wrap around.
pub open spec fn dot(a: Seq<i32>, b: Seq<i32>) -> i32
    decreases a.len(),
{
    if a.len() == 0 || b.len() == 0 {
        0i32
    } else {
        dot(a.drop_last(), b.drop_last()).wrapping_add(a.last().wrapping_mul(b.last()))
    }
}

/// The sum of the products of the components at equal positions, over
/// the integers.
pub open spec fn exact_dot(a: Seq<i32>, b: Seq<i32>) -> int
    decreases a.len(),
{
    if a.len() == 0 || b.len() == 0 {
        0
    } else {
        exact_dot(a.drop_last(), b.drop_last()) + a.last() * b.last()
    }
}

/// Whether an integer is a host integer.
pub open spec fn fits(x: int) -> bool {
    i32::MIN <= x <= i32::MAX
}

/// Whether every product and every partial sum of the exact dot product
/// is a host integer.
pub open spec fn dot_fits(a: Seq<i32>, b: Seq<i32>) -> bool
    decreases a.len(),
{
    a.len() == 0 || b.len() == 0 || {
        &&& dot_fits(a.drop_last(), b.drop_last())
        &&& fits(a.last() * b.last())
        &&& fits(exact_dot(a, b))
    }
}

/// The product of two square matrices of dimension `n`, row-major: the
/// entry in row `i` and column `j` is row `i` of the left matrix times
/// column `j` of the right one.
pub open spec fn matrix_product_of(left: Seq<i32>, right: Seq<i32>, n: int) -> Seq<i32> {
    Seq::new((n * n) as nat, |p: int| dot(row(left, n, p / n), column(right, n, p % n)))
}

/// The product of a vector of `n` components and a square matrix of
/// dimension `n`: component `i` is the vector times row `i` of the matrix.
pub open spec fn vector_matrix_product_of(vector: Seq<i32>, matrix: Seq<i32>, n: int) -> Seq<i32> {
    Seq::new(n as nat, |i: int| dot(vector, row(matrix, n, i)))
}

/// Where the sum, difference or product over the integers is a host
/// integer, the scalar operation yields it; a quotient is absent exactly
/// for a zero divisor and for the least integer divided by minus one.
pub proof fn lemma_scalar_op_is_exact(op: Operator, a: i32, b: i32)
    ensures
        op == Operator::Add && fits(a + b) ==> scalar_op(op, a, b) == Some((a + b) as i32),
        op == Operator::Subtract && fits(a - b) ==> scalar_op(op, a, b) == Some((a - b) as i32),
        op == Operator::Multiply && fits(a * b) ==> scalar_op(op, a, b) == Some((a * b) as i32),
        op == Operator::Divide ==> (scalar_op(op, a, b) is None <==> b == 0 || (a == i32::MIN && b
            == -1)),
        op != Operator::Divide ==> scalar_op(op, a, b) is Some,
{
    if op == Operator::Divide && b != 0 {
        let x = a as int;
        let d = b as int;
        if x > 0 && d > 0 {
            assert(0 <= x / d <= x) by (nonlinear_arith)
                requires
                    x > 0,
                    d > 0,
            ;
        } else if x < 0 && d < 0 {
            assert(0 <= (x * -1) / (d * -1) <= x * -1) by (nonlinear_arith)
                requires
                    x < 0,
                    d < 0,
            ;
            if d < -1 {
                assert((x * -1) / (d * -1) < x * -1) by (nonlinear_arith)
                    requires
                        x < 0,
                        d < -1,
                ;
            } else {
                assert((x * -1) / (d * -1) == x * -1) by (nonlinear_arith)
                    requires
                        d == -1,
                ;
            }
        } else if x < 0 {
            assert(0 <= (x * -1) / d <= x * -1) by (nonlinear_arith)
                requires
                    x < 0,
                    d > 0,
            ;
        } else if x > 0 {
            assert(0 <= x / (d * -1) <= x) by (nonlinear_arith)
                requires
                    x > 0,
                    d < 0,
            ;
        }
    }
}

/// Where nothing overflows, the dot product in host arithmetic is the
/// dot product over the integers.
pub proof fn lemma_dot_is_exact(a: Seq<i32>, b: Seq<i32>)
    requires
        dot_fits(a, b),
    ensures
        dot(a, b) == exact_dot(a, b),
    decreases a.len(),
{
    if a.len() != 0 && b.len() != 0 {
        lemma_dot_is_exact(a.drop_last(), b.drop_last());
    }
}

/// Multiplying position by position does not depend on the order of the
/// operands, so a scalar times a vector is the vector times the scalar.
pub proof fn lemma_componentwise_product_commutes(left: Seq<i32>, right: Seq<i32>, count: int)
    ensures
        componentwise(Operator::Multiply, left, right, count) == componentwise(
            Operator::Multiply,
            right,
            left,
            count,
        ),
        componentwise_defined(Operator::Multiply, left, right, count),
{
    assert forall|i: int| 0 <= i < count implies scalar_op(
        Operator::Multiply,
        component(left, i),
        component(right, i),
    ) == scalar_op(Operator::Multiply, component(right, i), component(left, i)) by {
        let a = component(left, i);
        let b = component(right, i);
        assert(a * b == b * a) by (nonlinear_arith);
    }
    assert(componentwise(Operator::Multiply, left, right, count) =~= componentwise(
        Operator::Multiply,
        right,
        left,
        count,
    ));
}

/// Position `a * n + b` lies in row `a` of a row-major square of dimension `n`.
proof fn lemma_row_major_bound(n: int, a: int, b: int)
    requires
        0 <= a < n,
        0 <= b < n,
    ensures
        0 <= a * n + b < n * n,
        0 <= a * n,
{
    assert(a * n + n <= n * n) by (nonlinear_arith)
        requires
            0 <= a < n,
    ;
    assert(0 <= a * n) by (nonlinear_arith)
        requires
            0 <= a,
            0 <= n,
    ;
}

/// A position below `n * n` splits into a row and a column below `n`.
proof fn lemma_row_major_split(n: int, p: int)
    requires
        0 < n,
        0 <= p < n * n,
    ensures
        0 <= p / n < n,
        0 <= p % n < n,
{
    assert(0 <= p / n < n && 0 <= p % n < n) by (nonlinear_arith)
        requires
            0 < n,
            0 <= p < n * n,
    ;
}

/// Applies one scalar operation.
pub fn apply_scalar(op: Operator, a: i32, b: i32) -> (r: Option<i32>)
    ensures
        r == scalar_op(op, a, b),
{
    match op {
        Operator::Add => Some(a.wrapping_add(b)),
        Operator::Subtract => Some(a.wrapping_sub(b)),
        Operator::Multiply => Some(a.wrapping_mul(b)),
        Operator::Divide => a.checked_div(b),
    }
}

/// Applies the operator position by position over `count` positions. An
/// operand of one component is combined with every component of the other.
pub fn combine_components(op: Operator, left: &Vec<i32>, right: &Vec<i32>, count: usize) -> (r: Option<Vec<i32>>)
    requires
        left@.len() == 1 || left@.len() == count,
        right@.len() == 1 || right@.len() == count,
    ensures
        r is Some <==> componentwise_defined(op, left@, right@, count as int),
        r is Some ==> r->0@ == componentwise(op, left@, right@, count as int),
{
    let mut out: Vec<i32> = Vec::new();
    let mut i: usize = 0;
    while i < count
        invariant
            0 <= i <= count,
            left@.len() == 1 || left@.len() == count,
            right@.len() == 1 || right@.len() == count,
            componentwise_defined(op, left@, right@, i as int),
            out@ =~= componentwise(op, left@, right@, i as int),
        decreases count - i,
    {
        let a = if left.len() == 1 { left[0] } else { left[i] };
        let b = if right.len() == 1 { right[0] } else { right[i] };
        match apply_scalar(op, a, b) {
            Some(value) => {
                out.push(value);
            },
            None => {
                proof {
                    assert(scalar_op(op, component(left@, i as int), component(right@, i as int)) is None);
                }
                return None;
            },
        }
        i = i + 1;
    }
    Some(out)
}

/// Multiplies two square matrices of dimension `n`, given row-major.
pub fn matrix_product(left: &Vec<i32>, right: &Vec<i32>, n: usize) -> (out: Vec<i32>)
    requires
        left@.len() == n * n,
        right@.len() == n * n,
    ensures
        out@ == matrix_product_of(left@, right@, n as int),
{
    let mut out: Vec<i32> = Vec::new();
    let total = left.len();
    let mut p: usize = 0;
    while p < total
        invariant
            0 <= p <= total,
            total == n * n,
            left@.len() == n * n,
            right@.len() == n * n,
            out@ =~= Seq::new(
                p as nat,
                |q: int| dot(row(left@, n as int, q / (n as int)), column(right@, n as int, q % (n as int))),
            ),
        decreases total - p,
    {
        proof {
            assert(n > 0) by (nonlinear_arith)
                requires
                    0 <= p < n * n,
            ;
            lemma_row_major_split(n as int, p as int);
        }
        let i = p / n;
        let j = p % n;
        let mut sum: i32 = 0;
        let mut k: usize = 0;
        while k < n
            invariant
                0 <= k <= n,
                0 <= i < n,
                0 <= j < n,
                n * n <= usize::MAX,
                left@.len() == n * n,
                right@.len() == n * n,
                sum == dot(
                    row(left@, n as int, i as int).take(k as int),
                    column(right@, n as int, j as int).take(k as int),
                ),
            decreases n - k,
        {
            proof {
                lemma_row_major_bound(n as int, i as int, k as int);
                lemma_row_major_bound(n as int, k as int, j as int);
                let a = row(left@, n as int, i as int);
                let b = column(right@, n as int, j as int);
                assert(a.take(k as int + 1).drop_last() =~= a.take(k as int));
                assert(b.take(k as int + 1).drop_last() =~= b.take(k as int));
            }
            sum = sum.wrapping_add(left[i * n + k].wrapping_mul(right[k * n + j]));
            k = k + 1;
        }
        proof {
            let a = row(left@, n as int, i as int);
            let b = column(right@, n as int, j as int);
            assert(a.take(n as int) =~= a);
            assert(b.take(n as int) =~= b);
        }
        out.push(sum);
        p = p + 1;
    }
    out
}

/// Multiplies a vector of `n` components by a square matrix of dimension
/// `n`, given row-major.
pub fn vector_matrix_product(vector: &Vec<i32>, matrix: &Vec<i32>, n: usize) -> (out: Vec<i32>)
    requires
        vector@.len() == n,
        matrix@.len() == n * n,
    ensures
        out@ == vector_matrix_product_of(vector@, matrix@, n as int),
{
    let mut out: Vec<i32> = Vec::new();
    let total = matrix.len();
    let mut i: usize = 0;
    while i < n
        invariant
            0 <= i <= n,
            total == n * n,
            vector@.len() == n,
            matrix@.len() == n * n,
            out@ =~= Seq::new(i as nat, |q: int| dot(vector@, row(matrix@, n as int, q))),
        decreases n - i,
    {
        let mut sum: i32 = 0;
        let mut k: usize = 0;
        while k < n
            invariant
                0 <= k <= n,
                0 <= i < n,
                n * n <= usize::MAX,
                vector@.len() == n,
                matrix@.len() == n * n,
                sum == dot(vector@.take(k as int), row(matrix@, n as int, i as int).take(k as int)),
            decreases n - k,
        {
            proof {
                lemma_row_major_bound(n as int, i as int, k as int);
                let b = row(matrix@, n as int, i as int);
                assert(vector@.take(k as int + 1).drop_last() =~= vector@.take(k as int));
                assert(b.take(k as int + 1).drop_last() =~= b.take(k as int));
            }
            sum = sum.wrapping_add(vector[k].wrapping_mul(matrix[i * n + k]));
            k = k + 1;
        }
        proof {
            let b = row(matrix@, n as int, i as int);
            assert(vector@.take(n as int) =~= vector@);
            assert(b.take(n as int) =~= b);
        }
        out.push(sum);
        i = i + 1;
    }
    out
}

} // verus!
