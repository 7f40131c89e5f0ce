//! The operator dispatch engine: which operator applications are defined,
//! what shape they produce and how they are lowered.

use vstd::prelude::*;
use crate::types::{Category, ElementType, LoweringRule, Operand, Operator, Resolution, TypeDescriptor};

verus! {

/// Lowering of an operator applied to two operands of one and the same shape.
pub open spec fn same_shape_lowering(op: Operator, category: Category) -> LoweringRule {
    match category {
        Category::Scalar => LoweringRule::Direct,
        Category::Vector => LoweringRule::Elementwise,
        Category::Matrix => if op == Operator::Multiply {
            LoweringRule::MatrixProduct
        } else {
            LoweringRule::Elementwise
        },
    }
}

/// The resolution table.
///
/// Boolean operands are never defined. Two untracked scalars are left to
/// plain host arithmetic. Operands of one shape are always defined. A
/// vector combines with a scalar of its element type in either order. For
/// multiplication alone, a vector combines with a matrix of its element
/// type and size in either order. Nothing else is defined.
pub open spec fn resolve_spec(
    op: Operator,
    left: TypeDescriptor,
    left_tracked: bool,
    right: TypeDescriptor,
    right_tracked: bool,
) -> Option<Resolution> {
    if left.element == ElementType::Bool || right.element == ElementType::Bool {
        None
    } else if left.category == Category::Scalar && right.category == Category::Scalar
        && !left_tracked && !right_tracked {
        None
    } else if left == right {
        Some(Resolution { result: left, lowering: same_shape_lowering(op, left.category) })
    } else if left.element != right.element {
        None
    } else if left.category == Category::Vector && right.category == Category::Scalar {
        Some(Resolution { result: left, lowering: LoweringRule::Broadcast })
    } else if left.category == Category::Scalar && right.category == Category::Vector {
        Some(Resolution { result: right, lowering: LoweringRule::Broadcast })
    } else if op == Operator::Multiply && left.category == Category::Vector && right.category
        == Category::Matrix && left.size == right.size {
        Some(Resolution { result: left, lowering: LoweringRule::VectorMatrixProduct })
    } else if op == Operator::Multiply && left.category == Category::Matrix && right.category
        == Category::Vector && left.size == right.size {
        Some(Resolution { result: right, lowering: LoweringRule::VectorMatrixProduct })
    } else {
        None
    }
}

/// Decides whether `op` is defined on the two operand shapes and, if so,
/// the shape of the result and the lowering rule.
pub fn resolve(
    op: Operator,
    left: TypeDescriptor,
    left_tracked: bool,
    right: TypeDescriptor,
    right_tracked: bool,
) -> (r: Option<Resolution>)
    requires
        left.well_formed(),
        right.well_formed(),
    ensures
        r == resolve_spec(op, left, left_tracked, right, right_tracked),
        r is Some ==> r->0.result.well_formed(),
{
    if left.element == ElementType::Bool || right.element == ElementType::Bool {
        return None;
    }
    let both_scalar = left.category == Category::Scalar && right.category == Category::Scalar;
    if both_scalar && !left_tracked && !right_tracked {
        return None;
    }
    if left.same_shape(&right) {
        let lowering = match left.category {
            Category::Scalar => LoweringRule::Direct,
            Category::Vector => LoweringRule::Elementwise,
            Category::Matrix => match op {
                Operator::Multiply => LoweringRule::MatrixProduct,
                _ => LoweringRule::Elementwise,
            },
        };
        return Some(Resolution { result: left, lowering });
    }
    if left.element != right.element {
        return None;
    }
    let product = op == Operator::Multiply;
    match (left.category, right.category) {
        (Category::Vector, Category::Scalar) => Some(
            Resolution { result: left, lowering: LoweringRule::Broadcast },
        ),
        (Category::Scalar, Category::Vector) => Some(
            Resolution { result: right, lowering: LoweringRule::Broadcast },
        ),
        (Category::Vector, Category::Matrix) => if product && left.same_size(&right) {
            Some(Resolution { result: left, lowering: LoweringRule::VectorMatrixProduct })
        } else {
            None
        },
        (Category::Matrix, Category::Vector) => if product && left.same_size(&right) {
            Some(Resolution { result: right, lowering: LoweringRule::VectorMatrixProduct })
        } else {
            None
        },
        _ => None,
    }
}

/// Resolves multiplication of two operands.
pub fn impl_mul_variant(left: Operand, right: Operand) -> (r: Option<Resolution>)
    requires
        left.ty.well_formed(),
        right.ty.well_formed(),
    ensures
        r == resolve_spec(Operator::Multiply, left.ty, left.recorded, right.ty, right.recorded),
        r is Some ==> r->0.result.well_formed(),
{
    resolve(Operator::Multiply, left.ty, left.recorded, right.ty, right.recorded)
}

/// No operator is defined on a boolean operand, whatever the shapes.
pub proof fn lemma_boolean_is_undefined(
    op: Operator,
    left: TypeDescriptor,
    left_tracked: bool,
    right: TypeDescriptor,
    right_tracked: bool,
)
    requires
        left.element == ElementType::Bool || right.element == ElementType::Bool,
    ensures
        resolve_spec(op, left, left_tracked, right, right_tracked) is None,
{
}

/// Two untracked scalars are never resolved: host arithmetic is not shadowed.
pub proof fn lemma_untracked_scalars_are_undefined(
    op: Operator,
    left: TypeDescriptor,
    right: TypeDescriptor,
)
    requires
        left.category == Category::Scalar,
        right.category == Category::Scalar,
    ensures
        resolve_spec(op, left, false, right, false) is None,
{
}

/// A vector and a scalar of one non-boolean element type broadcast to the
/// vector's shape, in either operand order and whatever is tracked.
pub proof fn lemma_vector_scalar_broadcasts(
    op: Operator,
    vector: TypeDescriptor,
    vector_tracked: bool,
    scalar: TypeDescriptor,
    scalar_tracked: bool,
)
    requires
        vector.well_formed(),
        scalar.well_formed(),
        vector.category == Category::Vector,
        scalar.category == Category::Scalar,
        vector.element == scalar.element,
        vector.element != ElementType::Bool,
    ensures
        resolve_spec(op, vector, vector_tracked, scalar, scalar_tracked) == Some(
            Resolution { result: vector, lowering: LoweringRule::Broadcast },
        ),
        resolve_spec(op, scalar, scalar_tracked, vector, vector_tracked) == Some(
            Resolution { result: vector, lowering: LoweringRule::Broadcast },
        ),
{
}

/// Resolution is symmetric in definedness and in the result's shape:
/// swapping the operands never changes whether the operator is defined.
pub proof fn lemma_definedness_is_symmetric(
    op: Operator,
    left: TypeDescriptor,
    left_tracked: bool,
    right: TypeDescriptor,
    right_tracked: bool,
)
    ensures
        resolve_spec(op, left, left_tracked, right, right_tracked) is Some <==> resolve_spec(
            op,
            right,
            right_tracked,
            left,
            left_tracked,
        ) is Some,
{
}

/// A defined result has the shape of one of the operands, and never a
/// scalar's unless both operands are scalars.
pub proof fn lemma_result_is_an_operand_shape(
    op: Operator,
    left: TypeDescriptor,
    left_tracked: bool,
    right: TypeDescriptor,
    right_tracked: bool,
)
    requires
        resolve_spec(op, left, left_tracked, right, right_tracked) is Some,
    ensures
        ({
            let r = resolve_spec(op, left, left_tracked, right, right_tracked)->0;
            &&& r.result == left || r.result == right
            &&& r.result.category == Category::Scalar ==> left.category == Category::Scalar
                && right.category == Category::Scalar
        }),
{
}

/// The two products of linear algebra belong to multiplication alone.
pub proof fn lemma_products_belong_to_multiplication(
    op: Operator,
    left: TypeDescriptor,
    left_tracked: bool,
    right: TypeDescriptor,
    right_tracked: bool,
)
    requires
        op != Operator::Multiply,
        resolve_spec(op, left, left_tracked, right, right_tracked) is Some,
    ensures
        ({
            let r = resolve_spec(op, left, left_tracked, right, right_tracked)->0;
            &&& r.lowering != LoweringRule::MatrixProduct
            &&& r.lowering != LoweringRule::VectorMatrixProduct
            &&& left.category != right.category ==> r.lowering == LoweringRule::Broadcast
        }),
{
}

/// Whether an operand is tracked matters for a pair of scalars only.
pub proof fn lemma_tracking_matters_for_scalars_only(
    op: Operator,
    left: TypeDescriptor,
    right: TypeDescriptor,
    a: bool,
    b: bool,
    c: bool,
    d: bool,
)
    requires
        left.category != Category::Scalar || right.category != Category::Scalar || ((a || b) && (c
            || d)),
    ensures
        resolve_spec(op, left, a, right, b) == resolve_spec(op, left, c, right, d),
{
}

} // verus!
